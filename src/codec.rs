//! Length-prefixed buffers: an unsigned base-128 length followed by the bytes.
use integer_encoding::VarInt;
use vstd::prelude::*;
use vstd::slice::slice_to_vec;

verus! {

/// The longest length prefix that a `u32` length can take.
pub const MAX_PREFIX: usize = 5;

/// The base-128 little-endian encoding of `n`: seven bits per byte, the
/// high bit set on every byte but the last.
pub open spec fn varint(n: nat) -> Seq<u8>
    decreases n,
{
    if n < 128 {
        seq![n as u8]
    } else {
        seq![(n % 128 + 128) as u8] + varint(n / 128)
    }
}

/// The number that a run of base-128 digits stands for, least significant first.
pub open spec fn varint_value(s: Seq<u8>) -> nat
    decreases s.len(),
{
    if s.len() == 0 {
        0
    } else {
        (s[0] % 128) as nat + 128 * varint_value(s.drop_first())
    }
}

/// A complete prefix: every byte but the last carries the continuation bit.
pub open spec fn is_varint(s: Seq<u8>) -> bool {
    &&& s.len() >= 1
    &&& s.last() < 128
    &&& forall|j: int| 0 <= j < s.len() - 1 ==> s[j] >= 128
}

/// A buffer as it stands on the wire.
pub open spec fn frame(data: Seq<u8>) -> Seq<u8> {
    varint(data.len()) + data
}

/// The kinds of failure of the codec.
#[derive(Clone, Copy, Debug, PartialEq, Eq, Structural)]
pub enum ErrorKind {
    /// The input ended before the declared bytes.
    UnexpectedEof,
    /// The length prefix runs past its longest form, or declares too much.
    InvalidData,
    /// The buffer is too long for its length prefix.
    InvalidInput,
}

/// A failure of the codec.
#[derive(Clone, Copy, Debug, PartialEq, Eq, Structural)]
pub struct CodecError {
    pub kind: ErrorKind,
}

impl CodecError {
    pub fn kind(&self) -> (r: ErrorKind)
        ensures
            r == self.kind,
    {
        self.kind
    }
}

/// What reading one buffer from `s` gives: the bytes and how many input
/// bytes were consumed, or the kind of failure.
pub open spec fn read_buffer_result(s: Seq<u8>) -> Result<(Seq<u8>, nat), ErrorKind> {
    if exists|k: int| 1 <= k <= MAX_PREFIX && k <= s.len() && is_varint(#[trigger] s.take(k)) {
        let k = choose|k: int|
            1 <= k <= MAX_PREFIX && k <= s.len() && is_varint(#[trigger] s.take(k));
        let n = varint_value(s.take(k));
        if n > u32::MAX {
            Err(ErrorKind::InvalidData)
        } else if s.len() < k + n {
            Err(ErrorKind::UnexpectedEof)
        } else {
            Ok((s.subrange(k, k + n), (k + n) as nat))
        }
    } else if s.len() > MAX_PREFIX {
        Err(ErrorKind::InvalidData)
    } else {
        Err(ErrorKind::UnexpectedEof)
    }
}

/// Relies on integer_encoding's `VarInt::encode_var_vec` for `u32`: it emits
/// the base-128 digits of the number, least significant first, with the
/// continuation bit on all but the last.
#[verifier::external_body]
fn encode_varint(n: u32) -> (r: Vec<u8>)
    ensures
        r@ == varint(n as nat),
{
    n.encode_var_vec()
}

/// Relies on integer_encoding's `VarInt::decode_var` for `u32`: on a complete
/// prefix of at most five bytes it returns the value and the byte count, or
/// nothing when the value does not fit a `u32`.
#[verifier::external_body]
fn decode_varint(src: &[u8]) -> (r: Option<(u32, usize)>)
    ensures
        is_varint(src@) && src@.len() <= MAX_PREFIX ==> r == (if varint_value(src@) <= u32::MAX {
            Some((varint_value(src@) as u32, src@.len() as usize))
        } else {
            None::<(u32, usize)>
        }),
{
    u32::decode_var(src)
}

/// The canonical encoding is a complete prefix for the number it encodes.
pub proof fn lemma_varint(n: nat)
    ensures
        is_varint(varint(n)),
        varint_value(varint(n)) == n,
        n <= u32::MAX ==> varint(n).len() <= MAX_PREFIX,
        n < 128 ==> varint(n).len() == 1,
    decreases n,
{
    if n < 128 {
        let s = varint(n);
        assert(s.drop_first() =~= Seq::<u8>::empty());
        assert(varint_value(s.drop_first()) == 0);
    } else {
        lemma_varint(n / 128);
        let s = varint(n);
        let t = varint(n / 128);
        assert(s.drop_first() =~= t);
        assert(s[0] == (n % 128 + 128) as u8);
        assert((s[0] % 128) as nat == n % 128);
        assert(varint_value(s) == n % 128 + 128 * (n / 128));
        assert forall|j: int| 0 <= j < s.len() - 1 implies s[j] >= 128 by {
            if j > 0 {
                assert(s[j] == t[j - 1]);
            }
        }
        if n <= u32::MAX {
            assert(n / 128 <= u32::MAX);
            lemma_varint_short(n / 128);
        }
    }
}

proof fn lemma_varint_short(m: nat)
    requires
        m <= u32::MAX / 128,
    ensures
        varint(m).len() <= 4,
{
    let a = m / 128;
    let b = a / 128;
    let c = b / 128;
    assert(c < 128);
    if m >= 128 {
        assert(varint(m).len() == 1 + varint(a).len());
        if a >= 128 {
            assert(varint(a).len() == 1 + varint(b).len());
            if b >= 128 {
                assert(varint(b).len() == 1 + varint(c).len());
                assert(varint(c).len() == 1);
            }
        }
    }
}

/// Two complete prefixes of one input have the same length.
pub proof fn lemma_varint_unique(s: Seq<u8>, k1: int, k2: int)
    requires
        1 <= k1 <= s.len(),
        1 <= k2 <= s.len(),
        is_varint(s.take(k1)),
        is_varint(s.take(k2)),
    ensures
        k1 == k2,
{
    if k1 < k2 {
        assert(s.take(k1)[k1 - 1] == s[k1 - 1]);
        assert(s.take(k2)[k1 - 1] == s[k1 - 1]);
    } else if k2 < k1 {
        assert(s.take(k1)[k2 - 1] == s[k2 - 1]);
        assert(s.take(k2)[k2 - 1] == s[k2 - 1]);
    }
}

/// Reading a framed buffer gives the buffer back and consumes the frame,
/// whatever follows it.
pub proof fn lemma_read_frame(data: Seq<u8>, rest: Seq<u8>)
    requires
        data.len() <= u32::MAX,
    ensures
        read_buffer_result(frame(data) + rest) == Ok::<(Seq<u8>, nat), ErrorKind>(
            (data, frame(data).len()),
        ),
{
    let n = data.len();
    let s = frame(data) + rest;
    let v = varint(n);
    lemma_varint(n);
    let k = v.len() as int;
    assert(s.take(k) =~= v);
    assert(s.subrange(k, k + n) =~= data);
    let c = choose|c: int| 1 <= c <= MAX_PREFIX && c <= s.len() && is_varint(#[trigger] s.take(c));
    lemma_varint_unique(s, c, k);
}

/// A stream that declares `n` bytes but holds fewer ends in an
/// end-of-input failure, never in a shorter buffer.
pub proof fn lemma_read_truncated(n: nat, partial: Seq<u8>)
    requires
        n <= u32::MAX,
        partial.len() < n,
    ensures
        read_buffer_result(varint(n) + partial) == Err::<(Seq<u8>, nat), ErrorKind>(
            ErrorKind::UnexpectedEof,
        ),
{
    let s = varint(n) + partial;
    let v = varint(n);
    lemma_varint(n);
    let k = v.len() as int;
    assert(s.take(k) =~= v);
    let c = choose|c: int| 1 <= c <= MAX_PREFIX && c <= s.len() && is_varint(#[trigger] s.take(c));
    lemma_varint_unique(s, c, k);
}

/// An input read from front to back.
pub struct Cursor {
    bytes: Vec<u8>,
    pos: usize,
}

impl Cursor {
    /// The whole input.
    pub closed spec fn content(&self) -> Seq<u8> {
        self.bytes@
    }

    /// How many bytes were read so far.
    pub closed spec fn position(&self) -> nat {
        self.pos as nat
    }

    pub open spec fn wf(&self) -> bool {
        self.position() <= self.content().len()
    }

    /// What is left to read.
    pub open spec fn remaining(&self) -> Seq<u8> {
        self.content().subrange(self.position() as int, self.content().len() as int)
    }

    /// A cursor at the start of `bytes`.
    pub fn new(bytes: Vec<u8>) -> (r: Cursor)
        ensures
            r.wf(),
            r.content() == bytes@,
            r.position() == 0,
    {
        Cursor { bytes, pos: 0 }
    }

    /// How many bytes were read so far.
    pub fn pos(&self) -> (r: usize)
        ensures
            r == self.position(),
    {
        self.pos
    }

    /// Whether every byte was read.
    pub fn is_exhausted(&self) -> (r: bool)
        requires
            self.wf(),
        ensures
            r == (self.remaining().len() == 0),
    {
        self.pos == self.bytes.len()
    }

    /// The bytes that are left, the cursor given up.
    pub fn into_remaining(self) -> (r: Vec<u8>)
        requires
            self.wf(),
        ensures
            r@ == self.remaining(),
    {
        let mut out: Vec<u8> = Vec::new();
        let mut i: usize = self.pos;
        while i < self.bytes.len()
            invariant
                self.pos <= i <= self.bytes.len(),
                out@ == self.bytes@.subrange(self.pos as int, i as int),
            decreases self.bytes.len() - i,
        {
            out.push(self.bytes[i]);
            i += 1;
        }
        out
    }
}

/// Reads one length-prefixed buffer.
///
/// Fails with `UnexpectedEof` where the input ends before the declared bytes,
/// and with `InvalidData` where the length prefix runs past five bytes or
/// declares more than a `u32` can.
pub fn read_buffer(reader: &mut Cursor) -> (r: Result<Vec<u8>, CodecError>)
    requires
        old(reader).wf(),
    ensures
        final(reader).wf(),
        final(reader).content() == old(reader).content(),
        match read_buffer_result(old(reader).remaining()) {
            Ok((d, used)) => r matches Ok(v) && v@ == d && final(reader).position()
                == old(reader).position() + used,
            Err(e) => r matches Err(err) && err.kind == e,
        },
{
    let ghost s = reader.remaining();
    let start = reader.pos;
    let len = reader.bytes.len();
    let mut head: Vec<u8> = Vec::new();
    let mut i: usize = start;
    while i < len && i - start < MAX_PREFIX && reader.bytes[i] >= 128
        invariant
            start <= i <= len,
            i - start <= MAX_PREFIX,
            len == reader.bytes.len(),
            s == reader.bytes@.subrange(start as int, len as int),
            head@ == reader.bytes@.subrange(start as int, i as int),
            forall|j: int| start <= j < i ==> reader.bytes@[j] >= 128,
        decreases len - i,
    {
        head.push(reader.bytes[i]);
        i += 1;
    }
    if !(i < len && i - start < MAX_PREFIX) {
        proof {
            assert forall|k: int|
                1 <= k <= MAX_PREFIX && k <= s.len() implies !is_varint(#[trigger] s.take(k)) by {
                assert(s.take(k)[k - 1] == reader.bytes@[start + k - 1]);
            }
        }
        if i - start == MAX_PREFIX && i < len {
            return Err(CodecError { kind: ErrorKind::InvalidData });
        }
        return Err(CodecError { kind: ErrorKind::UnexpectedEof });
    }
    head.push(reader.bytes[i]);
    let ghost k = (i - start + 1) as int;
    proof {
        assert(head@ =~= s.take(k));
        assert(is_varint(s.take(k)));
        let c = choose|c: int|
            1 <= c <= MAX_PREFIX && c <= s.len() && is_varint(#[trigger] s.take(c));
        lemma_varint_unique(s, c, k);
    }
    let decoded = decode_varint(head.as_slice());
    let n: u32 = match decoded {
        Some((n, _)) => n,
        None => {
            return Err(CodecError { kind: ErrorKind::InvalidData });
        },
    };
    let body = i + 1;
    if len - body < n as usize {
        return Err(CodecError { kind: ErrorKind::UnexpectedEof });
    }
    let end = body + n as usize;
    let mut data: Vec<u8> = Vec::new();
    let mut j: usize = body;
    while j < end
        invariant
            body <= j <= end <= len,
            len == reader.bytes.len(),
            data@ == reader.bytes@.subrange(body as int, j as int),
        decreases end - j,
    {
        data.push(reader.bytes[j]);
        j += 1;
    }
    reader.pos = end;
    proof {
        assert(data@ =~= s.subrange(k, k + n));
    }
    Ok(data)
}

/// Writes one length-prefixed buffer.
///
/// Fails with `InvalidInput`, writing nothing, where the buffer is longer
/// than a `u32` length can declare.
pub fn write_buffer(writer: &mut Vec<u8>, data: &[u8]) -> (r: Result<(), CodecError>)
    ensures
        data@.len() <= u32::MAX ==> r is Ok && final(writer)@ == old(writer)@ + frame(data@),
        data@.len() > u32::MAX ==> r == Err::<(), CodecError>(
            CodecError { kind: ErrorKind::InvalidInput },
        ) && final(writer)@ == old(writer)@,
{
    if data.len() > u32::MAX as usize {
        return Err(CodecError { kind: ErrorKind::InvalidInput });
    }
    let mut prefix = encode_varint(data.len() as u32);
    let mut body = slice_to_vec(data);
    writer.append(&mut prefix);
    writer.append(&mut body);
    proof {
        assert(writer@ =~= old(writer)@ + frame(data@));
    }
    Ok(())
}

} // verus!
