//! Lifecycle events and the observers that hear of them.
use vstd::prelude::*;

verus! {

/// Can listen for events, at four severities.
pub trait EventRecipient {
    fn info(&mut self, message: &str);

    fn warn(&mut self, message: &str);

    fn error(&mut self, message: &str);

    fn success(&mut self, message: &str);
}

/// How an event is reported.
#[derive(Clone, Copy, Debug, PartialEq, Eq, Structural)]
pub enum Severity {
    Info,
    Warn,
    Error,
    Success,
}

/// What happens in the life of the channels.
#[derive(Clone, Copy, Debug, PartialEq, Eq, Structural)]
pub enum Event {
    /// A message arrived on a channel.
    MessageReceived,
    /// A channel was established.
    NewChannel,
    /// A channel's listening failed; the channel is gone.
    ChannelFailed,
    /// An attempt to create a channel failed.
    CreationFailed,
}

/// The severity at which an event is reported.
pub open spec fn severity_spec(event: Event) -> Severity {
    match event {
        Event::MessageReceived => Severity::Info,
        Event::NewChannel => Severity::Success,
        Event::ChannelFailed => Severity::Error,
        Event::CreationFailed => Severity::Warn,
    }
}

impl Event {
    /// The severity at which the event is reported.
    pub fn severity(self) -> (r: Severity)
        ensures
            r == severity_spec(self),
    {
        match self {
            Event::MessageReceived => Severity::Info,
            Event::NewChannel => Severity::Success,
            Event::ChannelFailed => Severity::Error,
            Event::CreationFailed => Severity::Warn,
        }
    }

    /// What a finished thread that served a channel reports: its failure,
    /// or nothing where it ended cleanly.
    pub fn of_channel_thread(failed: bool) -> (r: Option<Event>)
        ensures
            r == (if failed {
                Some(Event::ChannelFailed)
            } else {
                None
            }),
    {
        if failed {
            Some(Event::ChannelFailed)
        } else {
            None
        }
    }

    /// What a finished thread that created a channel reports.
    pub fn of_creation_thread(succeeded: bool) -> (r: Event)
        ensures
            r == (if succeeded {
                Event::NewChannel
            } else {
                Event::CreationFailed
            }),
    {
        if succeeded {
            Event::NewChannel
        } else {
            Event::CreationFailed
        }
    }

    /// Whether the event takes its channel out of the active set.
    pub fn removes_channel(self) -> (r: bool)
        ensures
            r == (self == Event::ChannelFailed),
    {
        match self {
            Event::ChannelFailed => true,
            _ => false,
        }
    }
}

/// Hands a message to the recipient at the given severity.
pub fn notify<R: EventRecipient + ?Sized>(recipient: &mut R, severity: Severity, message: &str) {
    match severity {
        Severity::Info => recipient.info(message),
        Severity::Warn => recipient.warn(message),
        Severity::Error => recipient.error(message),
        Severity::Success => recipient.success(message),
    }
}

} // verus!
