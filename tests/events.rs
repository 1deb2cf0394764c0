use grapevine::{notify, Event, EventRecipient, Severity};

#[derive(Default)]
struct Log {
    lines: Vec<String>,
}

impl EventRecipient for Log {
    fn info(&mut self, message: &str) {
        self.lines.push(format!("info {}", message));
    }

    fn warn(&mut self, message: &str) {
        self.lines.push(format!("warn {}", message));
    }

    fn error(&mut self, message: &str) {
        self.lines.push(format!("error {}", message));
    }

    fn success(&mut self, message: &str) {
        self.lines.push(format!("success {}", message));
    }
}

#[test]
fn events_map_to_severities() {
    assert_eq!(Event::MessageReceived.severity(), Severity::Info);
    assert_eq!(Event::NewChannel.severity(), Severity::Success);
    assert_eq!(Event::ChannelFailed.severity(), Severity::Error);
    assert_eq!(Event::CreationFailed.severity(), Severity::Warn);
}

#[test]
fn only_a_failed_channel_is_removed() {
    assert!(Event::ChannelFailed.removes_channel());
    assert!(!Event::MessageReceived.removes_channel());
    assert!(!Event::NewChannel.removes_channel());
    assert!(!Event::CreationFailed.removes_channel());
}

#[test]
fn notify_calls_the_matching_method() {
    let mut log = Log::default();
    notify(&mut log, Severity::Warn, "w");
    notify(&mut log, Severity::Success, "s");
    notify(&mut log, Severity::Info, "i");
    notify(&mut log, Severity::Error, "e");
    assert_eq!(log.lines, vec!["warn w", "success s", "info i", "error e"]);
}

#[test]
fn finished_threads_map_to_events() {
    assert_eq!(Event::of_channel_thread(true), Some(Event::ChannelFailed));
    assert_eq!(Event::of_channel_thread(false), None);
    assert_eq!(Event::of_creation_thread(true), Event::NewChannel);
    assert_eq!(Event::of_creation_thread(false), Event::CreationFailed);
}
