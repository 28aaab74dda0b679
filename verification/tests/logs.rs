use devconsole::logs::{
    BevyLogFeed, CapturedLog, LogLevel, MessageVisitor, LOG_FEED_CAP, LOG_FEED_VISIBLE,
};

fn log(message: &str) -> CapturedLog {
    CapturedLog {
        level: LogLevel::Info,
        target: "game".to_string(),
        message: message.to_string(),
    }
}

#[test]
fn levels_have_their_words() {
    assert_eq!(LogLevel::Trace.as_str(), "TRACE");
    assert_eq!(LogLevel::Debug.as_str(), "DEBUG");
    assert_eq!(LogLevel::Info.as_str(), "INFO");
    assert_eq!(LogLevel::Warn.as_str(), "WARN");
    assert_eq!(LogLevel::Error.as_str(), "ERROR");
}

#[test]
fn a_line_shows_level_target_and_message() {
    let warn = CapturedLog {
        level: LogLevel::Warn,
        target: "bevy_winit".to_string(),
        message: "no window".to_string(),
    };
    assert_eq!(warn.line(), "[WARN] bevy_winit: no window");
}

#[test]
fn the_visitor_takes_the_message_field() {
    let mut visitor = MessageVisitor::new();
    assert_eq!(visitor.0, "");
    visitor.record_debug("entity", "12v0".to_string());
    assert_eq!(visitor.0, "");
    visitor.record_debug("message", "hello".to_string());
    assert_eq!(visitor.0, "hello");
    visitor.record_debug("messages", "no".to_string());
    assert_eq!(visitor.0, "hello");
    visitor.record_debug("message", "again".to_string());
    assert_eq!(visitor.0, "again");
    assert!(MessageVisitor::wants("message"));
    assert!(!MessageVisitor::wants("msg"));
}

#[test]
fn a_new_feed_shows_nothing() {
    assert_eq!(BevyLogFeed::new().backdrop_text(), "");
}

#[test]
fn the_backdrop_shows_the_last_lines() {
    let mut feed = BevyLogFeed::new();
    feed.collect_bevy_logs(&vec![log("a"), log("b")]);
    assert_eq!(feed.backdrop_text(), "[INFO] game: a\n[INFO] game: b");

    let more: Vec<CapturedLog> = (0..50).map(|i| log(&i.to_string())).collect();
    feed.collect_bevy_logs(&more);
    let shown: Vec<String> = (26..50).map(|i| format!("[INFO] game: {i}")).collect();
    assert_eq!(shown.len(), LOG_FEED_VISIBLE);
    assert_eq!(feed.backdrop_text(), shown.join("\n"));
}

#[test]
fn a_full_feed_forgets_the_oldest() {
    let mut once = BevyLogFeed::new();
    let mut twice = BevyLogFeed::new();
    let first: Vec<CapturedLog> = (0..LOG_FEED_CAP).map(|i| log(&i.to_string())).collect();
    let second: Vec<CapturedLog> = (0..3).map(|i| log(&format!("more {i}"))).collect();
    let all: Vec<CapturedLog> = (0..LOG_FEED_CAP)
        .map(|i| log(&i.to_string()))
        .chain((0..3).map(|i| log(&format!("more {i}"))))
        .collect();
    twice.collect_bevy_logs(&first);
    twice.collect_bevy_logs(&second);
    once.collect_bevy_logs(&all);
    assert_eq!(once.backdrop_text(), twice.backdrop_text());
    assert!(once.backdrop_text().ends_with("[INFO] game: more 2"));
}
