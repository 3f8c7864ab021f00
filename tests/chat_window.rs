use onyx_server::chat::{ChatChannel, ChatWindow};

#[test]
fn new_window_is_empty() {
    let mut w = ChatWindow::new();
    assert!(w.lines().is_empty());
    assert!(w.message().is_none());
}

#[test]
fn insert_keeps_order() {
    let mut w = ChatWindow::new();
    w.insert(ChatChannel::Server, "one".to_string());
    w.insert(ChatChannel::Say, "two".to_string());
    assert_eq!(
        w.lines(),
        &vec![(ChatChannel::Server, "one".to_string()), (ChatChannel::Say, "two".to_string())]
    );
}

#[test]
fn submitted_line_is_taken_once() {
    let mut w = ChatWindow::new();
    w.set_text("hello".to_string());
    w.submit();
    assert_eq!(w.message(), Some((ChatChannel::Say, "hello".to_string())));
    assert_eq!(w.message(), None);
    w.set_channel(ChatChannel::Global);
    w.set_text("all".to_string());
    w.submit();
    assert_eq!(w.message(), Some((ChatChannel::Global, "all".to_string())));
    w.submit();
    assert_eq!(w.message(), Some((ChatChannel::Global, String::new())));
}

