use cem::clipboard::{Clipboard, ClipboardItem, LocalBuffer};

fn text_of(item: Option<&ClipboardItem>) -> Option<String> {
    match item {
        Some(ClipboardItem::Text { text }) => Some(text.clone()),
        _ => None,
    }
}

#[test]
fn clipboard_top_is_most_recent_push() {
    let mut clipboard = Clipboard::default();
    assert!(clipboard.top().is_none());
    clipboard.push("first");
    clipboard.push(String::from("second"));
    assert_eq!(text_of(clipboard.top()), Some("second".to_string()));
}

#[test]
fn local_buffer_keeps_newest_within_limit() {
    let mut buffer = LocalBuffer::new(Some(2));
    buffer.push(ClipboardItem::from("a"));
    buffer.push(ClipboardItem::from("b"));
    buffer.push(ClipboardItem::from("c"));
    assert_eq!(text_of(buffer.top()), Some("c".to_string()));
}

#[test]
fn local_buffer_with_zero_limit_keeps_nothing() {
    let mut buffer = LocalBuffer::new(Some(0));
    buffer.push(ClipboardItem::from("a"));
    assert!(buffer.top().is_none());
}

#[test]
fn local_buffer_without_limit_starts_empty() {
    let mut buffer = LocalBuffer::default();
    assert!(buffer.top().is_none());
    buffer.push(ClipboardItem::Entities {});
    assert!(matches!(buffer.top(), Some(ClipboardItem::Entities {})));
}

#[test]
fn clipboard_item_from_text() {
    let item = ClipboardItem::from(String::from("hello"));
    assert_eq!(text_of(Some(&item)), Some("hello".to_string()));
}
