use fbconsole::editor::{EditStatus, LineEditor};
use fbconsole::mailbox::Mailbox;
use fbconsole::writer::{FrameBufferInfo, FrameBufferWriter, PixelFormat};
use fbconsole::{BACKSPACE, BORDER_PADDING, CANCEL_CHAR, GLYPH_WIDTH, LINE_TERMINATOR};

fn console() -> FrameBufferWriter {
    let info = FrameBufferInfo {
        byte_len: 100 * 60 * 3,
        width: 100,
        height: 60,
        pixel_format: PixelFormat::Rgb,
        bytes_per_pixel: 3,
        stride: 100,
    };
    let mut w = FrameBufferWriter::empty();
    w.init(vec![0u8; info.byte_len], info);
    w
}

/// Drives one read-line session: publishes each key to the mailbox, polls it,
/// and feeds the editor, exactly as the kernel's input loop does.
fn read_line_script(keys: &[char]) -> Option<String> {
    let mut console = console();
    let mut mailbox = Mailbox::new();
    let mut editor = LineEditor::new();
    for &key in keys {
        mailbox.publish(key);
        let event = mailbox.take();
        match editor.handle_event(&mut console, event) {
            EditStatus::Pending => {},
            EditStatus::Accepted => return Some(editor.into_line().into_iter().collect()),
            EditStatus::Cancelled => return None,
        }
    }
    panic!("script ended without a terminator");
}

#[test]
fn mailbox_take_returns_latest_published_only() {
    let mut mailbox = Mailbox::new();
    mailbox.publish('a');
    mailbox.publish('b');
    assert_eq!(mailbox.take(), Some('b'));
    assert_eq!(mailbox.take(), None);
}

#[test]
fn mailbox_starts_empty() {
    let mut mailbox = Mailbox::new();
    assert_eq!(mailbox.take(), None);
}

#[test]
fn read_line_accepts_on_terminator() {
    assert_eq!(read_line_script(&['h', 'i', '\u{000D}']), Some("hi".to_string()));
}

#[test]
fn read_line_cancels_on_cancel_code() {
    assert_eq!(read_line_script(&['h', 'i', '\u{000A}']), None);
}

#[test]
fn read_line_backspace_removes_last_character() {
    assert_eq!(read_line_script(&['h', BACKSPACE, 'i', '\u{000D}']), Some("i".to_string()));
}

#[test]
fn read_line_backspace_with_nothing_typed_is_ignored() {
    assert_eq!(read_line_script(&[BACKSPACE, 'h', '\u{000D}']), Some("h".to_string()));
}

#[test]
fn terminator_and_cancel_are_distinct_codes() {
    assert_ne!(CANCEL_CHAR, LINE_TERMINATOR);
    assert_eq!(read_line_script(&[LINE_TERMINATOR]), Some(String::new()));
    assert_eq!(read_line_script(&[CANCEL_CHAR]), None);
}

#[test]
fn pending_events_keep_the_loop_polling() {
    let mut console = console();
    let mut editor = LineEditor::new();
    assert_eq!(editor.handle_event(&mut console, None), EditStatus::Pending);
    assert_eq!(editor.handle_event(&mut console, Some('x')), EditStatus::Pending);
    assert_eq!(editor.accepted_count(), 1);
    assert_eq!(editor.handle_event(&mut console, Some(BACKSPACE)), EditStatus::Pending);
    assert_eq!(editor.accepted_count(), 0);
}

#[test]
fn editor_echoes_accepted_characters() {
    let mut console = console();
    let mut editor = LineEditor::new();
    let x0 = console.x_pos();
    editor.handle_event(&mut console, Some('h'));
    editor.handle_event(&mut console, Some('i'));
    assert_eq!(console.x_pos(), x0 + 2 * GLYPH_WIDTH);
}

#[test]
fn editor_backspace_with_empty_line_does_not_echo() {
    let mut console = console();
    let mut editor = LineEditor::new();
    let x0 = console.x_pos();
    let y0 = console.y_pos();
    editor.handle_event(&mut console, Some(BACKSPACE));
    assert_eq!(console.x_pos(), x0);
    assert_eq!(console.y_pos(), y0);
    assert_eq!(editor.accepted_count(), 0);
    assert_eq!(x0, BORDER_PADDING);
}

#[test]
fn cancel_discards_a_partial_line_entirely() {
    let mut console = console();
    let mut editor = LineEditor::new();
    editor.handle_event(&mut console, Some('a'));
    editor.handle_event(&mut console, Some('b'));
    let status = editor.handle_event(&mut console, Some(CANCEL_CHAR));
    assert_eq!(status, EditStatus::Cancelled);
}
