//! Clipboard content behaviour.

use cross_control::decode_message;
use cross_control::encode_message;
use cross_control::ClipboardContent;
use cross_control::ClipboardFormat;
use cross_control::ClipboardMessage;
use cross_control::Message;

#[test]
fn clipboard_text_roundtrip() {
    let content = ClipboardContent::text("hello clipboard");
    let msg = Message::Clipboard(ClipboardMessage::Data(content.clone()));
    let bytes = encode_message(&msg).unwrap();
    let decoded = decode_message(&bytes[4..].to_vec()).unwrap();
    match decoded {
        Message::Clipboard(ClipboardMessage::Data(c)) => {
            assert_eq!(c, content);
            assert_eq!(c.as_text(), Some("hello clipboard"));
        }
        _ => panic!("unexpected message type"),
    }
}

#[test]
fn clipboard_png_roundtrip() {
    let content = ClipboardContent {
        format: ClipboardFormat::Png,
        data: vec![0x89, 0x50, 0x4E, 0x47, 0x0D, 0x0A],
    };
    let msg = Message::Clipboard(ClipboardMessage::Data(content.clone()));
    let bytes = encode_message(&msg).unwrap();
    let decoded = decode_message(&bytes[4..].to_vec()).unwrap();
    match decoded {
        Message::Clipboard(ClipboardMessage::Data(c)) => {
            assert_eq!(c, content);
            assert_eq!(c.as_text(), None);
        }
        _ => panic!("unexpected message type"),
    }
}

#[test]
fn clipboard_size() {
    let content = ClipboardContent::text("abc");
    assert_eq!(content.size(), 3);
}
