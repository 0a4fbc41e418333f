use snapshelf::clipboard::{
    decode_utf16_lossy, paste_clipboard, text_from_clipboard, to_wide_nul, ClipItem,
};

fn read_back(buffer: &[u16]) -> String {
    let end = buffer.iter().position(|&u| u == 0).unwrap_or(buffer.len());
    decode_utf16_lossy(&buffer[..end])
}

#[test]
fn wide_buffers_end_in_nul() {
    assert_eq!(to_wide_nul(""), vec![0]);
    assert_eq!(to_wide_nul("open"), vec![0x6f, 0x70, 0x65, 0x6e, 0]);
    assert_eq!(to_wide_nul("é😀"), vec![0xE9, 0xD83D, 0xDE00, 0]);
    assert_eq!(to_wide_nul("\u{10FFFF}"), vec![0xDBFF, 0xDFFF, 0]);
    for s in ["", "hello", "Grüße, 世界 😀", "\u{FFFF}\u{10000}"] {
        let expected: Vec<u16> = s.encode_utf16().chain(std::iter::once(0)).collect();
        assert_eq!(to_wide_nul(s), expected);
    }
}

#[test]
fn written_text_reads_back() {
    for s in ["", "hello", "Grüße, 世界 😀", "line\r\nbreak", "\u{FFFD}"] {
        assert_eq!(read_back(&to_wide_nul(s)), s);
    }
    // A NUL inside the text ends what is read.
    assert_eq!(read_back(&to_wide_nul("ab\0cd")), "ab");
}

#[test]
fn lone_surrogates_become_replacement_characters() {
    assert_eq!(decode_utf16_lossy(&[0x61, 0xD800, 0x62]), "a\u{FFFD}b");
    assert_eq!(decode_utf16_lossy(&[0xDC00]), "\u{FFFD}");
    assert_eq!(decode_utf16_lossy(&[0xD83D]), "\u{FFFD}");
    assert_eq!(decode_utf16_lossy(&[0xD83D, 0xD83D, 0xDE00]), "\u{FFFD}😀");
    let units = [0xD800, 0x41, 0xDFFF, 0xD83D, 0xDE00];
    assert_eq!(decode_utf16_lossy(&units), String::from_utf16_lossy(&units));
}

#[test]
fn pasting_text() {
    assert!(paste_clipboard(None).is_none());
    assert!(paste_clipboard(Some("")).is_none());
    assert!(paste_clipboard(Some(" \t\r\n\u{3000}")).is_none());
    match paste_clipboard(Some("  https://example.com/a \n")) {
        Some(ClipItem::Url(u)) => assert_eq!(u, "https://example.com/a"),
        other => panic!("unexpected {:?}", other),
    }
    match paste_clipboard(Some("http://x")) {
        Some(ClipItem::Url(u)) => assert_eq!(u, "http://x"),
        other => panic!("unexpected {:?}", other),
    }
    match paste_clipboard(Some("  some text  ")) {
        Some(ClipItem::Text(t)) => assert_eq!(t, "  some text  "),
        other => panic!("unexpected {:?}", other),
    }
    match paste_clipboard(Some("HTTP://upper")) {
        Some(ClipItem::Text(t)) => assert_eq!(t, "HTTP://upper"),
        other => panic!("unexpected {:?}", other),
    }
    match paste_clipboard(Some("ftp://files")) {
        Some(ClipItem::Text(t)) => assert_eq!(t, "ftp://files"),
        other => panic!("unexpected {:?}", other),
    }
}

#[test]
fn empty_clipboard_has_no_text() {
    assert_eq!(text_from_clipboard(&[]), None);
    assert_eq!(text_from_clipboard(&[0x68, 0x69]), Some("hi".to_string()));
    assert_eq!(text_from_clipboard(&[0xDC00]), Some("\u{FFFD}".to_string()));
}
