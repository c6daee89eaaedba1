use tmuxmux_mobile::input::{encode_input, key_event_to_bytes, InputEvent, Key, Modifiers};

const NONE: Modifiers = Modifiers { alt: false, ctrl: false, shift: false };
const CTRL: Modifiers = Modifiers { alt: false, ctrl: true, shift: false };
const SHIFT: Modifiers = Modifiers { alt: false, ctrl: false, shift: true };
const ALT: Modifiers = Modifiers { alt: true, ctrl: false, shift: false };
const CTRL_ALT: Modifiers = Modifiers { alt: true, ctrl: true, shift: false };

#[test]
fn basic_keys() {
    assert_eq!(key_event_to_bytes(Key::Enter, NONE, false), vec![b'\r']);
    assert_eq!(key_event_to_bytes(Key::Backspace, NONE, false), vec![0x7f]);
    assert_eq!(key_event_to_bytes(Key::Backspace, CTRL, false), vec![0x08]);
    assert_eq!(key_event_to_bytes(Key::Tab, NONE, false), vec![b'\t']);
    assert_eq!(key_event_to_bytes(Key::Tab, SHIFT, false), b"\x1b[Z".to_vec());
    assert_eq!(key_event_to_bytes(Key::Escape, NONE, false), vec![0x1b]);
}

#[test]
fn cursor_keys_follow_mode_and_modifiers() {
    assert_eq!(key_event_to_bytes(Key::ArrowUp, NONE, false), b"\x1b[A".to_vec());
    assert_eq!(key_event_to_bytes(Key::ArrowUp, NONE, true), b"\x1bOA".to_vec());
    assert_eq!(key_event_to_bytes(Key::ArrowDown, SHIFT, true), b"\x1b[1;2B".to_vec());
    assert_eq!(key_event_to_bytes(Key::ArrowRight, CTRL, false), b"\x1b[1;5C".to_vec());
    assert_eq!(key_event_to_bytes(Key::ArrowLeft, ALT, false), b"\x1b[1;3D".to_vec());
    assert_eq!(key_event_to_bytes(Key::Home, NONE, false), b"\x1b[H".to_vec());
    assert_eq!(key_event_to_bytes(Key::End, NONE, true), b"\x1bOF".to_vec());
    let all = Modifiers { alt: true, ctrl: true, shift: true };
    assert_eq!(key_event_to_bytes(Key::ArrowUp, all, false), b"\x1b[1;8A".to_vec());
}

#[test]
fn tilde_keys() {
    assert_eq!(key_event_to_bytes(Key::PageUp, NONE, false), b"\x1b[5~".to_vec());
    assert_eq!(key_event_to_bytes(Key::PageDown, CTRL, false), b"\x1b[6;5~".to_vec());
    assert_eq!(key_event_to_bytes(Key::Insert, NONE, false), b"\x1b[2~".to_vec());
    assert_eq!(key_event_to_bytes(Key::Delete, SHIFT, false), b"\x1b[3;2~".to_vec());
    assert_eq!(key_event_to_bytes(Key::F5, NONE, false), b"\x1b[15~".to_vec());
    assert_eq!(key_event_to_bytes(Key::F6, NONE, false), b"\x1b[17~".to_vec());
    assert_eq!(key_event_to_bytes(Key::F10, NONE, false), b"\x1b[21~".to_vec());
    assert_eq!(key_event_to_bytes(Key::F11, NONE, false), b"\x1b[23~".to_vec());
    assert_eq!(key_event_to_bytes(Key::F12, CTRL_ALT, false), b"\x1b[24;7~".to_vec());
}

#[test]
fn pf_keys() {
    assert_eq!(key_event_to_bytes(Key::F1, NONE, false), b"\x1bOP".to_vec());
    assert_eq!(key_event_to_bytes(Key::F2, NONE, true), b"\x1bOQ".to_vec());
    assert_eq!(key_event_to_bytes(Key::F3, SHIFT, false), b"\x1b[1;2R".to_vec());
    assert_eq!(key_event_to_bytes(Key::F4, CTRL, false), b"\x1b[1;5S".to_vec());
}

#[test]
fn ctrl_combinations() {
    assert_eq!(key_event_to_bytes(Key::A, CTRL, false), vec![1]);
    assert_eq!(key_event_to_bytes(Key::Z, CTRL, false), vec![26]);
    assert_eq!(key_event_to_bytes(Key::D, CTRL_ALT, false), vec![0x1b, 4]);
    assert_eq!(key_event_to_bytes(Key::Space, CTRL, false), vec![0]);
    assert_eq!(key_event_to_bytes(Key::OpenBracket, CTRL, false), vec![0x1b]);
    assert_eq!(key_event_to_bytes(Key::Backslash, CTRL, false), vec![0x1c]);
    assert_eq!(key_event_to_bytes(Key::CloseBracket, CTRL, false), vec![0x1d]);
    assert_eq!(key_event_to_bytes(Key::Minus, CTRL, false), vec![0x1f]);
    assert_eq!(key_event_to_bytes(Key::Other, CTRL, false), Vec::<u8>::new());
}

#[test]
fn printables_come_as_text_not_keys() {
    assert_eq!(key_event_to_bytes(Key::A, NONE, false), Vec::<u8>::new());
    assert_eq!(key_event_to_bytes(Key::Space, SHIFT, false), Vec::<u8>::new());
    assert_eq!(key_event_to_bytes(Key::Minus, ALT, false), Vec::<u8>::new());
    assert_eq!(key_event_to_bytes(Key::Other, NONE, false), Vec::<u8>::new());
}

#[test]
fn input_events_are_concatenated() {
    let events = vec![
        InputEvent::Key { key: Key::ArrowUp, pressed: true, modifiers: NONE },
        InputEvent::Key { key: Key::ArrowUp, pressed: false, modifiers: NONE },
        InputEvent::Text("héllo".to_string()),
        InputEvent::Copy,
        InputEvent::Cut,
        InputEvent::Other,
    ];
    let mut expected = b"\x1bOA".to_vec();
    expected.extend_from_slice("héllo".as_bytes());
    expected.extend_from_slice(&[0x03, 0x18]);
    assert_eq!(encode_input(&events, NONE, true, false), expected);
}

#[test]
fn alt_text_gets_escape_prefix() {
    let events = vec![InputEvent::Text("x".to_string())];
    assert_eq!(encode_input(&events, ALT, false, false), b"\x1bx".to_vec());
    assert_eq!(encode_input(&events, CTRL_ALT, false, false), b"x".to_vec());
}

#[test]
fn paste_normalizes_newlines() {
    let events = vec![InputEvent::Paste("a\r\nb\nc\r\r\nd\r".to_string())];
    assert_eq!(encode_input(&events, NONE, false, false), b"a\rb\rc\r\rd\r".to_vec());
    assert_eq!(
        encode_input(&events, NONE, false, true),
        b"\x1b[200~a\rb\rc\r\rd\r\x1b[201~".to_vec()
    );
}

#[test]
fn paste_has_no_line_feed() {
    let events = vec![InputEvent::Paste("\n\n\r\n\nx\n".to_string())];
    let out = encode_input(&events, NONE, false, false);
    assert!(!out.contains(&b'\n'));
    assert_eq!(out, b"\r\r\r\rx\r".to_vec());
}

#[test]
fn modifier_parameters_are_distinct() {
    let mut seen = Vec::new();
    for bits in 0u8..8 {
        let m = Modifiers { shift: bits & 1 != 0, alt: bits & 2 != 0, ctrl: bits & 4 != 0 };
        let bytes = key_event_to_bytes(Key::Delete, m, false);
        assert!(!seen.contains(&bytes));
        seen.push(bytes);
    }
    assert_eq!(seen[0], b"\x1b[3~".to_vec());
    assert_eq!(seen[7], b"\x1b[3;8~".to_vec());
}

#[test]
fn empty_and_released_input() {
    assert_eq!(encode_input(&Vec::new(), NONE, false, true), Vec::<u8>::new());
    let events = vec![InputEvent::Key { key: Key::Enter, pressed: false, modifiers: NONE }];
    assert_eq!(encode_input(&events, NONE, false, false), Vec::<u8>::new());
    let events = vec![InputEvent::Paste(String::new())];
    assert_eq!(encode_input(&events, NONE, false, true), b"\x1b[200~\x1b[201~".to_vec());
}
