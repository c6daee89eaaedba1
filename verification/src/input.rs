//! Keyboard input → the byte sequences a terminal expects.
//!
//! Printable characters arrive separately as text (which preserves
//! shift/uppercase/symbols), so key events only handle special keys and Ctrl
//! combinations. Ctrl+C / Ctrl+X / Ctrl+V arrive as copy / cut / paste
//! events and are handled with the other input events in [`encode_input`].
use vstd::prelude::*;
use vstd::utf8::encode_utf8;

verus! {

/// The keys whose events the terminal translates; every other key is `Other`.
#[derive(Clone, Copy, PartialEq, Eq, Debug, Structural)]
pub enum Key {
    Enter,
    Backspace,
    Tab,
    Escape,
    ArrowUp,
    ArrowDown,
    ArrowRight,
    ArrowLeft,
    Home,
    End,
    PageUp,
    PageDown,
    Insert,
    Delete,
    F1,
    F2,
    F3,
    F4,
    F5,
    F6,
    F7,
    F8,
    F9,
    F10,
    F11,
    F12,
    Space,
    OpenBracket,
    Backslash,
    CloseBracket,
    Minus,
    A,
    B,
    C,
    D,
    E,
    F,
    G,
    H,
    I,
    J,
    K,
    L,
    M,
    N,
    O,
    P,
    Q,
    R,
    S,
    T,
    U,
    V,
    W,
    X,
    Y,
    Z,
    Other,
}

/// The modifier keys held during an event.
#[derive(Clone, Copy, PartialEq, Eq, Debug, Structural)]
pub struct Modifiers {
    pub alt: bool,
    pub ctrl: bool,
    pub shift: bool,
}

/// xterm's modifier parameter: 1 + shift(1) + alt(2) + ctrl(4).
pub open spec fn modifier_code(m: Modifiers) -> nat {
    1 + (if m.shift {
        1nat
    } else {
        0nat
    }) + (if m.alt {
        2nat
    } else {
        0nat
    }) + (if m.ctrl {
        4nat
    } else {
        0nat
    })
}

/// The ASCII decimal digits of `n`.
pub open spec fn decimal(n: nat) -> Seq<u8>
    decreases n,
{
    if n < 10 {
        seq![(0x30 + n) as u8]
    } else {
        decimal(n / 10) + seq![(0x30 + n % 10) as u8]
    }
}

/// Cursor keys: `CSI 1 ; m X` with modifiers, `SS3 X` in application cursor
/// mode, `CSI X` otherwise.
pub open spec fn cursor_key(m: Modifiers, app_cursor: bool, ch: u8) -> Seq<u8> {
    if modifier_code(m) > 1 {
        seq![0x1bu8, 0x5bu8, 0x31u8, 0x3bu8] + decimal(modifier_code(m)) + seq![ch]
    } else if app_cursor {
        seq![0x1bu8, 0x4fu8, ch]
    } else {
        seq![0x1bu8, 0x5bu8, ch]
    }
}

/// Editing and function keys: `CSI n ; m ~` with modifiers, `CSI n ~` otherwise.
pub open spec fn tilde_key(m: Modifiers, n: nat) -> Seq<u8> {
    if modifier_code(m) > 1 {
        seq![0x1bu8, 0x5bu8] + decimal(n) + seq![0x3bu8] + decimal(modifier_code(m)) + seq![
            0x7eu8,
        ]
    } else {
        seq![0x1bu8, 0x5bu8] + decimal(n) + seq![0x7eu8]
    }
}

/// F1..F4: `CSI 1 ; m X` with modifiers, `SS3 X` otherwise.
pub open spec fn pf_key(m: Modifiers, ch: u8) -> Seq<u8> {
    if modifier_code(m) > 1 {
        seq![0x1bu8, 0x5bu8, 0x31u8, 0x3bu8] + decimal(modifier_code(m)) + seq![ch]
    } else {
        seq![0x1bu8, 0x4fu8, ch]
    }
}

/// The control code of a letter key: A is 1, ..., Z is 26.
pub open spec fn letter_code(key: Key) -> Option<u8> {
    match key {
        Key::A => Some(1u8),
        Key::B => Some(2u8),
        Key::C => Some(3u8),
        Key::D => Some(4u8),
        Key::E => Some(5u8),
        Key::F => Some(6u8),
        Key::G => Some(7u8),
        Key::H => Some(8u8),
        Key::I => Some(9u8),
        Key::J => Some(10u8),
        Key::K => Some(11u8),
        Key::L => Some(12u8),
        Key::M => Some(13u8),
        Key::N => Some(14u8),
        Key::O => Some(15u8),
        Key::P => Some(16u8),
        Key::Q => Some(17u8),
        Key::R => Some(18u8),
        Key::S => Some(19u8),
        Key::T => Some(20u8),
        Key::U => Some(21u8),
        Key::V => Some(22u8),
        Key::W => Some(23u8),
        Key::X => Some(24u8),
        Key::Y => Some(25u8),
        Key::Z => Some(26u8),
        _ => None,
    }
}

/// Ctrl+letter: its control code, ESC-prefixed when Alt is held; nothing for
/// other keys.
pub open spec fn ctrl_letter_bytes(key: Key, m: Modifiers) -> Seq<u8> {
    match letter_code(key) {
        Some(c) => if m.alt {
            seq![0x1bu8, c]
        } else {
            seq![c]
        },
        None => Seq::empty(),
    }
}

/// The bytes a terminal expects for a key press.
pub open spec fn key_bytes(key: Key, m: Modifiers, app_cursor: bool) -> Seq<u8> {
    match key {
        Key::Enter => seq![0x0du8],
        Key::Backspace => if m.ctrl {
            seq![0x08u8]
        } else {
            seq![0x7fu8]
        },
        Key::Tab => if m.shift {
            seq![0x1bu8, 0x5bu8, 0x5au8]
        } else {
            seq![0x09u8]
        },
        Key::Escape => seq![0x1bu8],
        Key::ArrowUp => cursor_key(m, app_cursor, 0x41),
        Key::ArrowDown => cursor_key(m, app_cursor, 0x42),
        Key::ArrowRight => cursor_key(m, app_cursor, 0x43),
        Key::ArrowLeft => cursor_key(m, app_cursor, 0x44),
        Key::Home => cursor_key(m, app_cursor, 0x48),
        Key::End => cursor_key(m, app_cursor, 0x46),
        Key::PageUp => tilde_key(m, 5),
        Key::PageDown => tilde_key(m, 6),
        Key::Insert => tilde_key(m, 2),
        Key::Delete => tilde_key(m, 3),
        Key::F1 => pf_key(m, 0x50),
        Key::F2 => pf_key(m, 0x51),
        Key::F3 => pf_key(m, 0x52),
        Key::F4 => pf_key(m, 0x53),
        Key::F5 => tilde_key(m, 15),
        Key::F6 => tilde_key(m, 17),
        Key::F7 => tilde_key(m, 18),
        Key::F8 => tilde_key(m, 19),
        Key::F9 => tilde_key(m, 20),
        Key::F10 => tilde_key(m, 21),
        Key::F11 => tilde_key(m, 23),
        Key::F12 => tilde_key(m, 24),
        Key::Space => if m.ctrl {
            seq![0x00u8]
        } else {
            Seq::empty()
        },
        Key::OpenBracket => if m.ctrl {
            seq![0x1bu8]
        } else {
            Seq::empty()
        },
        Key::Backslash => if m.ctrl {
            seq![0x1cu8]
        } else {
            Seq::empty()
        },
        Key::CloseBracket => if m.ctrl {
            seq![0x1du8]
        } else {
            Seq::empty()
        },
        Key::Minus => if m.ctrl {
            seq![0x1fu8]
        } else {
            Seq::empty()
        },
        _ => if m.ctrl {
            ctrl_letter_bytes(key, m)
        } else {
            Seq::empty()
        },
    }
}

/// An input event from the UI, as the terminal sees it.
pub enum InputEvent {
    /// A key went down (`pressed`) or up, with the modifiers held at the time.
    Key { key: Key, pressed: bool, modifiers: Modifiers },
    /// Typed text (already shifted / composed).
    Text(String),
    /// The copy shortcut (Ctrl+C), which the terminal treats as SIGINT.
    Copy,
    /// The cut shortcut (Ctrl+X).
    Cut,
    /// Pasted text.
    Paste(String),
    /// Anything else (pointer, focus, ...): ignored.
    Other,
}

/// Pasted text with every CR LF turned into CR and every remaining LF into CR.
pub open spec fn normalize_newlines(b: Seq<u8>) -> Seq<u8>
    decreases b.len(),
{
    if b.len() == 0 {
        Seq::empty()
    } else if b[0] == 0x0d && b.len() >= 2 && b[1] == 0x0a {
        seq![0x0du8] + normalize_newlines(b.subrange(2, b.len() as int))
    } else if b[0] == 0x0a {
        seq![0x0du8] + normalize_newlines(b.drop_first())
    } else {
        seq![b[0]] + normalize_newlines(b.drop_first())
    }
}

/// `CSI 200 ~`, which starts a bracketed paste.
pub open spec fn paste_start() -> Seq<u8> {
    seq![0x1bu8, 0x5bu8, 0x32u8, 0x30u8, 0x30u8, 0x7eu8]
}

/// `CSI 201 ~`, which ends a bracketed paste.
pub open spec fn paste_end() -> Seq<u8> {
    seq![0x1bu8, 0x5bu8, 0x32u8, 0x30u8, 0x31u8, 0x7eu8]
}

/// The bytes sent for one input event. `frame_mods` are the modifiers held
/// during the frame (used for text); `app_cursor` and `bracketed` are the
/// terminal's application-cursor and bracketed-paste modes.
pub open spec fn event_bytes(
    ev: InputEvent,
    frame_mods: Modifiers,
    app_cursor: bool,
    bracketed: bool,
) -> Seq<u8> {
    match ev {
        InputEvent::Key { key, pressed, modifiers } => if pressed {
            key_bytes(key, modifiers, app_cursor)
        } else {
            Seq::empty()
        },
        InputEvent::Text(t) => (if frame_mods.alt && !frame_mods.ctrl {
            seq![0x1bu8]
        } else {
            Seq::empty()
        }) + encode_utf8(t@),
        InputEvent::Copy => seq![0x03u8],
        InputEvent::Cut => seq![0x18u8],
        InputEvent::Paste(p) => {
            let n = normalize_newlines(encode_utf8(p@));
            if bracketed {
                paste_start() + n + paste_end()
            } else {
                n
            }
        },
        InputEvent::Other => Seq::empty(),
    }
}

/// Normalized paste holds no line feed (so the remote side sees every line
/// ended by Enter), and is never longer than the pasted text.
pub proof fn lemma_paste_has_no_line_feed(b: Seq<u8>)
    ensures
        forall|i: int| 0 <= i < normalize_newlines(b).len() ==> #[trigger] normalize_newlines(b)[i] != 0x0a,
        normalize_newlines(b).len() <= b.len(),
    decreases b.len(),
{
    if b.len() > 0 {
        let head: Seq<u8> = if b[0] == 0x0d || b[0] == 0x0a {
            seq![0x0du8]
        } else {
            seq![b[0]]
        };
        let rest = if b[0] == 0x0d && b.len() >= 2 && b[1] == 0x0a {
            b.subrange(2, b.len() as int)
        } else {
            b.drop_first()
        };
        lemma_paste_has_no_line_feed(rest);
        assert(normalize_newlines(b) == head + normalize_newlines(rest));
        assert forall|i: int| 0 <= i < normalize_newlines(b).len() implies #[trigger] normalize_newlines(b)[i] != 0x0a by {
            if i > 0 {
                assert(normalize_newlines(b)[i] == normalize_newlines(rest)[i - 1]);
            }
        }
    }
}

/// xterm's modifier parameter tells the modifiers apart: different
/// modifier sets give different parameters.
pub proof fn lemma_modifier_code_distinguishes(m1: Modifiers, m2: Modifiers)
    requires
        modifier_code(m1) == modifier_code(m2),
    ensures
        m1 == m2,
{
}

/// Printable keys send nothing without Ctrl: their characters arrive as text
/// events instead.
pub proof fn lemma_plain_letters_send_nothing(key: Key, m: Modifiers, app_cursor: bool)
    requires
        letter_code(key) is Some || key == Key::Space || key == Key::Minus || key == Key::OpenBracket
            || key == Key::CloseBracket || key == Key::Backslash || key == Key::Other,
        !m.ctrl,
    ensures
        key_bytes(key, m, app_cursor) == Seq::<u8>::empty(),
{
}

/// The letter keys in alphabetical order.
pub open spec fn alphabet() -> Seq<Key> {
    seq![Key::A, Key::B, Key::C, Key::D, Key::E, Key::F, Key::G, Key::H, Key::I, Key::J, Key::K, Key::L, Key::M, Key::N, Key::O, Key::P, Key::Q, Key::R, Key::S, Key::T, Key::U, Key::V, Key::W, Key::X, Key::Y, Key::Z]
}

/// Ctrl+letter sends the letter's ASCII code minus 0x40: Ctrl+A is 1, ...,
/// Ctrl+L is 12 (form feed), ..., Ctrl+Z is 26; with Alt held too, ESC
/// comes first.
pub proof fn lemma_ctrl_letters(i: int, m: Modifiers, app_cursor: bool)
    requires
        0 <= i < 26,
        m.ctrl,
    ensures
        key_bytes(alphabet()[i], m, app_cursor) == (if m.alt {
            seq![0x1bu8]
        } else {
            Seq::<u8>::empty()
        }) + seq![(0x41 + i - 0x40) as u8],
{
    let pre: Seq<u8> = if m.alt {
        seq![0x1bu8]
    } else {
        Seq::<u8>::empty()
    };
    let k = alphabet()[i];
    assert(pre + seq![(i + 1) as u8] =~= if m.alt {
        seq![0x1bu8, (i + 1) as u8]
    } else {
        seq![(i + 1) as u8]
    });
    assert(letter_code(k) == Some((i + 1) as u8));
}

/// Ctrl with `[`, `\` or `]` sends that character's ASCII code minus 0x40
/// (ESC, FS, GS); Ctrl+Space sends NUL (as Ctrl+@) and Ctrl+- sends US (as
/// Ctrl+_), whatever else is held.
pub proof fn lemma_ctrl_punctuation(m: Modifiers, app_cursor: bool)
    requires
        m.ctrl,
    ensures
        key_bytes(Key::OpenBracket, m, app_cursor) == seq![(0x5b - 0x40) as u8],
        key_bytes(Key::Backslash, m, app_cursor) == seq![(0x5c - 0x40) as u8],
        key_bytes(Key::CloseBracket, m, app_cursor) == seq![(0x5d - 0x40) as u8],
        key_bytes(Key::Space, m, app_cursor) == seq![(0x40 - 0x40) as u8],
        key_bytes(Key::Minus, m, app_cursor) == seq![(0x5f - 0x40) as u8],
{
}

/// Typed text is sent as its UTF-8 bytes, with ESC in front exactly when
/// Alt is held without Ctrl (Meta), whatever Shift is.
pub proof fn lemma_text_bytes(t: String, m: Modifiers, app_cursor: bool, bracketed: bool)
    ensures
        m.alt && !m.ctrl ==> events_bytes(seq![InputEvent::Text(t)], m, app_cursor, bracketed)
            == seq![0x1bu8] + encode_utf8(t@),
        !(m.alt && !m.ctrl) ==> events_bytes(seq![InputEvent::Text(t)], m, app_cursor, bracketed)
            == encode_utf8(t@),
        events_bytes(seq![InputEvent::Text(t)], m, app_cursor, bracketed) == events_bytes(
            seq![InputEvent::Text(t)],
            Modifiers { shift: !m.shift, ..m },
            app_cursor,
            bracketed,
        ),
{
    let e = seq![InputEvent::Text(t)];
    let m2 = Modifiers { shift: !m.shift, ..m };
    assert(e.drop_last() =~= Seq::<InputEvent>::empty());
    assert(e.last() == InputEvent::Text(t));
    assert(e.len() == 1);
    assert(events_bytes(Seq::<InputEvent>::empty(), m, app_cursor, bracketed) == Seq::<u8>::empty());
    assert(events_bytes(Seq::<InputEvent>::empty(), m2, app_cursor, bracketed) == Seq::<u8>::empty());
    let pre: Seq<u8> = if m.alt && !m.ctrl {
        seq![0x1bu8]
    } else {
        Seq::<u8>::empty()
    };
    assert(event_bytes(InputEvent::Text(t), m, app_cursor, bracketed) == pre + encode_utf8(t@));
    assert(event_bytes(InputEvent::Text(t), m2, app_cursor, bracketed) == pre + encode_utf8(t@));
    assert(events_bytes(e, m, app_cursor, bracketed) =~= Seq::<u8>::empty() + (pre + encode_utf8(t@)));
    assert(events_bytes(e, m2, app_cursor, bracketed) =~= Seq::<u8>::empty() + (pre + encode_utf8(t@)));
    assert(Seq::<u8>::empty() + (pre + encode_utf8(t@)) =~= pre + encode_utf8(t@));
    assert(Seq::<u8>::empty() + encode_utf8(t@) =~= encode_utf8(t@));
}

fn push_decimal(out: &mut Vec<u8>, n: u8)
    ensures
        final(out)@ == old(out)@ + decimal(n as nat),
{
    let ghost o = out@;
    reveal_with_fuel(decimal, 3);
    if n >= 100 {
        out.push(0x30 + n / 100);
        out.push(0x30 + (n / 10) % 10);
        out.push(0x30 + n % 10);
        assert(decimal(n as nat) =~= seq![(0x30 + n / 100) as u8, (0x30 + (n / 10) % 10) as u8, (0x30 + n % 10) as u8]);
    } else if n >= 10 {
        out.push(0x30 + n / 10);
        out.push(0x30 + n % 10);
        assert(decimal(n as nat) =~= seq![(0x30 + n / 10) as u8, (0x30 + n % 10) as u8]);
    } else {
        out.push(0x30 + n);
    }
    assert(out@ =~= o + decimal(n as nat));
}

fn modifier_code_of(mods: Modifiers) -> (c: u8)
    ensures
        c == modifier_code(mods),
        1 <= c <= 8,
{
    1 + (if mods.shift {
        1u8
    } else {
        0u8
    }) + (if mods.alt {
        2u8
    } else {
        0u8
    }) + (if mods.ctrl {
        4u8
    } else {
        0u8
    })
}

fn csi_mod(modcode: u8, app_cursor: bool, ch: u8, mods: Modifiers) -> (r: Vec<u8>)
    requires
        modcode == modifier_code(mods),
    ensures
        r@ == cursor_key(mods, app_cursor, ch),
{
    let mut v: Vec<u8> = Vec::new();
    if modcode > 1 {
        v.push(0x1b);
        v.push(0x5b);
        v.push(0x31);
        v.push(0x3b);
        push_decimal(&mut v, modcode);
        v.push(ch);
    } else if app_cursor {
        v.push(0x1b);
        v.push(0x4f);
        v.push(ch);
    } else {
        v.push(0x1b);
        v.push(0x5b);
        v.push(ch);
    }
    assert(v@ =~= cursor_key(mods, app_cursor, ch));
    v
}

fn csi_tilde(modcode: u8, n: u8, mods: Modifiers) -> (r: Vec<u8>)
    requires
        modcode == modifier_code(mods),
    ensures
        r@ == tilde_key(mods, n as nat),
{
    let mut v: Vec<u8> = Vec::new();
    v.push(0x1b);
    v.push(0x5b);
    push_decimal(&mut v, n);
    if modcode > 1 {
        v.push(0x3b);
        push_decimal(&mut v, modcode);
    }
    v.push(0x7e);
    assert(v@ =~= tilde_key(mods, n as nat));
    v
}

fn pf(modcode: u8, ch: u8, mods: Modifiers) -> (r: Vec<u8>)
    requires
        modcode == modifier_code(mods),
    ensures
        r@ == pf_key(mods, ch),
{
    let mut v: Vec<u8> = Vec::new();
    if modcode > 1 {
        v.push(0x1b);
        v.push(0x5b);
        v.push(0x31);
        v.push(0x3b);
        push_decimal(&mut v, modcode);
        v.push(ch);
    } else {
        v.push(0x1b);
        v.push(0x4f);
        v.push(ch);
    }
    assert(v@ =~= pf_key(mods, ch));
    v
}

/// Translate a non-text key event into the byte sequence a terminal expects.
pub fn key_event_to_bytes(key: Key, mods: Modifiers, app_cursor: bool) -> (r: Vec<u8>)
    ensures
        r@ == key_bytes(key, mods, app_cursor),
{
    let modcode = modifier_code_of(mods);
    match key {
        Key::Enter => vec![0x0d],
        Key::Backspace => {
            if mods.ctrl {
                vec![0x08]
            } else {
                vec![0x7f]
            }
        },
        Key::Tab => {
            if mods.shift {
                vec![0x1b, 0x5b, 0x5a]
            } else {
                vec![0x09]
            }
        },
        Key::Escape => vec![0x1b],
        Key::ArrowUp => csi_mod(modcode, app_cursor, 0x41, mods),
        Key::ArrowDown => csi_mod(modcode, app_cursor, 0x42, mods),
        Key::ArrowRight => csi_mod(modcode, app_cursor, 0x43, mods),
        Key::ArrowLeft => csi_mod(modcode, app_cursor, 0x44, mods),
        Key::Home => csi_mod(modcode, app_cursor, 0x48, mods),
        Key::End => csi_mod(modcode, app_cursor, 0x46, mods),
        Key::PageUp => csi_tilde(modcode, 5, mods),
        Key::PageDown => csi_tilde(modcode, 6, mods),
        Key::Insert => csi_tilde(modcode, 2, mods),
        Key::Delete => csi_tilde(modcode, 3, mods),
        Key::F1 => pf(modcode, 0x50, mods),
        Key::F2 => pf(modcode, 0x51, mods),
        Key::F3 => pf(modcode, 0x52, mods),
        Key::F4 => pf(modcode, 0x53, mods),
        Key::F5 => csi_tilde(modcode, 15, mods),
        Key::F6 => csi_tilde(modcode, 17, mods),
        Key::F7 => csi_tilde(modcode, 18, mods),
        Key::F8 => csi_tilde(modcode, 19, mods),
        Key::F9 => csi_tilde(modcode, 20, mods),
        Key::F10 => csi_tilde(modcode, 21, mods),
        Key::F11 => csi_tilde(modcode, 23, mods),
        Key::F12 => csi_tilde(modcode, 24, mods),
        // Ctrl combinations. Plain printables come through text events instead.
        Key::Space if mods.ctrl => vec![0x00],
        Key::OpenBracket if mods.ctrl => vec![0x1b],
        Key::Backslash if mods.ctrl => vec![0x1c],
        Key::CloseBracket if mods.ctrl => vec![0x1d],
        Key::Minus if mods.ctrl => vec![0x1f],
        _ => {
            if mods.ctrl {
                ctrl_letter(key, mods)
            } else {
                Vec::new()
            }
        },
    }
}

fn ctrl_letter(key: Key, mods: Modifiers) -> (r: Vec<u8>)
    ensures
        r@ == ctrl_letter_bytes(key, mods),
{
    let byte: u8 = match key {
        Key::A => 1,
        Key::B => 2,
        Key::C => 3,
        Key::D => 4,
        Key::E => 5,
        Key::F => 6,
        Key::G => 7,
        Key::H => 8,
        Key::I => 9,
        Key::J => 10,
        Key::K => 11,
        Key::L => 12,
        Key::M => 13,
        Key::N => 14,
        Key::O => 15,
        Key::P => 16,
        Key::Q => 17,
        Key::R => 18,
        Key::S => 19,
        Key::T => 20,
        Key::U => 21,
        Key::V => 22,
        Key::W => 23,
        Key::X => 24,
        Key::Y => 25,
        Key::Z => 26,
        _ => {
            return Vec::new();
        },
    };
    if mods.alt {
        vec![0x1b, byte]
    } else {
        vec![byte]
    }
}

/// The bytes sent for a frame's input events, one after another.
pub open spec fn events_bytes(
    evs: Seq<InputEvent>,
    frame_mods: Modifiers,
    app_cursor: bool,
    bracketed: bool,
) -> Seq<u8>
    decreases evs.len(),
{
    if evs.len() == 0 {
        Seq::empty()
    } else {
        events_bytes(evs.drop_last(), frame_mods, app_cursor, bracketed) + event_bytes(
            evs.last(),
            frame_mods,
            app_cursor,
            bracketed,
        )
    }
}

/// Appends `b` with newlines normalized for the remote PTY.
fn push_normalized(out: &mut Vec<u8>, b: &[u8])
    ensures
        final(out)@ == old(out)@ + normalize_newlines(b@),
{
    let ghost o = out@;
    let n = b.len();
    let mut i: usize = 0;
    assert(b@.subrange(0, n as int) =~= b@);
    while i < n
        invariant
            n == b@.len(),
            i <= n,
            o + normalize_newlines(b@) == out@ + normalize_newlines(b@.subrange(i as int, n as int)),
        decreases n - i,
    {
        let ghost rest = b@.subrange(i as int, n as int);
        let ghost before = out@;
        if b[i] == 0x0d && i + 1 < n && b[i + 1] == 0x0a {
            out.push(0x0d);
            assert(rest.subrange(2, rest.len() as int) =~= b@.subrange(i + 2, n as int));
            i = i + 2;
        } else {
            if b[i] == 0x0a {
                out.push(0x0d);
            } else {
                out.push(b[i]);
            }
            assert(rest.drop_first() =~= b@.subrange(i + 1, n as int));
            i = i + 1;
        }
        assert(out@ + normalize_newlines(b@.subrange(i as int, n as int)) =~= before
            + normalize_newlines(rest));
    }
    assert(b@.subrange(n as int, n as int) =~= Seq::<u8>::empty());
    assert(out@ + Seq::<u8>::empty() =~= out@);
}

fn push_all(out: &mut Vec<u8>, b: &[u8])
    ensures
        final(out)@ == old(out)@ + b@,
{
    out.extend_from_slice(b);
    assert(out@ =~= old(out)@ + b@);
}

/// Translate a frame's input events into the bytes sent to the remote PTY.
pub fn encode_input(
    events: &Vec<InputEvent>,
    modifiers: Modifiers,
    app_cursor: bool,
    bracketed_paste: bool,
) -> (r: Vec<u8>)
    ensures
        r@ == events_bytes(events@, modifiers, app_cursor, bracketed_paste),
{
    let mut out: Vec<u8> = Vec::new();
    let n = events.len();
    let mut i: usize = 0;
    assert(events@.take(0) =~= Seq::<InputEvent>::empty());
    while i < n
        invariant
            n == events@.len(),
            i <= n,
            out@ == events_bytes(events@.take(i as int), modifiers, app_cursor, bracketed_paste),
        decreases n - i,
    {
        let ghost before = out@;
        let ev = &events[i];
        match ev {
            InputEvent::Key { key, pressed, modifiers: mods } => {
                if *pressed {
                    let bytes = key_event_to_bytes(*key, *mods, app_cursor);
                    push_all(&mut out, bytes.as_slice());
                } else {
                    assert(out@ =~= before + Seq::<u8>::empty());
                }
            },
            InputEvent::Text(t) => {
                if modifiers.alt && !modifiers.ctrl {
                    out.push(0x1b);
                } else {
                    assert(out@ =~= before + Seq::<u8>::empty());
                }
                let ghost mid = out@;
                push_all(&mut out, t.as_str().as_bytes());
                assert(out@ =~= before + (mid.subrange(before.len() as int, mid.len() as int)
                    + encode_utf8(t@)));
            },
            // The copy / cut shortcuts: keep Ctrl+C as SIGINT.
            InputEvent::Copy => out.push(0x03),
            InputEvent::Cut => out.push(0x18),
            InputEvent::Paste(p) => {
                if bracketed_paste {
                    push_all(&mut out, &[0x1b, 0x5b, 0x32, 0x30, 0x30, 0x7e]);
                    push_normalized(&mut out, p.as_str().as_bytes());
                    push_all(&mut out, &[0x1b, 0x5b, 0x32, 0x30, 0x31, 0x7e]);
                } else {
                    push_normalized(&mut out, p.as_str().as_bytes());
                }
            },
            InputEvent::Other => {
                assert(out@ =~= before + Seq::<u8>::empty());
            },
        }
        assert(events@.take(i + 1).drop_last() =~= events@.take(i as int));
        assert(out@ =~= before + event_bytes(events@[i as int], modifiers, app_cursor, bracketed_paste));
        i = i + 1;
    }
    assert(events@.take(n as int) =~= events@);
    out
}

} // verus!
