//! DEC Special Graphics (ACS) translation.
//!
//! The terminal parser ignores charset escapes (`ESC ( 0`, SO/SI), so when
//! tmux or curses apps draw lines via the alternate character set, the raw
//! ASCII bytes would show up instead ("qqqq" for a horizontal line). This
//! filter sits in front of the parser: it tracks G0/G1 charset designation and
//! shift-in/shift-out state, and rewrites graphics characters to their
//! Unicode equivalents. It is escape-sequence aware so that final bytes of
//! CSI/OSC/DCS sequences (which are also letters like 'q') are never touched.
use vstd::prelude::*;
use vstd::utf8::{decode_utf8, encode_scalar, encode_utf8, encode_utf8_decode_utf8};

verus! {

/// A character set that can be designated into G0 or G1.
#[derive(Clone, Copy, PartialEq, Eq, Debug, Structural)]
pub enum Charset {
    Ascii,
    DecGraphics,
}

/// Where the filter stands inside the escape-sequence grammar.
#[derive(Clone, Copy, PartialEq, Eq, Debug, Structural)]
pub enum ScanState {
    Ground,
    Esc,
    DesignateG0,
    DesignateG1,
    Csi,
    Osc,
    OscEsc,
    /// DCS / SOS / PM / APC — consumed until ST (ESC \).
    Str,
    StrEsc,
}

/// The mathematical model of an [`AcsFilter`].
pub struct FilterState {
    pub state: ScanState,
    pub g0: Charset,
    pub g1: Charset,
    /// true = G1 invoked (after SO), false = G0 (after SI / default)
    pub shifted: bool,
}

/// The state of a freshly created (or fully reset) filter.
pub open spec fn initial_state() -> FilterState {
    FilterState { state: ScanState::Ground, g0: Charset::Ascii, g1: Charset::Ascii, shifted: false }
}

/// The charset currently invoked into GL.
pub open spec fn active_charset(s: FilterState) -> Charset {
    if s.shifted {
        s.g1
    } else {
        s.g0
    }
}

/// The character that xterm shows for a DEC Special Graphics byte.
pub open spec fn dec_graphic_char(b: u8) -> char {
    if b == 0x5f { ' ' }  // blank
    else if b == 0x60 { '\u{25c6}' }  // ◆
    else if b == 0x61 { '\u{2592}' }  // ▒
    else if b == 0x62 { '\u{2409}' }  // ␉
    else if b == 0x63 { '\u{240c}' }  // ␌
    else if b == 0x64 { '\u{240d}' }  // ␍
    else if b == 0x65 { '\u{240a}' }  // ␊
    else if b == 0x66 { '\u{00b0}' }  // °
    else if b == 0x67 { '\u{00b1}' }  // ±
    else if b == 0x68 { '\u{2424}' }  // ␤
    else if b == 0x69 { '\u{240b}' }  // ␋
    else if b == 0x6a { '\u{2518}' }  // ┘
    else if b == 0x6b { '\u{2510}' }  // ┐
    else if b == 0x6c { '\u{250c}' }  // ┌
    else if b == 0x6d { '\u{2514}' }  // └
    else if b == 0x6e { '\u{253c}' }  // ┼
    else if b == 0x6f { '\u{23ba}' }  // ⎺
    else if b == 0x70 { '\u{23bb}' }  // ⎻
    else if b == 0x71 { '\u{2500}' }  // ─
    else if b == 0x72 { '\u{23bc}' }  // ⎼
    else if b == 0x73 { '\u{23bd}' }  // ⎽
    else if b == 0x74 { '\u{251c}' }  // ├
    else if b == 0x75 { '\u{2524}' }  // ┤
    else if b == 0x76 { '\u{2534}' }  // ┴
    else if b == 0x77 { '\u{252c}' }  // ┬
    else if b == 0x78 { '\u{2502}' }  // │
    else if b == 0x79 { '\u{2264}' }  // ≤
    else if b == 0x7a { '\u{2265}' }  // ≥
    else if b == 0x7b { '\u{03c0}' }  // π
    else if b == 0x7c { '\u{2260}' }  // ≠
    else if b == 0x7d { '\u{00a3}' }  // £
    else if b == 0x7e { '\u{00b7}' }  // ·
    else { ' ' }
}

/// The UTF-8 bytes written for a DEC Special Graphics byte.
pub open spec fn dec_graphic_bytes(b: u8) -> Seq<u8> {
    encode_scalar(dec_graphic_char(b) as u32)
}

/// Bytes that `ESC` followed by them introduces a string sequence
/// (DCS, SOS, PM, APC).
pub open spec fn is_string_introducer(b: u8) -> bool {
    b == 0x50 || b == 0x58 || b == 0x5e || b == 0x5f
}

/// The state after the filter reads one byte.
pub open spec fn step_state(s: FilterState, b: u8) -> FilterState {
    match s.state {
        ScanState::Ground => {
            if b == 0x1b {
                FilterState { state: ScanState::Esc, ..s }
            } else if b == 0x0e {
                FilterState { shifted: true, ..s }
            } else if b == 0x0f {
                FilterState { shifted: false, ..s }
            } else {
                s
            }
        },
        ScanState::Esc => {
            if b == 0x28 {
                FilterState { state: ScanState::DesignateG0, ..s }
            } else if b == 0x29 {
                FilterState { state: ScanState::DesignateG1, ..s }
            } else if b == 0x1b {
                s
            } else if b == 0x5b {
                FilterState { state: ScanState::Csi, ..s }
            } else if b == 0x5d {
                FilterState { state: ScanState::Osc, ..s }
            } else if is_string_introducer(b) {
                FilterState { state: ScanState::Str, ..s }
            } else if b == 0x63 {
                initial_state()
            } else {
                FilterState { state: ScanState::Ground, ..s }
            }
        },
        ScanState::DesignateG0 => FilterState {
            state: ScanState::Ground,
            g0: if b == 0x30 { Charset::DecGraphics } else { Charset::Ascii },
            ..s
        },
        ScanState::DesignateG1 => FilterState {
            state: ScanState::Ground,
            g1: if b == 0x30 { Charset::DecGraphics } else { Charset::Ascii },
            ..s
        },
        ScanState::Csi => {
            if 0x40 <= b <= 0x7e {
                FilterState { state: ScanState::Ground, ..s }
            } else {
                s
            }
        },
        ScanState::Osc => {
            if b == 0x07 {
                FilterState { state: ScanState::Ground, ..s }
            } else if b == 0x1b {
                FilterState { state: ScanState::OscEsc, ..s }
            } else {
                s
            }
        },
        ScanState::OscEsc => FilterState {
            state: if b == 0x5c { ScanState::Ground } else { ScanState::Osc },
            ..s
        },
        ScanState::Str => {
            if b == 0x1b {
                FilterState { state: ScanState::StrEsc, ..s }
            } else {
                s
            }
        },
        ScanState::StrEsc => FilterState {
            state: if b == 0x5c { ScanState::Ground } else { ScanState::Str },
            ..s
        },
    }
}

/// The bytes the filter writes when it reads one byte.
pub open spec fn step_output(s: FilterState, b: u8) -> Seq<u8> {
    match s.state {
        ScanState::Ground => {
            if b == 0x1b || b == 0x0e || b == 0x0f {
                Seq::empty()
            } else if 0x5f <= b <= 0x7e && active_charset(s) == Charset::DecGraphics {
                dec_graphic_bytes(b)
            } else {
                seq![b]
            }
        },
        ScanState::Esc => {
            if b == 0x28 || b == 0x29 {
                Seq::empty()
            } else if b == 0x1b {
                seq![0x1bu8]
            } else {
                seq![0x1bu8, b]
            }
        },
        ScanState::DesignateG0 => Seq::empty(),
        ScanState::DesignateG1 => Seq::empty(),
        _ => seq![b],
    }
}

/// The state after the filter reads a whole byte string.
pub open spec fn run_state(s: FilterState, input: Seq<u8>) -> FilterState
    decreases input.len(),
{
    if input.len() == 0 {
        s
    } else {
        step_state(run_state(s, input.drop_last()), input.last())
    }
}

/// Everything the filter writes while it reads a whole byte string.
pub open spec fn run_output(s: FilterState, input: Seq<u8>) -> Seq<u8>
    decreases input.len(),
{
    if input.len() == 0 {
        Seq::empty()
    } else {
        run_output(s, input.drop_last()) + step_output(
            run_state(s, input.drop_last()),
            input.last(),
        )
    }
}

/// Reading one byte as a one-byte string is the same as a single step.
pub proof fn lemma_run_single(s: FilterState, b: u8)
    ensures
        run_state(s, seq![b]) == step_state(s, b),
        run_output(s, seq![b]) == step_output(s, b),
{
    let e = Seq::<u8>::empty();
    assert(seq![b].drop_last() =~= e);
    assert(seq![b].last() == b);
    assert(run_state(s, e) == s);
    assert(run_output(s, e) == e);
    assert(e + step_output(s, b) =~= step_output(s, b));
}

/// Feeding `a` and then `b` is the same as feeding `a + b`: the state carries
/// over and the outputs concatenate. So a byte stream can be split into chunks
/// anywhere, even in the middle of an escape sequence.
pub proof fn lemma_run_concat(s: FilterState, a: Seq<u8>, b: Seq<u8>)
    ensures
        run_state(s, a + b) == run_state(run_state(s, a), b),
        run_output(s, a + b) == run_output(s, a) + run_output(run_state(s, a), b),
    decreases b.len(),
{
    if b.len() == 0 {
        assert(a + b =~= a);
        assert(run_output(s, a) + Seq::<u8>::empty() =~= run_output(s, a));
    } else {
        lemma_run_concat(s, a, b.drop_last());
        assert((a + b).drop_last() =~= a + b.drop_last());
        assert((a + b).last() == b.last());
        let mid = run_state(s, a);
        assert(run_output(s, a + b) =~= run_output(s, a) + run_output(mid, b));
    }
}

/// Whether reading `b` keeps a filter in `st` (one of the pass-through states of
/// a CSI, OSC or string sequence) inside that same sequence.
pub open spec fn continues_sequence(st: ScanState, b: u8) -> bool {
    match st {
        ScanState::Csi => !(0x40 <= b <= 0x7e),
        ScanState::Osc => b != 0x07 && b != 0x1b,
        ScanState::Str => b != 0x1b,
        _ => false,
    }
}

/// Inside a CSI, OSC or string sequence, bytes that do not end the sequence
/// are written unchanged and leave the filter where it was.
pub proof fn lemma_sequence_body_verbatim(s: FilterState, body: Seq<u8>)
    requires
        forall|i: int| 0 <= i < body.len() ==> continues_sequence(s.state, #[trigger] body[i]),
    ensures
        run_state(s, body) == s,
        run_output(s, body) == body,
    decreases body.len(),
{
    if body.len() > 0 {
        lemma_sequence_body_verbatim(s, body.drop_last());
        let b = body.last();
        assert(continues_sequence(s.state, body[body.len() - 1]));
        assert(body.drop_last() + seq![b] =~= body);
    }
}

/// A CSI sequence (`ESC [`, parameter and intermediate bytes, a final byte in
/// 0x40..=0x7e) read from the ground state is written unchanged, even when
/// the DEC graphics set is active, and leaves the filter as it was.
pub proof fn lemma_csi_untouched(s: FilterState, params: Seq<u8>, fin: u8)
    requires
        s.state == ScanState::Ground,
        forall|i: int| 0 <= i < params.len() ==> !(0x40 <= #[trigger] params[i] <= 0x7e),
        0x40 <= fin <= 0x7e,
    ensures
        ({
            let input = seq![0x1bu8, 0x5bu8] + params + seq![fin];
            run_state(s, input) == s && run_output(s, input) == input
        }),
{
    let intro = seq![0x1bu8, 0x5bu8];
    let csi = FilterState { state: ScanState::Csi, ..s };
    lemma_run_single(s, 0x1b);
    let esc = FilterState { state: ScanState::Esc, ..s };
    lemma_run_single(esc, 0x5b);
    assert(seq![0x1bu8] + seq![0x5bu8] =~= intro);
    lemma_run_concat(s, seq![0x1bu8], seq![0x5bu8]);
    assert forall|i: int| 0 <= i < params.len() implies continues_sequence(
        csi.state,
        #[trigger] params[i],
    ) by {}
    lemma_sequence_body_verbatim(csi, params);
    lemma_run_concat(s, intro, params);
    lemma_run_single(csi, fin);
    lemma_run_concat(s, intro + params, seq![fin]);
    assert(s == FilterState { state: ScanState::Ground, ..csi });
}

/// An OSC sequence (`ESC ]`, a body, BEL) read from the ground state is
/// written unchanged and leaves the filter as it was.
pub proof fn lemma_osc_untouched(s: FilterState, body: Seq<u8>)
    requires
        s.state == ScanState::Ground,
        forall|i: int| 0 <= i < body.len() ==> #[trigger] body[i] != 0x07 && body[i] != 0x1b,
    ensures
        ({
            let input = seq![0x1bu8, 0x5du8] + body + seq![0x07u8];
            run_state(s, input) == s && run_output(s, input) == input
        }),
{
    let intro = seq![0x1bu8, 0x5du8];
    let osc = FilterState { state: ScanState::Osc, ..s };
    lemma_run_single(s, 0x1b);
    let esc = FilterState { state: ScanState::Esc, ..s };
    lemma_run_single(esc, 0x5d);
    assert(seq![0x1bu8] + seq![0x5du8] =~= intro);
    lemma_run_concat(s, seq![0x1bu8], seq![0x5du8]);
    assert forall|i: int| 0 <= i < body.len() implies continues_sequence(
        osc.state,
        #[trigger] body[i],
    ) by {}
    lemma_sequence_body_verbatim(osc, body);
    lemma_run_concat(s, intro, body);
    lemma_run_single(osc, 0x07);
    lemma_run_concat(s, intro + body, seq![0x07u8]);
}

/// A DCS / SOS / PM / APC sequence (`ESC` and its introducer, a body, and the
/// string terminator `ESC \`) read from the ground state is written unchanged
/// and leaves the filter as it was.
pub proof fn lemma_string_untouched(s: FilterState, intro: u8, body: Seq<u8>)
    requires
        s.state == ScanState::Ground,
        is_string_introducer(intro),
        forall|i: int| 0 <= i < body.len() ==> #[trigger] body[i] != 0x1b,
    ensures
        ({
            let input = seq![0x1bu8, intro] + body + seq![0x1bu8, 0x5cu8];
            run_state(s, input) == s && run_output(s, input) == input
        }),
{
    let head = seq![0x1bu8, intro];
    let st = FilterState { state: ScanState::Str, ..s };
    let st_esc = FilterState { state: ScanState::StrEsc, ..s };
    lemma_run_single(s, 0x1b);
    let esc = FilterState { state: ScanState::Esc, ..s };
    lemma_run_single(esc, intro);
    assert(seq![0x1bu8] + seq![intro] =~= head);
    lemma_run_concat(s, seq![0x1bu8], seq![intro]);
    assert forall|i: int| 0 <= i < body.len() implies continues_sequence(
        st.state,
        #[trigger] body[i],
    ) by {}
    lemma_sequence_body_verbatim(st, body);
    lemma_run_concat(s, head, body);
    lemma_run_single(st, 0x1b);
    lemma_run_single(st_esc, 0x5c);
    lemma_run_concat(st, seq![0x1bu8], seq![0x5cu8]);
    assert(seq![0x1bu8] + seq![0x5cu8] =~= seq![0x1bu8, 0x5cu8]);
    lemma_run_concat(s, head + body, seq![0x1bu8, 0x5cu8]);
}

/// With the ASCII set active in the ground state, text without ESC, SO or SI
/// passes through unchanged.
pub proof fn lemma_ascii_text_passthrough(s: FilterState, text: Seq<u8>)
    requires
        s.state == ScanState::Ground,
        active_charset(s) == Charset::Ascii,
        forall|i: int|
            0 <= i < text.len() ==> #[trigger] text[i] != 0x1b && text[i] != 0x0e && text[i]
                != 0x0f,
    ensures
        run_state(s, text) == s,
        run_output(s, text) == text,
    decreases text.len(),
{
    if text.len() > 0 {
        lemma_ascii_text_passthrough(s, text.drop_last());
        let b = text.last();
        assert(text[text.len() - 1] == b);
        assert(text.drop_last() + seq![b] =~= text);
    }
}

/// The UTF-8 glyphs for a byte string, one after another.
pub open spec fn dec_graphic_text(text: Seq<u8>) -> Seq<u8>
    decreases text.len(),
{
    if text.len() == 0 {
        Seq::empty()
    } else {
        dec_graphic_text(text.drop_last()) + dec_graphic_bytes(text.last())
    }
}

/// With the DEC graphics set active in the ground state, every byte in
/// 0x5f..=0x7e is replaced by its glyph in UTF-8.
pub proof fn lemma_graphics_text_translated(s: FilterState, text: Seq<u8>)
    requires
        s.state == ScanState::Ground,
        active_charset(s) == Charset::DecGraphics,
        forall|i: int| 0 <= i < text.len() ==> 0x5f <= #[trigger] text[i] <= 0x7e,
    ensures
        run_state(s, text) == s,
        run_output(s, text) == dec_graphic_text(text),
    decreases text.len(),
{
    if text.len() > 0 {
        lemma_graphics_text_translated(s, text.drop_last());
        assert(0x5f <= text[text.len() - 1] <= 0x7e);
    }
}

/// `ESC ( F` and `ESC ) F` from the ground state are swallowed: nothing is
/// written, and G0 (respectively G1) becomes DEC graphics when F is `0`
/// and ASCII otherwise.
pub proof fn lemma_designation_swallowed(s: FilterState, which: u8, f: u8)
    requires
        s.state == ScanState::Ground,
        which == 0x28 || which == 0x29,
    ensures
        ({
            let input = seq![0x1bu8, which, f];
            let cs = if f == 0x30 { Charset::DecGraphics } else { Charset::Ascii };
            &&& run_output(s, input) == Seq::<u8>::empty()
            &&& run_state(s, input) == (if which == 0x28 {
                FilterState { g0: cs, ..s }
            } else {
                FilterState { g1: cs, ..s }
            })
        }),
{
    let esc = FilterState { state: ScanState::Esc, ..s };
    let des = step_state(esc, which);
    lemma_run_single(s, 0x1b);
    lemma_run_single(esc, which);
    lemma_run_single(des, f);
    lemma_run_concat(s, seq![0x1bu8], seq![which]);
    assert(seq![0x1bu8] + seq![which] =~= seq![0x1bu8, which]);
    lemma_run_concat(s, seq![0x1bu8, which], seq![f]);
    assert(seq![0x1bu8, which] + seq![f] =~= seq![0x1bu8, which, f]);
    assert(Seq::<u8>::empty() + Seq::<u8>::empty() =~= Seq::<u8>::empty());
}

/// SO invokes G1 and SI invokes G0; both are swallowed.
pub proof fn lemma_shift_swallowed(s: FilterState, b: u8)
    requires
        s.state == ScanState::Ground,
        b == 0x0e || b == 0x0f,
    ensures
        run_output(s, seq![b]) == Seq::<u8>::empty(),
        run_state(s, seq![b]) == (FilterState { shifted: b == 0x0e, ..s }),
{
    lemma_run_single(s, b);
}

/// `ESC c` (RIS) from the ground state is passed on to the parser and brings
/// the filter back to its initial state.
pub proof fn lemma_reset(s: FilterState)
    requires
        s.state == ScanState::Ground,
    ensures
        run_output(s, seq![0x1bu8, 0x63u8]) == seq![0x1bu8, 0x63u8],
        run_state(s, seq![0x1bu8, 0x63u8]) == initial_state(),
{
    let esc = FilterState { state: ScanState::Esc, ..s };
    lemma_run_single(s, 0x1b);
    lemma_run_single(esc, 0x63);
    lemma_run_concat(s, seq![0x1bu8], seq![0x63u8]);
    assert(seq![0x1bu8] + seq![0x63u8] =~= seq![0x1bu8, 0x63u8]);
    assert(Seq::<u8>::empty() + seq![0x1bu8, 0x63u8] =~= seq![0x1bu8, 0x63u8]);
}

/// Any other two-byte escape sequence (such as `ESC 7` and `ESC 8`, save
/// and restore cursor, or `ESC M`, reverse index) read from the ground state
/// is passed on unchanged and leaves the filter as it was: the charsets
/// designated into G0 and G1 and the shift state are kept, so graphics drawn
/// after it are still translated.
pub proof fn lemma_other_escape_untouched(s: FilterState, b: u8)
    requires
        s.state == ScanState::Ground,
        b != 0x28,
        b != 0x29,
        b != 0x1b,
        b != 0x5b,
        b != 0x5d,
        b != 0x50,
        b != 0x58,
        b != 0x5e,
        b != 0x5f,
        b != 0x63,
    ensures
        run_output(s, seq![0x1bu8, b]) == seq![0x1bu8, b],
        run_state(s, seq![0x1bu8, b]) == s,
        run_state(s, seq![0x1bu8, b]).g0 == s.g0,
        run_state(s, seq![0x1bu8, b]).g1 == s.g1,
        run_state(s, seq![0x1bu8, b]).shifted == s.shifted,
{
    let esc = FilterState { state: ScanState::Esc, ..s };
    lemma_run_single(s, 0x1b);
    lemma_run_single(esc, b);
    lemma_run_concat(s, seq![0x1bu8], seq![b]);
    assert(seq![0x1bu8] + seq![b] =~= seq![0x1bu8, b]);
    assert(Seq::<u8>::empty() + seq![0x1bu8, b] =~= seq![0x1bu8, b]);
}

/// How many times `x` occurs in `s`.
pub open spec fn count_byte(s: Seq<u8>, x: u8) -> nat
    decreases s.len(),
{
    if s.len() == 0 {
        0
    } else {
        count_byte(s.drop_last(), x) + if s.last() == x {
            1nat
        } else {
            0nat
        }
    }
}

/// One ESC that the filter has read but not yet written.
pub open spec fn pending_escapes(s: FilterState) -> nat {
    if s.state == ScanState::Esc {
        1
    } else {
        0
    }
}

proof fn lemma_count_concat(a: Seq<u8>, b: Seq<u8>, x: u8)
    ensures
        count_byte(a + b, x) == count_byte(a, x) + count_byte(b, x),
    decreases b.len(),
{
    if b.len() == 0 {
        assert(a + b =~= a);
    } else {
        lemma_count_concat(a, b.drop_last(), x);
        assert((a + b).drop_last() =~= a + b.drop_last());
    }
}

/// No glyph written for a graphics byte holds an ESC byte.
proof fn lemma_glyph_has_no_escape(b: u8)
    ensures
        count_byte(dec_graphic_bytes(b), 0x1b) == 0,
{
    let v = dec_graphic_char(b) as u32;
    assert(v == 0x20 || (0x80 <= v <= 0xffff));
    assert(forall|w: u32| #![auto] (0xC0u8 | ((w >> 6) & 0x1F) as u8) != 0x1bu8) by (bit_vector);
    assert(forall|w: u32| #![auto] (0xE0u8 | ((w >> 12) & 0x0F) as u8) != 0x1bu8) by (bit_vector);
    assert(forall|w: u32| #![auto] (0x80u8 | (w & 0x3F) as u8) != 0x1bu8) by (bit_vector);
    assert(forall|w: u32| #![auto] (0x80u8 | ((w >> 6) & 0x3F) as u8) != 0x1bu8) by (bit_vector);
    assert((0x20u32 & 0x7F) as u8 == 0x20u8) by (bit_vector);
    let bytes = encode_scalar(v);
    reveal_with_fuel(count_byte, 4);
    if v == 0x20 {
        assert(bytes == seq![0x20u8]);
    } else if v <= 0x7ff {
        assert(bytes.len() == 2);
        assert(bytes.drop_last().drop_last() =~= Seq::<u8>::empty());
    } else {
        assert(bytes.len() == 3);
        assert(bytes.drop_last().drop_last().drop_last() =~= Seq::<u8>::empty());
    }
}

proof fn lemma_step_escapes(s: FilterState, b: u8)
    ensures
        count_byte(step_output(s, b), 0x1b) + pending_escapes(step_state(s, b)) <= (if b == 0x1b {
            1nat
        } else {
            0nat
        }) + pending_escapes(s),
{
    reveal_with_fuel(count_byte, 3);
    let e = Seq::<u8>::empty();
    assert(seq![b].drop_last() =~= e);
    assert(seq![0x1bu8].drop_last() =~= e);
    assert(seq![0x1bu8, b].drop_last() =~= seq![0x1bu8]);
    if s.state == ScanState::Ground && b != 0x1b && b != 0x0e && b != 0x0f && 0x5f <= b <= 0x7e
        && active_charset(s) == Charset::DecGraphics {
        lemma_glyph_has_no_escape(b);
    }
}

/// The filter never invents an ESC: every ESC it writes is one it read. (An
/// ESC that it has read but not yet decided on is counted as pending.) So
/// rewriting graphics characters can never inject an escape sequence.
pub proof fn lemma_no_escape_injected(s: FilterState, input: Seq<u8>)
    ensures
        count_byte(run_output(s, input), 0x1b) + pending_escapes(run_state(s, input)) <= count_byte(
            input,
            0x1b,
        ) + pending_escapes(s),
    decreases input.len(),
{
    if input.len() > 0 {
        let pre = input.drop_last();
        lemma_no_escape_injected(s, pre);
        let mid = run_state(s, pre);
        lemma_step_escapes(mid, input.last());
        lemma_count_concat(run_output(s, pre), step_output(mid, input.last()), 0x1b);
    }
}

/// Each graphics byte 0x5f..=0x7e becomes the UTF-8 encoding of exactly one
/// character, other than the byte itself, in 1 to 3 bytes; different bytes
/// become different glyphs.
pub proof fn lemma_glyphs_distinct(b1: u8, b2: u8)
    requires
        0x5f <= b1 <= 0x7e,
        0x5f <= b2 <= 0x7e,
    ensures
        dec_graphic_bytes(b1) == encode_utf8(seq![dec_graphic_char(b1)]),
        dec_graphic_char(b1) as u32 != b1 as u32,
        1 <= dec_graphic_bytes(b1).len() <= 3,
        b1 != b2 ==> dec_graphic_bytes(b1) != dec_graphic_bytes(b2),
{
    reveal_with_fuel(encode_utf8, 2);
    let c1 = dec_graphic_char(b1);
    let c2 = dec_graphic_char(b2);
    assert(seq![c1].drop_first() =~= Seq::<char>::empty());
    assert(seq![c2].drop_first() =~= Seq::<char>::empty());
    assert(encode_utf8(seq![c1]) =~= dec_graphic_bytes(b1));
    assert(encode_utf8(seq![c2]) =~= dec_graphic_bytes(b2));
    assert(c1 as u32 == 0x20 || 0x80 <= c1 as u32 <= 0xffff);
    if b1 != b2 {
        assert(c1 != c2);
        if dec_graphic_bytes(b1) == dec_graphic_bytes(b2) {
            encode_utf8_decode_utf8(seq![c1]);
            encode_utf8_decode_utf8(seq![c2]);
            assert(seq![c1][0] == seq![c2][0]);
        }
    }
}

/// Escape-sequence aware DEC Special Graphics translator.
pub struct AcsFilter {
    state: ScanState,
    g0: Charset,
    g1: Charset,
    shifted: bool,
}

impl View for AcsFilter {
    type V = FilterState;

    closed spec fn view(&self) -> FilterState {
        FilterState { state: self.state, g0: self.g0, g1: self.g1, shifted: self.shifted }
    }
}

impl AcsFilter {
    pub fn new() -> (r: Self)
        ensures
            r@ == initial_state(),
    {
        AcsFilter {
            state: ScanState::Ground,
            g0: Charset::Ascii,
            g1: Charset::Ascii,
            shifted: false,
        }
    }

    fn active(&self) -> (c: Charset)
        ensures
            c == active_charset(self@),
    {
        if self.shifted {
            self.g1
        } else {
            self.g0
        }
    }

    /// Reads one byte, appending what the parser should see to `out`.
    fn step(&mut self, b: u8, out: &mut Vec<u8>)
        ensures
            final(self)@ == step_state(old(self)@, b),
            final(out)@ == old(out)@ + step_output(old(self)@, b),
    {
        let ghost out0 = out@;
        match self.state {
            ScanState::Ground => {
                if b == 0x1b {
                    // Don't emit yet — if this turns out to be a charset
                    // designation we consume the whole sequence.
                    self.state = ScanState::Esc;
                    assert(out@ == out0 + Seq::<u8>::empty());
                } else if b == 0x0e {
                    // SO: invoke G1. Swallowed — the parser no-ops it anyway.
                    self.shifted = true;
                    assert(out@ == out0 + Seq::<u8>::empty());
                } else if b == 0x0f {
                    // SI: invoke G0.
                    self.shifted = false;
                    assert(out@ == out0 + Seq::<u8>::empty());
                } else if 0x5f <= b && b <= 0x7e && self.active() == Charset::DecGraphics {
                    let g = dec_graphic(b);
                    out.extend_from_slice(g);
                    assert(out@ == out0 + g@);
                } else {
                    out.push(b);
                }
            },
            ScanState::Esc => {
                if b == 0x28 {
                    self.state = ScanState::DesignateG0;
                    assert(out@ == out0 + Seq::<u8>::empty());
                } else if b == 0x29 {
                    self.state = ScanState::DesignateG1;
                    assert(out@ == out0 + Seq::<u8>::empty());
                } else if b == 0x1b {
                    // ESC ESC: emit the first, stay in Esc for the second.
                    out.push(0x1b);
                } else {
                    if b == 0x5b {
                        self.state = ScanState::Csi;
                    } else if b == 0x5d {
                        self.state = ScanState::Osc;
                    } else if b == 0x50 || b == 0x58 || b == 0x5e || b == 0x5f {
                        self.state = ScanState::Str;
                    } else if b == 0x63 {
                        // RIS: full reset, charsets included.
                        self.g0 = Charset::Ascii;
                        self.g1 = Charset::Ascii;
                        self.shifted = false;
                        self.state = ScanState::Ground;
                    } else {
                        self.state = ScanState::Ground;
                    }
                    out.push(0x1b);
                    out.push(b);
                    assert(out@ == out0 + seq![0x1bu8, b]);
                }
            },
            ScanState::DesignateG0 => {
                self.g0 = if b == 0x30 {
                    Charset::DecGraphics
                } else {
                    Charset::Ascii
                };
                self.state = ScanState::Ground;
                assert(out@ == out0 + Seq::<u8>::empty());
            },
            ScanState::DesignateG1 => {
                self.g1 = if b == 0x30 {
                    Charset::DecGraphics
                } else {
                    Charset::Ascii
                };
                self.state = ScanState::Ground;
                assert(out@ == out0 + Seq::<u8>::empty());
            },
            ScanState::Csi => {
                out.push(b);
                // Parameter/intermediate bytes 0x20..=0x3f continue; a
                // final byte 0x40..=0x7e ends the sequence.
                if 0x40 <= b && b <= 0x7e {
                    self.state = ScanState::Ground;
                }
            },
            ScanState::Osc => {
                out.push(b);
                if b == 0x07 {
                    self.state = ScanState::Ground;
                } else if b == 0x1b {
                    self.state = ScanState::OscEsc;
                }
            },
            ScanState::OscEsc => {
                out.push(b);
                self.state = if b == 0x5c {
                    ScanState::Ground
                } else {
                    ScanState::Osc
                };
            },
            ScanState::Str => {
                out.push(b);
                if b == 0x1b {
                    self.state = ScanState::StrEsc;
                }
            },
            ScanState::StrEsc => {
                out.push(b);
                self.state = if b == 0x5c {
                    ScanState::Ground
                } else {
                    ScanState::Str
                };
            },
        }
    }

    /// Translate `input`, appending parser-ready bytes to `out`.
    pub fn feed(&mut self, input: &[u8], out: &mut Vec<u8>)
        ensures
            final(self)@ == run_state(old(self)@, input@),
            final(out)@ == old(out)@ + run_output(old(self)@, input@),
    {
        let ghost s0 = self@;
        let ghost out0 = out@;
        let n = input.len();
        let mut i: usize = 0;
        assert(input@.take(0) =~= Seq::<u8>::empty());
        while i < n
            invariant
                n == input@.len(),
                i <= n,
                self@ == run_state(s0, input@.take(i as int)),
                out@ == out0 + run_output(s0, input@.take(i as int)),
            decreases n - i,
        {
            let ghost pre = input@.take(i as int);
            let ghost next = input@.take(i + 1);
            assert(next.drop_last() =~= pre);
            assert(next.last() == input@[i as int]);
            self.step(input[i], out);
            assert(out@ =~= out0 + run_output(s0, next));
            i = i + 1;
        }
        assert(input@.take(n as int) =~= input@);
    }
}

/// VT100 special graphics → Unicode (xterm's mapping), as UTF-8.
fn dec_graphic(b: u8) -> (r: &'static [u8])
    ensures
        r@ == dec_graphic_bytes(b),
{
    proof {
        reveal_with_fuel(vstd::utf8::encode_utf8, 2);
    }
    match b {
        0x5f => {
            proof { reveal_strlit(" "); }
            " ".as_bytes()
        },
        0x60 => {
            proof { reveal_strlit("\u{25c6}"); }
            "\u{25c6}".as_bytes()
        },
        0x61 => {
            proof { reveal_strlit("\u{2592}"); }
            "\u{2592}".as_bytes()
        },
        0x62 => {
            proof { reveal_strlit("\u{2409}"); }
            "\u{2409}".as_bytes()
        },
        0x63 => {
            proof { reveal_strlit("\u{240c}"); }
            "\u{240c}".as_bytes()
        },
        0x64 => {
            proof { reveal_strlit("\u{240d}"); }
            "\u{240d}".as_bytes()
        },
        0x65 => {
            proof { reveal_strlit("\u{240a}"); }
            "\u{240a}".as_bytes()
        },
        0x66 => {
            proof { reveal_strlit("\u{00b0}"); }
            "\u{00b0}".as_bytes()
        },
        0x67 => {
            proof { reveal_strlit("\u{00b1}"); }
            "\u{00b1}".as_bytes()
        },
        0x68 => {
            proof { reveal_strlit("\u{2424}"); }
            "\u{2424}".as_bytes()
        },
        0x69 => {
            proof { reveal_strlit("\u{240b}"); }
            "\u{240b}".as_bytes()
        },
        0x6a => {
            proof { reveal_strlit("\u{2518}"); }
            "\u{2518}".as_bytes()
        },
        0x6b => {
            proof { reveal_strlit("\u{2510}"); }
            "\u{2510}".as_bytes()
        },
        0x6c => {
            proof { reveal_strlit("\u{250c}"); }
            "\u{250c}".as_bytes()
        },
        0x6d => {
            proof { reveal_strlit("\u{2514}"); }
            "\u{2514}".as_bytes()
        },
        0x6e => {
            proof { reveal_strlit("\u{253c}"); }
            "\u{253c}".as_bytes()
        },
        0x6f => {
            proof { reveal_strlit("\u{23ba}"); }
            "\u{23ba}".as_bytes()
        },
        0x70 => {
            proof { reveal_strlit("\u{23bb}"); }
            "\u{23bb}".as_bytes()
        },
        0x71 => {
            proof { reveal_strlit("\u{2500}"); }
            "\u{2500}".as_bytes()
        },
        0x72 => {
            proof { reveal_strlit("\u{23bc}"); }
            "\u{23bc}".as_bytes()
        },
        0x73 => {
            proof { reveal_strlit("\u{23bd}"); }
            "\u{23bd}".as_bytes()
        },
        0x74 => {
            proof { reveal_strlit("\u{251c}"); }
            "\u{251c}".as_bytes()
        },
        0x75 => {
            proof { reveal_strlit("\u{2524}"); }
            "\u{2524}".as_bytes()
        },
        0x76 => {
            proof { reveal_strlit("\u{2534}"); }
            "\u{2534}".as_bytes()
        },
        0x77 => {
            proof { reveal_strlit("\u{252c}"); }
            "\u{252c}".as_bytes()
        },
        0x78 => {
            proof { reveal_strlit("\u{2502}"); }
            "\u{2502}".as_bytes()
        },
        0x79 => {
            proof { reveal_strlit("\u{2264}"); }
            "\u{2264}".as_bytes()
        },
        0x7a => {
            proof { reveal_strlit("\u{2265}"); }
            "\u{2265}".as_bytes()
        },
        0x7b => {
            proof { reveal_strlit("\u{03c0}"); }
            "\u{03c0}".as_bytes()
        },
        0x7c => {
            proof { reveal_strlit("\u{2260}"); }
            "\u{2260}".as_bytes()
        },
        0x7d => {
            proof { reveal_strlit("\u{00a3}"); }
            "\u{00a3}".as_bytes()
        },
        0x7e => {
            proof { reveal_strlit("\u{00b7}"); }
            "\u{00b7}".as_bytes()
        },
        _ => {
            // 0x5f..=0x7e is fully covered above; unreachable, but stay safe.
            proof { reveal_strlit(" "); }
            " ".as_bytes()
        },
    }
}

} // verus!
