use tmuxmux_mobile::acs::AcsFilter;

fn feed_all(f: &mut AcsFilter, input: &[u8]) -> Vec<u8> {
    let mut out = Vec::new();
    f.feed(input, &mut out);
    out
}

#[test]
fn plain_text_passes_through() {
    let mut f = AcsFilter::new();
    assert_eq!(feed_all(&mut f, b"hello qqq world\r\n"), b"hello qqq world\r\n".to_vec());
}

#[test]
fn designated_g0_graphics_are_translated() {
    let mut f = AcsFilter::new();
    // ESC ( 0 selects DEC graphics into G0: "lqk" is a box top.
    let out = feed_all(&mut f, b"\x1b(0lqk\x1b(Bq");
    assert_eq!(out, "┌─┐q".as_bytes().to_vec());
}

#[test]
fn shift_out_invokes_g1() {
    let mut f = AcsFilter::new();
    let out = feed_all(&mut f, b"\x1b)0x\x0ex\x0fx");
    assert_eq!(out, "x│x".as_bytes().to_vec());
}

#[test]
fn csi_final_bytes_are_untouched() {
    let mut f = AcsFilter::new();
    // With graphics active, the 'm' and 'q' finals of CSI sequences stay.
    let out = feed_all(&mut f, b"\x1b(0\x1b[1;31m\x1b[2 qq");
    let mut expected = b"\x1b[1;31m\x1b[2 q".to_vec();
    expected.extend_from_slice("─".as_bytes());
    assert_eq!(out, expected);
}

#[test]
fn osc_and_dcs_are_untouched() {
    let mut f = AcsFilter::new();
    let out = feed_all(&mut f, b"\x1b(0\x1b]0;title q\x07\x1bPqq\x1b\\q");
    let mut expected = b"\x1b]0;title q\x07\x1bPqq\x1b\\".to_vec();
    expected.extend_from_slice("─".as_bytes());
    assert_eq!(out, expected);
}

#[test]
fn osc_terminated_by_st() {
    let mut f = AcsFilter::new();
    let out = feed_all(&mut f, b"\x1b(0\x1b]2;x\x1b\\j");
    let mut expected = b"\x1b]2;x\x1b\\".to_vec();
    expected.extend_from_slice("┘".as_bytes());
    assert_eq!(out, expected);
}

#[test]
fn reset_restores_ascii() {
    let mut f = AcsFilter::new();
    let out = feed_all(&mut f, b"\x1b(0q\x1bcq");
    let mut expected = "─".as_bytes().to_vec();
    expected.extend_from_slice(b"\x1bcq");
    assert_eq!(out, expected);
}

#[test]
fn double_escape_emits_first() {
    let mut f = AcsFilter::new();
    let out = feed_all(&mut f, b"\x1b\x1b[A");
    assert_eq!(out, b"\x1b\x1b[A".to_vec());
}

#[test]
fn split_feed_matches_whole_feed() {
    let input: &[u8] = b"a\x1b(0lq\x1b[3\x1b(B1mkq\x1b]0;t\x07x";
    let mut whole = AcsFilter::new();
    let expected = feed_all(&mut whole, input);
    for cut in 0..=input.len() {
        let mut f = AcsFilter::new();
        let mut out = Vec::new();
        f.feed(&input[..cut], &mut out);
        f.feed(&input[cut..], &mut out);
        assert_eq!(out, expected, "cut at {}", cut);
    }
}

#[test]
fn every_graphic_byte_maps_to_xterm_glyph() {
    let glyphs = " ◆▒␉␌␍␊°±␤␋┘┐┌└┼⎺⎻─⎼⎽├┤┴┬│≤≥π≠£·";
    for (i, ch) in glyphs.chars().enumerate() {
        let b = 0x5f + i as u8;
        let mut f = AcsFilter::new();
        let out = feed_all(&mut f, &[0x1b, b'(', b'0', b]);
        let mut buf = [0u8; 4];
        assert_eq!(out, ch.encode_utf8(&mut buf).as_bytes().to_vec(), "byte {:#x}", b);
    }
}

#[test]
fn translation_never_adds_escapes() {
    let mut f = AcsFilter::new();
    let input: Vec<u8> = b"\x1b(0".iter().copied().chain(0x20u8..0x7f).collect();
    let out = feed_all(&mut f, &input);
    let esc_in = input.iter().filter(|&&b| b == 0x1b).count();
    let esc_out = out.iter().filter(|&&b| b == 0x1b).count();
    assert!(esc_out <= esc_in);
    assert_eq!(esc_out, 0);
}

#[test]
fn designation_is_swallowed() {
    let mut f = AcsFilter::new();
    assert_eq!(feed_all(&mut f, b"\x1b(0"), Vec::<u8>::new());
    assert_eq!(feed_all(&mut f, b"\x1b(B"), Vec::<u8>::new());
    assert_eq!(feed_all(&mut f, b"q"), b"q".to_vec());
}

#[test]
fn empty_input_writes_nothing() {
    let mut f = AcsFilter::new();
    assert_eq!(feed_all(&mut f, b""), Vec::<u8>::new());
    // A lone ESC is held back until the next byte decides what it is.
    assert_eq!(feed_all(&mut f, b"\x1b"), Vec::<u8>::new());
    assert_eq!(feed_all(&mut f, b"M"), b"\x1bM".to_vec());
}

#[test]
fn string_sequences_sos_pm_apc() {
    for intro in [b'X', b'^', b'_'] {
        let mut f = AcsFilter::new();
        let input = [0x1b, b'(', b'0', 0x1b, intro, b'q', 0x1b, b'\\', b'q'];
        let mut expected = vec![0x1b, intro, b'q', 0x1b, b'\\'];
        expected.extend_from_slice("─".as_bytes());
        assert_eq!(feed_all(&mut f, &input), expected);
    }
}

#[test]
fn graphic_glyphs_are_distinct_single_chars() {
    let mut seen: Vec<Vec<u8>> = Vec::new();
    for b in 0x5fu8..=0x7e {
        let mut f = AcsFilter::new();
        let out = feed_all(&mut f, &[0x1b, b'(', b'0', b]);
        let s = std::str::from_utf8(&out).unwrap();
        assert_eq!(s.chars().count(), 1);
        assert!((1..=3).contains(&out.len()));
        assert_ne!(s.chars().next().unwrap() as u32, b as u32);
        assert!(!seen.contains(&out));
        seen.push(out);
    }
}
