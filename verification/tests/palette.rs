use tmuxmux_mobile::colors::{convert_bg, convert_fg, default_bg, default_fg, xterm_256, Rgb, TermColor};

fn rgb(r: u8, g: u8, b: u8) -> Rgb {
    Rgb { r, g, b }
}

#[test]
fn ansi_colors() {
    assert_eq!(xterm_256(0), rgb(0, 0, 0));
    assert_eq!(xterm_256(1), rgb(205, 0, 0));
    assert_eq!(xterm_256(4), rgb(60, 110, 230));
    assert_eq!(xterm_256(7), rgb(229, 229, 229));
    assert_eq!(xterm_256(8), rgb(127, 127, 127));
    assert_eq!(xterm_256(12), rgb(92, 92, 255));
    assert_eq!(xterm_256(15), rgb(255, 255, 255));
}

#[test]
fn color_cube() {
    assert_eq!(xterm_256(16), rgb(0, 0, 0));
    assert_eq!(xterm_256(21), rgb(0, 0, 255));
    assert_eq!(xterm_256(100), rgb(135, 135, 0));
    assert_eq!(xterm_256(196), rgb(255, 0, 0));
    assert_eq!(xterm_256(231), rgb(255, 255, 255));
    assert_eq!(xterm_256(17), rgb(0, 0, 95));
}

#[test]
fn gray_ramp() {
    assert_eq!(xterm_256(232), rgb(8, 8, 8));
    assert_eq!(xterm_256(244), rgb(128, 128, 128));
    assert_eq!(xterm_256(255), rgb(238, 238, 238));
}

#[test]
fn default_means_different_things() {
    assert_eq!(convert_fg(TermColor::Default, false), rgb(0xd8, 0xd8, 0xd8));
    assert_eq!(convert_fg(TermColor::Default, false), default_fg());
    assert_eq!(convert_bg(TermColor::Default), rgb(0, 0, 0));
    assert_eq!(convert_bg(TermColor::Default), default_bg());
    assert_ne!(convert_fg(TermColor::Default, false), convert_bg(TermColor::Default));
    assert_eq!(convert_fg(TermColor::Default, true), rgb(255, 255, 255));
}

#[test]
fn bold_brightens_basic_colors() {
    assert_eq!(convert_fg(TermColor::Idx(1), true), rgb(255, 0, 0));
    assert_eq!(convert_fg(TermColor::Idx(1), false), rgb(205, 0, 0));
    assert_eq!(convert_fg(TermColor::Idx(9), true), rgb(255, 0, 0));
    assert_eq!(convert_fg(TermColor::Idx(100), true), rgb(135, 135, 0));
    assert_eq!(convert_bg(TermColor::Idx(1)), rgb(205, 0, 0));
}

#[test]
fn rgb_colors_pass_through() {
    assert_eq!(convert_fg(TermColor::Rgb(1, 2, 3), true), rgb(1, 2, 3));
    assert_eq!(convert_bg(TermColor::Rgb(4, 5, 6)), rgb(4, 5, 6));
}
