//! Colours of a theme.

use forgetty::renderer::color::{ColorScheme, Rgba, Theme};
use forgetty::vt::Color;

#[test]
fn test_resolve_fg_default() {
    let scheme = ColorScheme::default();
    assert_eq!(scheme.resolve_fg(Color::Default), [205, 214, 244, 255]);
}

#[test]
fn test_resolve_bg_default() {
    let scheme = ColorScheme::default();
    assert_eq!(scheme.resolve_bg(Color::Default), [40, 40, 40, 255]);
}

#[test]
fn test_resolve_fg_rgb() {
    let scheme = ColorScheme::default();
    assert_eq!(scheme.resolve_fg(Color::Rgb(100, 200, 50)), [100, 200, 50, 255]);
}

#[test]
fn test_resolve_bg_rgb() {
    let scheme = ColorScheme::default();
    assert_eq!(scheme.resolve_bg(Color::Rgb(100, 200, 50)), [100, 200, 50, 255]);
}

#[test]
fn a_theme_gives_its_colours() {
    let colour = |n: u8| Rgba { r: n, g: n + 1, b: n + 2, a: 200 };
    let mut ansi = [colour(0); 16];
    for i in 0..16u8 {
        ansi[i as usize] = colour(i);
    }
    let scheme = ColorScheme::from_theme(&Theme {
        foreground: colour(20),
        background: colour(30),
        cursor: colour(40),
        selection: colour(50),
        ansi_colors: ansi,
    });
    assert_eq!(scheme.resolve_fg(Color::Default), [20, 21, 22, 200]);
    assert_eq!(scheme.resolve_bg(Color::Default), [30, 31, 32, 200]);
    assert_eq!(scheme.cursor, [40, 41, 42, 200]);
    assert_eq!(scheme.selection, [50, 51, 52, 200]);
    assert_eq!(scheme.ansi[0], [0, 1, 2, 200]);
    assert_eq!(scheme.ansi[15], [15, 16, 17, 200]);
}
