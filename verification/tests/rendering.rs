use tview::grid::Color;
use tview::screen::{sgr, vt_color, Canvas, DEFAULT};

#[test]
fn sgr_default_style_is_reset_only() {
    assert_eq!(sgr(DEFAULT, DEFAULT, false, false, false, false), "\x1b[0m");
}

#[test]
fn sgr_lists_every_attribute_in_order() {
    assert_eq!(sgr(1, 2, true, true, true, true), "\x1b[0;38;5;1;48;5;2;1;3;4;7m");
    assert_eq!(sgr(196, DEFAULT, false, true, false, false), "\x1b[0;38;5;196;4m");
    assert_eq!(sgr(DEFAULT, 0, false, false, true, false), "\x1b[0;48;5;0;7m");
}

#[test]
fn vt_color_maps_indices_and_default() {
    assert_eq!(vt_color(Color::Default), 255);
    assert_eq!(vt_color(Color::Idx(7)), 7);
    assert_eq!(vt_color(Color::Idx(255)), 255);
}

#[test]
fn vt_color_maps_rgb_to_nearest_palette_entry() {
    assert_eq!(vt_color(Color::Rgb(255, 0, 0)), 196);
    assert_eq!(vt_color(Color::Rgb(0, 0, 0)), 232);
    assert_eq!(vt_color(Color::Rgb(8, 8, 8)), 232);
    assert_eq!(vt_color(Color::Rgb(128, 128, 128)), 102);
    assert_eq!(vt_color(Color::Rgb(255, 255, 255)), 255);
    assert_eq!(vt_color(Color::Rgb(0, 128, 255)), 33);
    assert_eq!(vt_color(Color::Rgb(30, 30, 30)), 16);
}

#[test]
fn fresh_canvas_flush_writes_nothing() {
    let mut c = Canvas::new(3, 4);
    assert!(c.flush().is_empty());
}

#[test]
fn flush_writes_only_changed_rows_with_style_runs() {
    let mut c = Canvas::new(2, 3);
    c.set_cell(0, 1, "a", 1, DEFAULT, false, false, false, false);
    let out = c.flush();
    assert_eq!(out, b"\x1b[0m\x1b[1;1H \x1b[0;38;5;1ma\x1b[0m \x1b[0m".to_vec());
}

#[test]
fn flush_moves_to_each_changed_row() {
    let mut c = Canvas::new(3, 2);
    c.set_cell(0, 0, "x", DEFAULT, DEFAULT, false, false, false, false);
    c.set_cell(2, 1, "y", DEFAULT, DEFAULT, true, false, false, false);
    let out = c.flush();
    assert_eq!(out, b"\x1b[0m\x1b[1;1Hx \x1b[3;1H \x1b[0;1my\x1b[0m".to_vec());
}

#[test]
fn redrawing_the_same_frame_writes_nothing() {
    let mut c = Canvas::new(2, 2);
    c.set_cell(1, 1, "z", 3, 4, false, false, false, false);
    assert!(!c.flush().is_empty());
    // The frame just drawn is now the previous one; drawing it again is free.
    c.clear();
    c.set_cell(1, 1, "z", 3, 4, false, false, false, false);
    assert!(c.flush().is_empty());
}

#[test]
fn empty_text_is_stored_as_a_space() {
    let mut c = Canvas::new(1, 1);
    c.set_cell(0, 0, "", DEFAULT, DEFAULT, false, false, false, false);
    assert_eq!(c.cells[0].ch, " ");
    // A space in the default style differs from the blank cell.
    assert_eq!(c.flush(), b"\x1b[0m\x1b[1;1H \x1b[0m".to_vec());
}

#[test]
fn park_cursor_bytes() {
    let c = Canvas::new(5, 5);
    assert_eq!(c.park_cursor(2, 3, true), b"\x1b[?25h\x1b[3;4H".to_vec());
    assert_eq!(c.park_cursor(0, 0, false), b"\x1b[?25l\x1b[1;1H".to_vec());
}

#[test]
fn resize_resets_to_blank() {
    let mut c = Canvas::new(1, 2);
    c.set_cell(0, 0, "q", DEFAULT, DEFAULT, false, false, false, false);
    c.resize(2, 3);
    assert_eq!(c.rows, 2);
    assert_eq!(c.cols, 3);
    assert_eq!(c.cells.len(), 6);
    assert!(c.flush().is_empty());
}
