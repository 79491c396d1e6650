use tview::app::{blit_cell, App, Env};
use tview::grid::{Color, ScreenSnap, VtCell};
use tview::input::Event;
use tview::selection::Sel;
use tview::taskbar::{BLACK, GRAY, GRAY_DARK, RED, WHITE};

fn cell(s: &str) -> VtCell {
    VtCell {
        contents: s.to_string(),
        wide_continuation: false,
        fg: Color::Default,
        bg: Color::Default,
        bold: false,
        italic: false,
        underline: false,
        inverse: false,
    }
}

fn screen(text: &str, cursor: (u16, u16), hide: bool) -> ScreenSnap {
    let cells: Vec<VtCell> = text.chars().map(|c| cell(&c.to_string())).collect();
    ScreenSnap {
        rows: 1,
        cols: cells.len() as u16,
        cells,
        wrapped: vec![false],
        cursor,
        hide_cursor: hide,
        application_cursor: false,
        bracketed_paste: false,
    }
}

fn one_tab() -> App {
    let mut a = App::new(25, 80, false);
    a.new_session();
    a.take_effects();
    a.spawned(true);
    a
}

fn env(scr: ScreenSnap, total: usize) -> Env {
    Env { screen: scr, scrollback_len: total, shift: false }
}

#[test]
fn blit_of_missing_cell_is_a_default_space() {
    let s = Sel::new();
    let k = blit_cell(&s, 0, 0, None);
    assert_eq!(k, (" ".to_string(), 255, 255, false, false, false, false));
}

#[test]
fn blit_maps_colours_and_flips_inverse_inside_selection() {
    let mut c = cell("Q");
    c.fg = Color::Idx(3);
    c.bg = Color::Rgb(255, 0, 0);
    c.bold = true;
    c.inverse = true;
    let mut s = Sel::new();
    assert_eq!(blit_cell(&s, 0, 0, Some(&c)), ("Q".to_string(), 3, 196, true, false, true, false));
    s.press(0, 0);
    assert_eq!(blit_cell(&s, 0, 0, Some(&c)), ("Q".to_string(), 3, 196, true, false, false, false));
    let mut w = cell("x");
    w.wide_continuation = true;
    assert_eq!(blit_cell(&s, 5, 5, Some(&w)).0, "");
}

#[test]
fn selected_cells_are_drawn_inverted() {
    let mut a = one_tab();
    let scr = screen("hello", (0, 0), false);
    a.on_event(Event::MousePress { col: 1, row: 0 }, &env(screen("hello", (0, 0), false), 0));
    a.on_event(Event::MouseRelease { col: 3, row: 0 }, &env(screen("hello", (0, 0), false), 0));
    a.render(&scr, &vec!["sh".to_string()], "", None, false);
    let inv: Vec<bool> = (0..6).map(|c| a.canvas.prev[c].inverse).collect();
    assert_eq!(inv, vec![false, true, true, true, false, false]);
}

#[test]
fn start_menu_popup_is_drawn_above_the_bar() {
    let mut a = one_tab();
    a.open_menu(None);
    a.render(&ScreenSnap::empty(), &vec!["sh".to_string()], "", None, false);
    let row = |r: usize| -> String { (0..14).map(|c| a.canvas.prev[r * 80 + c].ch.clone()).collect() };
    assert_eq!(row(22), " New tab      ");
    assert_eq!(row(23), " Exit         ");
    let sel = &a.canvas.prev[22 * 80 + 1];
    assert_eq!((sel.fg, sel.bg, sel.bold), (WHITE, GRAY_DARK, true));
    let other = &a.canvas.prev[23 * 80 + 1];
    assert_eq!((other.fg, other.bg, other.bold), (BLACK, GRAY, false));
    // The menu is 14 columns wide: the view shows through to its right.
    assert_eq!(a.canvas.prev[22 * 80 + 14].ch, " ");
    assert_eq!(a.canvas.prev[22 * 80 + 14].bg, 255);
}

#[test]
fn toast_is_white_on_red_at_the_right_of_the_bar() {
    let mut a = one_tab();
    a.set_toast("ok".to_string());
    a.render(&ScreenSnap::empty(), &vec!["sh".to_string()], "", None, false);
    let c = &a.canvas.prev[24 * 80 + 76];
    assert_eq!(c.ch, "o");
    assert_eq!((c.fg, c.bg, c.bold), (WHITE, RED, true));
    assert_eq!(a.canvas.prev[24 * 80 + 75].ch, " ");
    assert_eq!(a.canvas.prev[24 * 80 + 75].bg, RED);
}

#[test]
fn cursor_is_clamped_and_hidden_as_the_program_asks() {
    let mut a = one_tab();
    let out = a.render(&screen("ab", (0, 200), true), &vec!["sh".to_string()], "", None, false);
    assert!(out.ends_with(b"\x1b[?25l\x1b[1;80H"));
}

#[test]
fn cursor_is_hidden_while_scrolled_back() {
    let mut a = one_tab();
    a.on_event(Event::PageUp, &env(ScreenSnap::empty(), 50));
    let out = a.render(&screen("ab", (0, 1), false), &vec!["sh".to_string()], "", None, false);
    assert!(out.ends_with(b"\x1b[?25l\x1b[1;1H"));
}

#[test]
fn cursor_follows_the_selection_caret() {
    let mut a = one_tab();
    let scr = screen("abcdef", (0, 4), false);
    a.on_event(Event::AltByte(b's'), &env(screen("abcdef", (0, 4), false), 0));
    a.on_event(Event::End, &env(screen("abcdef", (0, 4), false), 0));
    let out = a.render(&scr, &vec!["sh".to_string()], "", None, false);
    assert!(out.ends_with(b"\x1b[?25h\x1b[1;80H"));
}

#[test]
fn cursor_without_tabs_is_shown_at_home() {
    let mut a = App::new(10, 20, false);
    let out = a.render(&ScreenSnap::empty(), &vec![], "", None, false);
    assert!(out.ends_with(b"\x1b[?25h\x1b[1;1H"));
}
