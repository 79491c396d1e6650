use std::num::NonZeroU16;
use tview::battery::{battery_dir, Battery};
use tview::console::{is_console, shift_held};
use tview::emulator::{resize, set_scroll, snapshot, total_scroll, SCROLLBACK_LEN};
use tview::grid::Color;
use tview::selection::Sel;

fn parser(rows: u16, cols: u16) -> vt100::Parser {
    vt100::Parser::new(NonZeroU16::new(rows).unwrap(), NonZeroU16::new(cols).unwrap(), SCROLLBACK_LEN)
}

fn text_at(p: &vt100::Parser, r: usize, c: usize) -> String {
    let s = snapshot(p.screen());
    s.cells[r * s.cols as usize + c].contents.clone()
}

#[test]
fn snapshot_reads_cells_cursor_and_size() {
    let mut p = parser(3, 10);
    p.process(b"hi\r\nthere");
    let s = snapshot(p.screen());
    assert_eq!((s.rows, s.cols), (3, 10));
    assert_eq!(s.cells.len(), 30);
    assert_eq!(s.wrapped.len(), 3);
    assert_eq!(s.cells[0].contents, "h");
    assert_eq!(s.cells[10].contents, "t");
    assert_eq!(s.cells[2].contents, "");
    assert_eq!(s.cursor, (1, 5));
    assert!(!s.hide_cursor && !s.application_cursor && !s.bracketed_paste);
}

#[test]
fn snapshot_reads_colours_and_attributes() {
    let mut p = parser(2, 10);
    p.process(b"\x1b[31;1mR\x1b[0m\x1b[38;2;1;2;3;44;3;4;7mX\x1b[0mn");
    let s = snapshot(p.screen());
    assert_eq!(s.cells[0].fg, Color::Idx(1));
    assert!(s.cells[0].bold);
    assert_eq!(s.cells[1].fg, Color::Rgb(1, 2, 3));
    assert_eq!(s.cells[1].bg, Color::Idx(4));
    assert!(s.cells[1].italic && s.cells[1].underline && s.cells[1].inverse);
    assert_eq!(s.cells[2].fg, Color::Default);
    assert!(!s.cells[2].bold);
}

#[test]
fn snapshot_reads_modes_wraps_and_wide_cells() {
    let mut p = parser(2, 4);
    p.process(b"\x1b[?2004h\x1b[?1h\x1b[?25labcdef");
    let s = snapshot(p.screen());
    assert!(s.bracketed_paste && s.application_cursor && s.hide_cursor);
    assert!(s.wrapped[0]);
    assert!(!s.wrapped[1]);
    let mut q = parser(1, 4);
    q.process("世".as_bytes());
    let t = snapshot(q.screen());
    assert_eq!(t.cells[0].contents, "世");
    assert!(t.cells[1].wide_continuation);
}

#[test]
fn scrollback_view_is_clamped_to_what_is_held() {
    let mut p = parser(3, 10);
    p.process(b"a\r\nb\r\nc\r\nd\r\ne");
    assert_eq!(total_scroll(p.screen_mut(), 0), 2);
    assert_eq!(text_at(&p, 0, 0), "c");
    assert_eq!(set_scroll(p.screen_mut(), 5), 2);
    assert_eq!(text_at(&p, 0, 0), "a");
    assert_eq!(set_scroll(p.screen_mut(), 1), 1);
    assert_eq!(text_at(&p, 0, 0), "b");
    // Reading the total leaves the view where it was asked to be.
    assert_eq!(total_scroll(p.screen_mut(), 1), 2);
    assert_eq!(p.screen().scrollback(), 1);
    assert_eq!(total_scroll(p.screen_mut(), 9), 2);
    assert_eq!(p.screen().scrollback(), 2);
    assert_eq!(set_scroll(p.screen_mut(), 0), 0);
    assert_eq!(text_at(&p, 0, 0), "c");
}

#[test]
fn resize_changes_the_snapshot_size() {
    let mut p = parser(3, 10);
    resize(p.screen_mut(), 5, 7);
    let s = snapshot(p.screen());
    assert_eq!((s.rows, s.cols), (5, 7));
    assert_eq!(s.cells.len(), 35);
}

#[test]
fn selection_over_an_emulated_screen() {
    let mut p = parser(3, 6);
    p.process(b"one\r\ntwo");
    let s = snapshot(p.screen());
    let mut sel = Sel::new();
    sel.press(0, 1);
    sel.drag(1, 1);
    assert_eq!(sel.extract(&s, 3, 6), "ne\ntw\n");
}

#[test]
fn console_shift_state() {
    assert!(!is_console(None));
    assert!(is_console(Some(0)));
    assert!(!shift_held(None));
    assert!(!shift_held(Some(0x04)));
    assert!(shift_held(Some(0x01)));
    assert!(shift_held(Some(0x0d)));
}

#[test]
fn battery_directories() {
    assert_eq!(battery_dir("BAT0"), Some("/sys/class/power_supply/BAT0".to_string()));
    assert_eq!(battery_dir("AC"), None);
    assert_eq!(battery_dir("BA"), None);
    assert_eq!(battery_dir("bat1"), None);
    let b = Battery::at("/sys/class/power_supply/BAT1".to_string());
    assert_eq!(b.capacity_file(), "/sys/class/power_supply/BAT1/capacity");
    assert_eq!(b.status_file(), "/sys/class/power_supply/BAT1/status");
}

#[test]
fn snapshot_keeps_each_attribute_apart() {
    let mut p = parser(1, 6);
    p.process(b"\x1b[3mI\x1b[0m\x1b[4mU\x1b[0m\x1b[7mV\x1b[0m\x1b[1mB");
    let s = snapshot(p.screen());
    assert!(s.cells[0].italic && !s.cells[0].underline && !s.cells[0].inverse && !s.cells[0].bold);
    assert!(s.cells[1].underline && !s.cells[1].italic && !s.cells[1].inverse);
    assert!(s.cells[2].inverse && !s.cells[2].italic && !s.cells[2].underline);
    assert!(s.cells[3].bold && !s.cells[3].italic);
    assert!(!s.hide_cursor);
    assert!(!s.cells[0].wide_continuation);
}
