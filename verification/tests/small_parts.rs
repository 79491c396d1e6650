use tview::battery::Battery;
use tview::clipboard::Clipboard;
use tview::fmt::{push_dec, push_dec_bytes};
use tview::grid::ScreenSnap;
use tview::menu::menu_file_path;
use tview::numparse::{field_range_start, parse_i64_range, trim_ws_range};
use tview::screen::window_size;

#[test]
fn battery_reading_parses_capacity_and_status() {
    assert_eq!(Battery::parse_reading("57\n", Some("Charging\n")), Some((57, true)));
    assert_eq!(Battery::parse_reading("100", Some("Full")), Some((100, false)));
    assert_eq!(Battery::parse_reading(" 7 ", Some(" Charging ")), Some((7, true)));
    assert_eq!(Battery::parse_reading("+5", None), Some((5, false)));
    assert_eq!(Battery::parse_reading("42", Some("charging")), Some((42, false)));
}

#[test]
fn battery_capacity_is_capped_at_one_hundred() {
    assert_eq!(Battery::parse_reading("255", None), Some((100, false)));
    assert_eq!(Battery::parse_reading("101", Some("Discharging")), Some((100, false)));
}

#[test]
fn battery_rejects_bad_capacity() {
    assert_eq!(Battery::parse_reading("256", None), None);
    assert_eq!(Battery::parse_reading("", None), None);
    assert_eq!(Battery::parse_reading("-1", None), None);
    assert_eq!(Battery::parse_reading("4 2", None), None);
    assert_eq!(Battery::parse_reading("+", None), None);
}

#[test]
fn battery_at_keeps_path() {
    let b = Battery::at("/sys/class/power_supply/BAT0".to_string());
    assert_eq!(b.path, "/sys/class/power_supply/BAT0");
}

#[test]
fn clipboard_holds_last_text() {
    let mut c = Clipboard::new();
    assert!(c.is_empty());
    c.set("one".to_string());
    c.set("two".to_string());
    assert_eq!(c.get(), "two");
    assert!(!c.is_empty());
}

#[test]
fn decimal_formatting() {
    let mut s = String::from("n=");
    push_dec(&mut s, 0);
    push_dec(&mut s, 1234567890);
    assert_eq!(s, "n=01234567890");
    let mut v = b"[".to_vec();
    push_dec_bytes(&mut v, 18446744073709551615);
    assert_eq!(v, b"[18446744073709551615".to_vec());
}

#[test]
fn number_fields() {
    let buf = b"12; -7 ;x;".to_vec();
    let (a, b, ok) = field_range_start(&buf, 0, buf.len(), 1);
    assert!(ok);
    assert_eq!(&buf[a..b], b" -7 ");
    let (c, d) = trim_ws_range(&buf, a, b);
    assert_eq!(parse_i64_range(&buf, c, d), Some(-7));
    let (_, _, ok3) = field_range_start(&buf, 0, buf.len(), 3);
    assert!(ok3);
    let (_, _, ok4) = field_range_start(&buf, 0, buf.len(), 4);
    assert!(!ok4);
    let (e, f, _) = field_range_start(&buf, 0, buf.len(), 2);
    assert_eq!(parse_i64_range(&buf, e, f), None);
}

#[test]
fn i64_parsing_edges() {
    let v = b"+9223372036854775807".to_vec();
    assert_eq!(parse_i64_range(&v, 0, v.len()), Some(i64::MAX));
    let w = b"9223372036854775808".to_vec();
    assert_eq!(parse_i64_range(&w, 0, w.len()), None);
    let m = b"-9223372036854775808".to_vec();
    assert_eq!(parse_i64_range(&m, 0, m.len()), Some(i64::MIN));
    let n = b"-".to_vec();
    assert_eq!(parse_i64_range(&n, 0, 1), None);
}

#[test]
fn screen_cell_index() {
    let s = ScreenSnap::empty();
    assert_eq!(s.cell_index(0, 0), None);
    assert!(!s.row_wrapped(0));
}

#[test]
fn clock_text_pads_to_two_digits() {
    assert_eq!(tview::fmt::clock_text(9, 5, 0), "09:05:00");
    assert_eq!(tview::fmt::clock_text(23, 59, 60), "23:59:60");
    assert_eq!(tview::fmt::clock_text(123, 10, 7), "123:10:07");
}

#[test]
fn window_size_falls_back_to_24_by_80() {
    assert_eq!(window_size(Some((50, 132))), (50, 132));
    assert_eq!(window_size(Some((0, 132))), (24, 80));
    assert_eq!(window_size(Some((50, 0))), (24, 80));
    assert_eq!(window_size(None), (24, 80));
}

#[test]
fn menu_file_lookup_order() {
    assert_eq!(menu_file_path(Some("/etc/m"), Some("/x"), Some("/home/u")), "/etc/m");
    assert_eq!(menu_file_path(Some(""), Some("/x"), Some("/home/u")), "/x/tasqview/menu");
    assert_eq!(menu_file_path(None, Some("/x/"), Some("/home/u")), "/x/tasqview/menu");
    assert_eq!(menu_file_path(None, Some(""), Some("/home/u")), "/home/u/.config/tasqview/menu");
    assert_eq!(menu_file_path(None, None, None), "/.config/tasqview/menu");
}
