use tview::grid::{Color, ScreenSnap, VtCell};
use tview::input::Event;
use tview::keys::key_bytes;
use tview::selection::Sel;

fn cell(s: &str) -> VtCell {
    VtCell {
        contents: s.to_string(),
        wide_continuation: false,
        fg: Color::Default,
        bg: Color::Default,
        bold: false,
        italic: false,
        underline: false,
        inverse: false,
    }
}

fn snap(lines: &[&str], cols: u16, wrapped: Vec<bool>) -> ScreenSnap {
    let mut cells = Vec::new();
    for l in lines {
        let chars: Vec<char> = l.chars().collect();
        for k in 0..cols as usize {
            if k < chars.len() {
                cells.push(cell(&chars[k].to_string()));
            } else {
                cells.push(cell(""));
            }
        }
    }
    ScreenSnap {
        rows: lines.len() as u16,
        cols,
        cells,
        wrapped,
        cursor: (0, 0),
        hide_cursor: false,
        application_cursor: false,
        bracketed_paste: false,
    }
}

#[test]
fn selection_spans_rows_in_stream_order() {
    let scr = snap(&["abc", "de"], 3, vec![false, false]);
    let mut s = Sel::new();
    s.press(1, 0);
    s.drag(0, 1);
    s.release();
    assert!(s.have && !s.active);
    assert_eq!(s.extract(&scr, 2, 3), "bc\nd");
}

#[test]
fn wrapped_rows_join_without_newline() {
    let scr = snap(&["abc", "de"], 3, vec![true, false]);
    let mut s = Sel::new();
    s.press(0, 1);
    s.drag(1, 0);
    assert_eq!(s.extract(&scr, 2, 3), "bcd");
}

#[test]
fn wide_continuation_cells_add_nothing() {
    let mut scr = snap(&["x  "], 3, vec![false]);
    scr.cells[0] = cell("世");
    scr.cells[1].wide_continuation = true;
    scr.cells[2] = cell("y");
    let mut s = Sel::new();
    s.press(0, 0);
    s.drag(0, 2);
    assert_eq!(s.extract(&scr, 1, 3), "世y");
}

#[test]
fn no_selection_extracts_nothing() {
    let scr = snap(&["abc"], 3, vec![false]);
    let s = Sel::new();
    assert_eq!(s.extract(&scr, 1, 3), "");
    assert!(!s.inside(0, 0));
}

#[test]
fn drag_only_moves_an_active_selection() {
    let mut s = Sel::new();
    s.press(2, 2);
    s.release();
    s.drag(5, 5);
    assert_eq!(s.end, (2, 2));
    s.clear();
    assert!(!s.have && !s.active);
}

#[test]
fn inside_is_direction_free() {
    let mut a = Sel::new();
    a.press(1, 5);
    a.drag(3, 2);
    let mut b = Sel::new();
    b.press(3, 2);
    b.drag(1, 5);
    for r in 0..5usize {
        for c in 0..8usize {
            assert_eq!(a.inside(r, c), b.inside(r, c));
        }
    }
    assert!(a.inside(2, 0));
    assert!(a.inside(1, 5));
    assert!(!a.inside(1, 4));
    assert!(a.inside(3, 2));
    assert!(!a.inside(3, 3));
}

#[test]
fn cursor_keys_follow_application_mode() {
    assert_eq!(key_bytes(false, &Event::Up), b"\x1b[A".to_vec());
    assert_eq!(key_bytes(true, &Event::Up), b"\x1bOA".to_vec());
    assert_eq!(key_bytes(true, &Event::Left), b"\x1bOD".to_vec());
    assert_eq!(key_bytes(false, &Event::End), b"\x1b[F".to_vec());
    assert_eq!(key_bytes(true, &Event::Home), b"\x1bOH".to_vec());
}

#[test]
fn editing_and_function_keys() {
    assert_eq!(key_bytes(true, &Event::Insert), b"\x1b[2~".to_vec());
    assert_eq!(key_bytes(false, &Event::Delete), b"\x1b[3~".to_vec());
    assert_eq!(key_bytes(false, &Event::BackTab), b"\x1b[Z".to_vec());
    assert_eq!(key_bytes(false, &Event::PageDown), b"\x1b[6~".to_vec());
    assert_eq!(key_bytes(false, &Event::F(1)), b"\x1bOP".to_vec());
    assert_eq!(key_bytes(false, &Event::F(5)), b"\x1b[15~".to_vec());
    assert_eq!(key_bytes(false, &Event::F(11)), b"\x1b[23~".to_vec());
    assert_eq!(key_bytes(false, &Event::F(12)), b"\x1b[24~".to_vec());
    assert_eq!(key_bytes(false, &Event::F(40)), b"\x1b[24~".to_vec());
}

#[test]
fn other_events_have_no_key_bytes() {
    assert!(key_bytes(false, &Event::Byte(b'a')).is_empty());
    assert!(key_bytes(false, &Event::MousePress { col: 1, row: 1 }).is_empty());
    assert!(key_bytes(false, &Event::Drop).is_empty());
}
