use tview::screen::Canvas;
use tview::taskbar::{draw, BAR, BLACK, GRAY, GRAY_DARK, RED, WHITE};

fn row_text(c: &Canvas, r: usize) -> String {
    let mut s = String::new();
    for k in 0..c.cols {
        s.push_str(&c.cells[r * c.cols + k].ch);
    }
    s
}

#[test]
fn two_tabs_on_eighty_columns() {
    let mut c = Canvas::new(2, 80);
    let sessions = vec![(0usize, "bash".to_string()), (1usize, "htop".to_string())];
    let l = draw(&mut c, &sessions, 0, "12:00:00", Some((50, true)));
    assert_eq!(l.start_c0, 0);
    assert_eq!(l.start_c1, 6);
    assert_eq!(l.buttons.len(), 2);
    assert_eq!((l.buttons[0].c0, l.buttons[0].c1, l.buttons[0].idx, l.buttons[0].close), (8, 28, 0, Some(29)));
    assert_eq!((l.buttons[1].c0, l.buttons[1].c1, l.buttons[1].idx, l.buttons[1].close), (31, 51, 1, Some(52)));
    assert_eq!(l.tray0, 57);
    let expect = format!(
        " Start  {}x {}x    {}",
        format!("{:<21}", " bash"),
        format!("{:<21}", " htop"),
        "  12:00:00   50% ▓▓░░░*"
    );
    assert_eq!(row_text(&c, 1), expect);
    // Colours: start button raised, active button sunken, close marker red.
    let cell = |k: usize| &c.cells[80 + k];
    assert_eq!((cell(1).fg, cell(1).bg, cell(1).bold), (BLACK, GRAY, true));
    assert_eq!((cell(9).fg, cell(9).bg, cell(9).bold), (WHITE, GRAY_DARK, true));
    assert_eq!((cell(29).fg, cell(29).bg), (RED, GRAY_DARK));
    assert_eq!((cell(32).fg, cell(32).bg, cell(32).bold), (BLACK, GRAY, false));
    assert_eq!((cell(52).fg, cell(52).bg), (RED, GRAY));
    assert_eq!((cell(55).fg, cell(55).bg), (BLACK, BAR));
    // The view row above is untouched.
    assert_eq!(row_text(&c, 0), "");
}

#[test]
fn narrow_bar_shows_only_buttons_that_fit() {
    let mut c = Canvas::new(1, 60);
    let sessions = vec![(0usize, "a".to_string()), (1usize, "b".to_string())];
    let l = draw(&mut c, &sessions, 1, "", None);
    assert_eq!(l.buttons.len(), 1);
    assert_eq!((l.buttons[0].c0, l.buttons[0].c1, l.buttons[0].close), (8, 20, Some(21)));
    assert_eq!(l.tray0, 56);
}

#[test]
fn long_labels_get_an_ellipsis() {
    let mut c = Canvas::new(1, 80);
    let sessions = vec![(0usize, "abcdefghijklmnopqrstuvwxyz".to_string())];
    let l = draw(&mut c, &sessions, 0, "", None);
    assert_eq!(l.buttons.len(), 1);
    let text = row_text(&c, 0);
    let body: String = text.chars().skip(8).take(21).collect();
    assert_eq!(body, " abcdefghijklmnopqr… ");
}

#[test]
fn battery_gauge_without_charging() {
    let mut c = Canvas::new(1, 40);
    let l = draw(&mut c, &[], 0, "09:30:00", Some((100, false)));
    assert_eq!(l.buttons.len(), 0);
    let text = row_text(&c, 0);
    assert!(text.ends_with("  09:30:00  100% ▓▓▓▓▓"));
    assert_eq!(l.tray0, 40 - 22);
}

#[test]
fn tiny_bar_hides_tray() {
    let mut c = Canvas::new(1, 5);
    let l = draw(&mut c, &[], 0, "12:00:00", None);
    assert_eq!(l.start_c1, 4);
    assert_eq!(l.tray0, 0);
    assert_eq!(row_text(&c, 0), " Star");
}

#[test]
fn zero_rows_draws_nothing() {
    let mut c = Canvas::new(0, 10);
    let l = draw(&mut c, &[(0usize, "x".to_string())], 0, "", None);
    assert_eq!(l.buttons.len(), 0);
    assert_eq!(l.start_c1, 0);
}
