use tview::app::{App, CtrlAction, Effect, Env};
use tview::grid::{Color, ScreenSnap, VtCell};
use tview::input::Event;

fn cell(s: &str) -> VtCell {
    VtCell {
        contents: s.to_string(),
        wide_continuation: false,
        fg: Color::Default,
        bg: Color::Default,
        bold: false,
        italic: false,
        underline: false,
        inverse: false,
    }
}

fn hello_screen(bracketed: bool) -> ScreenSnap {
    ScreenSnap {
        rows: 1,
        cols: 5,
        cells: "hello".chars().map(|c| cell(&c.to_string())).collect(),
        wrapped: vec![false],
        cursor: (0, 2),
        hide_cursor: false,
        application_cursor: false,
        bracketed_paste: bracketed,
    }
}

fn env_with(screen: ScreenSnap, scrollback: usize) -> Env {
    Env { screen, scrollback_len: scrollback, shift: false }
}

fn env() -> Env {
    env_with(ScreenSnap::empty(), 100)
}

/// An app on a 25x80 terminal with `n` tabs open.
fn app_with_tabs(n: usize) -> App {
    let mut a = App::new(25, 80, false);
    for k in 0..n {
        a.new_session();
        let e = a.take_effects();
        assert_eq!(e.len(), 1);
        assert!(matches!(e[0], Effect::Spawn { id } if id == k + 1));
        a.spawned(true);
    }
    a
}

fn toast(a: &App) -> String {
    a.toast.clone().unwrap_or_default()
}

#[test]
fn new_app_has_no_tabs() {
    let a = App::new(25, 80, true);
    assert_eq!(a.view_rows, 24);
    assert_eq!(a.view_cols, 80);
    assert!(a.tabs.is_empty());
    assert!(!a.quit);
    let b = App::new(1, 10, false);
    assert_eq!(b.view_rows, 1);
}

#[test]
fn spawned_tab_becomes_active() {
    let a = app_with_tabs(3);
    assert_eq!(a.tabs.len(), 3);
    assert_eq!(a.active, 2);
}

#[test]
fn failed_command_spawn_shows_a_toast() {
    let mut a = app_with_tabs(1);
    a.spawned_cmd(false);
    assert_eq!(a.tabs.len(), 1);
    assert_eq!(toast(&a), "failed to launch");
}

#[test]
fn ctrl_c_goes_to_the_program() {
    let mut a = app_with_tabs(2);
    a.on_event(Event::Byte(0x03), &env());
    let e = a.take_effects();
    assert_eq!(e.len(), 1);
    assert!(matches!(&e[0], Effect::Write { tab: 1, bytes } if bytes == &vec![0x03u8]));
}

#[test]
fn typed_text_and_keys_reach_the_program() {
    let mut a = app_with_tabs(1);
    a.on_event(Event::Byte(b'a'), &env());
    a.on_event(Event::AltByte(b'q'), &env());
    a.on_event(Event::Up, &env());
    let e = a.take_effects();
    assert_eq!(e.len(), 3);
    assert!(matches!(&e[0], Effect::Write { tab: 0, bytes } if bytes == &b"a".to_vec()));
    assert!(matches!(&e[1], Effect::Write { tab: 0, bytes } if bytes == &b"\x1bq".to_vec()));
    assert!(matches!(&e[2], Effect::Write { tab: 0, bytes } if bytes == &b"\x1b[A".to_vec()));
}

#[test]
fn nothing_is_written_without_tabs() {
    let mut a = App::new(25, 80, false);
    a.on_event(Event::Byte(b'a'), &env());
    a.on_event(Event::PageUp, &env());
    assert!(a.take_effects().is_empty());
}

#[test]
fn shortcuts_by_alt_chords() {
    let a = App::new(25, 80, false);
    assert!(matches!(a.alt_action(b'C'), Some(CtrlAction::Copy)));
    assert!(matches!(a.alt_action(b'v'), Some(CtrlAction::Paste)));
    assert!(matches!(a.alt_action(b't'), Some(CtrlAction::NewSession)));
    assert!(matches!(a.alt_action(b'W'), Some(CtrlAction::CloseSession)));
    assert!(matches!(a.alt_action(b's'), Some(CtrlAction::ToggleSelect)));
    assert!(matches!(a.alt_action(b'x'), Some(CtrlAction::Quit)));
    assert!(a.alt_action(b'q').is_none());
}

#[test]
fn ctrl_shift_chords_only_on_the_console() {
    let off = App::new(25, 80, false);
    assert!(off.ctrl_action(0x14, true).is_none());
    let on = App::new(25, 80, true);
    assert!(on.ctrl_action(0x14, false).is_none());
    assert!(matches!(on.ctrl_action(0x14, true), Some(CtrlAction::NewSession)));
    assert!(matches!(on.ctrl_action(0x17, true), Some(CtrlAction::CloseSession)));
    assert!(matches!(on.ctrl_action(0x18, true), Some(CtrlAction::Quit)));
    assert!(matches!(on.ctrl_action(0x13, true), Some(CtrlAction::ToggleSelect)));
    assert!(on.ctrl_action(0x03, true).is_none());
    assert!(on.ctrl_action(0x16, true).is_none());
}

#[test]
fn console_ctrl_shift_t_asks_for_a_tab() {
    let mut a = App::new(25, 80, true);
    a.new_session();
    a.take_effects();
    a.spawned(true);
    let e = Env { screen: ScreenSnap::empty(), scrollback_len: 0, shift: true };
    a.on_event(Event::Byte(0x14), &e);
    let fx = a.take_effects();
    assert!(matches!(fx[0], Effect::Spawn { id: 2 }));
}

#[test]
fn quit_asks_first_and_n_cancels() {
    let mut a = app_with_tabs(2);
    a.on_event(Event::AltByte(b'X'), &env());
    assert!(a.quit_confirm);
    assert_eq!(toast(&a), "quit tasqview? 2 session(s) will close  [y/n]");
    a.on_event(Event::Byte(b'n'), &env());
    assert!(!a.quit);
    assert!(!a.quit_confirm);
    assert_eq!(toast(&a), "quit cancelled");
    a.on_event(Event::AltByte(b'x'), &env());
    a.on_event(Event::Byte(b'Y'), &env());
    assert!(a.quit);
}

#[test]
fn prefix_key_commands() {
    let mut a = app_with_tabs(2);
    a.on_event(Event::Byte(0x02), &env());
    assert!(a.prefix);
    assert_eq!(toast(&a), "prefix: c/v s(elect) t/w x n");
    a.on_event(Event::Byte(b'n'), &env());
    assert!(!a.prefix);
    assert_eq!(a.active, 0);
    a.take_effects();
    a.on_event(Event::Byte(0x02), &env());
    a.on_event(Event::Byte(0x02), &env());
    let e = a.take_effects();
    assert!(matches!(&e[e.len() - 1], Effect::Write { tab: 0, bytes } if bytes == &vec![0x02u8]));
    a.on_event(Event::Byte(0x02), &env());
    a.on_event(Event::Byte(b'?'), &env());
    assert_eq!(toast(&a), "prefix cancelled");
    a.on_event(Event::Byte(0x02), &env());
    a.on_event(Event::Up, &env());
    assert_eq!(toast(&a), "prefix cancelled");
    a.on_event(Event::Byte(0x02), &env());
    a.on_event(Event::Byte(b'w'), &env());
    assert_eq!(a.tabs.len(), 1);
    let e = a.take_effects();
    assert!(matches!(e[e.len() - 1], Effect::Close { tab: 0 }));
}

#[test]
fn alt_tab_cycles_through_tabs() {
    let mut a = app_with_tabs(3);
    assert_eq!(a.active, 2);
    a.on_event(Event::AltTab, &env());
    assert_eq!(a.active, 0);
    a.on_event(Event::AltTab, &env());
    a.on_event(Event::AltTab, &env());
    assert_eq!(a.active, 2);
}

#[test]
fn page_up_down_and_escape_scroll() {
    let mut a = app_with_tabs(1);
    a.on_event(Event::PageUp, &env_with(ScreenSnap::empty(), 100));
    assert_eq!(a.tabs[0].scroll, 24);
    a.on_event(Event::PageUp, &env_with(ScreenSnap::empty(), 30));
    assert_eq!(a.tabs[0].scroll, 30);
    assert_eq!(a.tabs[0].last_scroll_total, 30);
    a.on_event(Event::PageDown, &env_with(ScreenSnap::empty(), 30));
    assert_eq!(a.tabs[0].scroll, 6);
    a.on_event(Event::PageDown, &env_with(ScreenSnap::empty(), 30));
    assert_eq!(a.tabs[0].scroll, 0);
    let e = a.take_effects();
    assert_eq!(e.len(), 4);
    assert!(matches!(e[3], Effect::SetScroll { tab: 0, offset: 0 }));
    // Not scrolled: PageDown does nothing, Esc goes to the program.
    a.on_event(Event::PageDown, &env());
    a.on_event(Event::Esc, &env());
    let e = a.take_effects();
    assert_eq!(e.len(), 1);
    assert!(matches!(&e[0], Effect::Write { tab: 0, bytes } if bytes == &vec![0x1bu8]));
    // Scrolled: Esc returns to the live screen.
    a.on_event(Event::WheelUp { col: 0, row: 0 }, &env());
    assert_eq!(a.tabs[0].scroll, 3);
    a.on_event(Event::WheelDown { col: 0, row: 3 }, &env());
    assert_eq!(a.tabs[0].scroll, 0);
    a.on_event(Event::WheelUp { col: 0, row: 24 }, &env());
    assert_eq!(a.tabs[0].scroll, 0);
    a.on_event(Event::WheelUp { col: 0, row: 1 }, &env());
    a.on_event(Event::Esc, &env());
    assert_eq!(a.tabs[0].scroll, 0);
    assert_eq!(a.tabs[0].last_scroll_total, 0);
    let e = a.take_effects();
    assert!(matches!(e[e.len() - 1], Effect::SetScroll { tab: 0, offset: 0 }));
}

#[test]
fn scrolled_view_stays_anchored_as_output_grows() {
    let mut a = app_with_tabs(1);
    a.on_event(Event::PageUp, &env_with(ScreenSnap::empty(), 100));
    a.take_effects();
    a.anchor_scroll(0, 110);
    assert_eq!(a.tabs[0].scroll, 34);
    assert_eq!(a.tabs[0].last_scroll_total, 110);
    let e = a.take_effects();
    assert!(matches!(e[0], Effect::SetScroll { tab: 0, offset: 34 }));
    a.anchor_scroll(0, 110);
    assert!(a.take_effects().is_empty());
}

#[test]
fn mouse_selection_copy_then_paste() {
    let mut a = app_with_tabs(1);
    let e = env_with(hello_screen(false), 0);
    a.on_event(Event::MousePress { col: 0, row: 0 }, &e);
    a.on_event(Event::MouseRelease { col: 4, row: 0 }, &e);
    assert!(a.sel.have && !a.sel.active);
    a.on_event(Event::AltByte(b'c'), &e);
    assert_eq!(a.clip.text, "hello\n");
    assert_eq!(toast(&a), "copied 6 chars");
    assert!(!a.sel.have);
    a.take_effects();
    a.on_event(Event::AltByte(b'v'), &e);
    let fx = a.take_effects();
    assert!(matches!(&fx[0], Effect::Write { tab: 0, bytes } if bytes == &b"hello\n".to_vec()));
    assert_eq!(toast(&a), "pasted 6 chars");
    let eb = env_with(hello_screen(true), 0);
    a.on_event(Event::AltByte(b'V'), &eb);
    let fx = a.take_effects();
    assert!(matches!(&fx[0], Effect::Write { tab: 0, bytes } if bytes == &b"\x1b[200~hello\n\x1b[201~".to_vec()));
}

#[test]
fn copy_and_paste_with_nothing() {
    let mut a = app_with_tabs(1);
    a.on_event(Event::AltByte(b'c'), &env());
    assert_eq!(toast(&a), "nothing selected");
    a.on_event(Event::AltByte(b'v'), &env());
    assert_eq!(toast(&a), "clipboard empty");
}

#[test]
fn typing_consumes_a_finished_selection() {
    let mut a = app_with_tabs(1);
    let e = env_with(hello_screen(false), 0);
    a.on_event(Event::MousePress { col: 1, row: 0 }, &e);
    a.on_event(Event::MouseDrag { col: 3, row: 0 }, &e);
    a.on_event(Event::MouseRelease { col: 30, row: 30 }, &e);
    assert_eq!(a.sel.end, (0, 3));
    a.on_event(Event::Byte(0x03), &e);
    assert!(!a.sel.have);
}

#[test]
fn keyboard_selection_mode() {
    let mut a = app_with_tabs(1);
    let e = env_with(hello_screen(false), 0);
    a.on_event(Event::AltByte(b's'), &e);
    assert!(a.keysel.is_some());
    assert_eq!(toast(&a), "SELECT: arrows extend · Space re-anchors · Enter/y copy · Esc cancel");
    // The caret starts at the cursor (row 0, col 2).
    a.on_event(Event::Left, &e);
    a.on_event(Event::Left, &e);
    a.on_event(Event::Left, &e);
    let ks = a.keysel.unwrap();
    assert_eq!((ks.r, ks.c), (0, 0));
    a.on_event(Event::Byte(b' '), &e);
    assert_eq!(toast(&a), "anchor set · arrows extend");
    a.on_event(Event::Right, &e);
    a.on_event(Event::Byte(b'y'), &e);
    assert!(a.keysel.is_none());
    assert_eq!(a.clip.text, "he\n");
    assert_eq!(toast(&a), "copied 3 chars");
}

#[test]
fn keyboard_selection_cancel() {
    let mut a = app_with_tabs(1);
    let e = env_with(hello_screen(false), 0);
    a.on_event(Event::AltByte(b'S'), &e);
    a.on_event(Event::Esc, &e);
    assert!(a.keysel.is_none());
    assert!(!a.sel.have);
    a.on_event(Event::AltByte(b'S'), &e);
    // While selecting, chords are not shortcuts.
    a.on_event(Event::AltByte(b'S'), &e);
    assert!(a.keysel.is_some());
    a.toggle_select_mode(&hello_screen(false));
    assert!(a.keysel.is_none());
    assert!(!a.sel.have);
    assert_eq!(toast(&a), "select cancelled");
}

#[test]
fn start_menu_flow() {
    let mut a = app_with_tabs(1);
    let titles = vec!["bash".to_string()];
    a.render(&ScreenSnap::empty(), &titles, "12:00:00", None, false);
    a.take_effects();
    a.on_event(Event::MousePress { col: 3, row: 24 }, &env());
    let e = a.take_effects();
    assert!(matches!(e[0], Effect::LoadMenu));
    a.open_menu(Some("h: htop\n"));
    assert_eq!(a.menu, Some(0));
    assert_eq!(a.menu_cache.len(), 3);
    a.on_event(Event::Up, &env());
    assert_eq!(a.menu, Some(2));
    a.on_event(Event::Down, &env());
    assert_eq!(a.menu, Some(0));
    a.on_event(Event::Byte(b'h'), &env());
    assert_eq!(a.menu, None);
    let e = a.take_effects();
    assert!(matches!(&e[0], Effect::SpawnCmd { id: 2, cmd } if cmd == "htop"));
    // Exit from the menu asks for confirmation.
    a.open_menu(None);
    a.on_event(Event::Byte(b'q'), &env());
    assert!(a.quit_confirm);
    // Esc closes the menu.
    a.on_event(Event::Byte(b'n'), &env());
    a.open_menu(None);
    a.on_event(Event::Esc, &env());
    assert_eq!(a.menu, None);
}

#[test]
fn menu_click_runs_the_clicked_line() {
    let mut a = app_with_tabs(1);
    a.open_menu(None);
    assert_eq!(a.menu_width(), 14);
    assert_eq!(a.menu_len(), 2);
    // Rows 22 and 23 hold "New tab" and "Exit".
    a.on_event(Event::MousePress { col: 2, row: 22 }, &env());
    assert_eq!(a.menu, None);
    let e = a.take_effects();
    assert!(matches!(e[0], Effect::Spawn { id: 2 }));
    a.open_menu(None);
    a.on_event(Event::MousePress { col: 20, row: 22 }, &env());
    assert_eq!(a.menu, None);
    assert!(a.take_effects().is_empty());
}

#[test]
fn taskbar_clicks_focus_and_close() {
    let mut a = app_with_tabs(2);
    let titles = vec!["bash".to_string(), "htop".to_string()];
    a.render(&ScreenSnap::empty(), &titles, "12:00:00", None, false);
    assert_eq!(a.layout.buttons.len(), 2);
    a.on_event(Event::MousePress { col: 10, row: 24 }, &env());
    assert_eq!(a.active, 0);
    a.on_event(Event::MousePress { col: 40, row: 24 }, &env());
    assert_eq!(a.active, 1);
    a.take_effects();
    a.on_event(Event::MousePress { col: 29, row: 24 }, &env());
    assert_eq!(a.tabs.len(), 1);
    assert_eq!(a.active, 0);
    let e = a.take_effects();
    assert!(matches!(e[0], Effect::Close { tab: 0 }));
    // The stale button of the closed tab is skipped.
    a.on_event(Event::MousePress { col: 52, row: 24 }, &env());
    assert_eq!(a.tabs.len(), 1);
}

#[test]
fn closing_the_last_tab_quits() {
    let mut a = app_with_tabs(1);
    a.close_active();
    assert!(a.quit);
    assert!(a.tabs.is_empty());
}

#[test]
fn exited_sessions_are_pruned() {
    let mut a = app_with_tabs(3);
    a.prune(&vec![true, false, false]);
    assert_eq!(a.tabs.len(), 1);
    assert_eq!(a.active, 0);
    assert!(!a.quit);
    a.prune(&vec![false]);
    assert!(a.quit);
}

#[test]
fn lone_escape_times_out_as_escape() {
    let mut a = app_with_tabs(1);
    a.inptr.push(b"\x1b");
    assert!(a.inptr.drain().is_empty());
    a.esc_timeout(&env());
    assert!(!a.inptr.lone_esc);
    let e = a.take_effects();
    assert!(matches!(&e[0], Effect::Write { tab: 0, bytes } if bytes == &vec![0x1bu8]));
    a.esc_timeout(&env());
    assert!(a.take_effects().is_empty());
}

#[test]
fn resize_reports_change() {
    let mut a = app_with_tabs(1);
    assert!(!a.resize(25, 80));
    assert!(a.resize(30, 100));
    assert_eq!(a.view_rows, 29);
    assert_eq!(a.view_cols, 100);
}

#[test]
fn render_draws_view_bar_and_cursor() {
    let mut a = app_with_tabs(1);
    let titles = vec!["sh".to_string()];
    let out = a.render(&hello_screen(false), &titles, "", None, false);
    let s = String::from_utf8(out).unwrap();
    assert!(s.starts_with("\x1b[0m\x1b[1;1Hhello"));
    assert!(s.contains("\x1b[25;1H"));
    assert!(s.ends_with("\x1b[0m\x1b[?25h\x1b[1;3H"));
    // Nothing changed: only the cursor is placed again.
    let out2 = a.render(&hello_screen(false), &titles, "", None, false);
    assert_eq!(out2, b"\x1b[?25h\x1b[1;3H".to_vec());
}

#[test]
fn render_shows_and_expires_the_toast() {
    let mut a = app_with_tabs(1);
    let titles = vec!["sh".to_string()];
    a.set_toast("hi".to_string());
    a.render(&ScreenSnap::empty(), &titles, "", None, false);
    let row: String = (0..80).map(|c| a.canvas.prev[24 * 80 + c].ch.clone()).collect();
    assert!(row.ends_with(" hi  "));
    a.render(&ScreenSnap::empty(), &titles, "", None, true);
    assert!(a.toast.is_none());
}

#[test]
fn ctrl_v_goes_to_the_program() {
    let mut a = app_with_tabs(1);
    let e = Env { screen: ScreenSnap::empty(), scrollback_len: 0, shift: true };
    a.on_event(Event::Byte(0x16), &e);
    let fx = a.take_effects();
    assert_eq!(fx.len(), 1);
    assert!(matches!(&fx[0], Effect::Write { tab: 0, bytes } if bytes == &vec![0x16u8]));
}

#[test]
fn menu_down_then_up_returns() {
    let mut a = app_with_tabs(1);
    a.open_menu(Some("a: x\nb: y\n"));
    for start in 0..4usize {
        a.menu = Some(start);
        a.on_event(Event::Down, &env());
        a.on_event(Event::Up, &env());
        assert_eq!(a.menu, Some(start));
        a.on_event(Event::Up, &env());
        a.on_event(Event::Down, &env());
        assert_eq!(a.menu, Some(start));
    }
    a.menu = Some(3);
    a.on_event(Event::Down, &env());
    assert_eq!(a.menu, Some(0));
}

#[test]
fn poll_waits_briefly_after_a_lone_escape() {
    let mut a = app_with_tabs(1);
    assert_eq!(a.poll_timeout_ms(), 100);
    a.inptr.push(b"\x1b");
    assert!(a.inptr.drain().is_empty());
    assert_eq!(a.poll_timeout_ms(), 25);
}

#[test]
fn end_of_input_quits() {
    let mut a = app_with_tabs(2);
    a.input_ended();
    assert!(a.quit);
    assert_eq!(a.tabs.len(), 2);
}

#[test]
fn pruning_nothing_keeps_running_and_no_tabs_quits() {
    let mut a = app_with_tabs(2);
    a.prune(&vec![true, true]);
    assert!(!a.quit);
    let mut b = App::new(25, 80, false);
    b.prune(&vec![]);
    assert!(b.quit);
}
