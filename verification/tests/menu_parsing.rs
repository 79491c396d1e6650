use tview::menu::{menu_cmd_name, menu_entries_from, parse_menu_text, MenuAction};

#[test]
fn cmd_name_is_basename_of_first_word() {
    assert_eq!(menu_cmd_name("htop"), "htop");
    assert_eq!(menu_cmd_name("/usr/bin/htop"), "htop");
    assert_eq!(menu_cmd_name("nvim /etc/fstab"), "nvim");
    assert_eq!(menu_cmd_name("/opt/bin/thing --flag"), "thing");
}

#[test]
fn parse_skips_comments_blanks_and_malformed() {
    let txt = "\n# a comment\nh: htop\n\n  m :  mc \nbroken line\n: bare\n";
    let v = parse_menu_text(txt);
    assert_eq!(v.len(), 3);
    assert_eq!(v[0].key, Some('h'));
    assert_eq!(v[0].label, "h  htop");
    assert!(matches!(&v[0].action, MenuAction::Run(c) if c == "htop"));
    assert_eq!(v[1].key, Some('m'));
    assert!(matches!(&v[1].action, MenuAction::Run(c) if c == "mc"));
    // blank key -> no accelerator, label is the command name
    assert_eq!(v[2].key, None);
    assert_eq!(v[2].label, "bare");
}

#[test]
fn multichar_key_field_has_no_accelerator() {
    let v = parse_menu_text("12: something\n");
    assert_eq!(v.len(), 1);
    assert_eq!(v[0].key, None);
    assert_eq!(v[0].label, "12  something");
}

#[test]
fn command_may_contain_colons() {
    let v = parse_menu_text("j: journalctl -u foo.service\n");
    assert!(matches!(&v[0].action,
        MenuAction::Run(c) if c == "journalctl -u foo.service"));
}

#[test]
fn cmd_name_of_blank_command_is_the_command() {
    assert_eq!(menu_cmd_name(""), "");
    assert_eq!(menu_cmd_name("   "), "   ");
    assert_eq!(menu_cmd_name("dir/"), "");
}

#[test]
fn empty_command_line_is_skipped() {
    let v = parse_menu_text("a:\nb:   \nc: ok\r\n");
    assert_eq!(v.len(), 1);
    assert_eq!(v[0].key, Some('c'));
    assert!(matches!(&v[0].action, MenuAction::Run(c) if c == "ok"));
}

#[test]
fn last_line_without_newline_counts() {
    let v = parse_menu_text("x: /usr/bin/top -d 1");
    assert_eq!(v.len(), 1);
    assert_eq!(v[0].label, "x  top");
}

#[test]
fn menu_ends_with_new_tab_and_exit() {
    let v = menu_entries_from(Some("h: htop\n"));
    assert_eq!(v.len(), 3);
    assert_eq!(v[0].label, "h  htop");
    assert_eq!(v[1].key, Some('n'));
    assert_eq!(v[1].label, "New tab");
    assert!(matches!(&v[1].action, MenuAction::NewTab));
    assert_eq!(v[2].key, Some('q'));
    assert_eq!(v[2].label, "Exit");
    assert!(matches!(&v[2].action, MenuAction::Exit));
}

#[test]
fn menu_without_file_has_only_builtins() {
    let v = menu_entries_from(None);
    assert_eq!(v.len(), 2);
    assert_eq!(v[0].label, "New tab");
    assert_eq!(v[1].label, "Exit");
}
