//! The Start menu: launcher entries parsed from a `key: command` text file,
//! followed by the built-in "New tab" and "Exit" entries.

use vstd::prelude::*;
use crate::text::{
    is_ws_char, skip_ws_from, word_end, trim, find_from, rfind_before, split_from, chars_of, push_char, push_str,
    string_of_range, find_in, trim_range, lemma_find_from_bounds,
};

verus! {

broadcast use vstd::string::group_string_axioms;

/// What choosing a menu entry does.
pub enum MenuAction {
    NewTab,
    Exit,
    /// Run the command (under `sh -c`) in a new tab.
    Run(String),
}

/// The mathematical value of a `MenuAction`.
pub enum ActionV {
    NewTab,
    Exit,
    Run(Seq<char>),
}

impl View for MenuAction {
    type V = ActionV;

    open spec fn view(&self) -> ActionV {
        match self {
            MenuAction::NewTab => ActionV::NewTab,
            MenuAction::Exit => ActionV::Exit,
            MenuAction::Run(c) => ActionV::Run(c@),
        }
    }
}

impl MenuAction {
    pub fn clone_action(&self) -> (r: MenuAction)
        ensures
            r@ == self@,
    {
        match self {
            MenuAction::NewTab => MenuAction::NewTab,
            MenuAction::Exit => MenuAction::Exit,
            MenuAction::Run(c) => MenuAction::Run(c.clone()),
        }
    }
}

/// One line of the Start menu.
pub struct MenuEntry {
    /// Optional accelerator key (typed while the menu is open).
    pub key: Option<char>,
    pub label: String,
    pub action: MenuAction,
}

/// The mathematical value of a `MenuEntry`.
pub struct EntryV {
    pub key: Option<char>,
    pub label: Seq<char>,
    pub action: ActionV,
}

impl View for MenuEntry {
    type V = EntryV;

    open spec fn view(&self) -> EntryV {
        EntryV { key: self.key, label: self.label@, action: self.action@ }
    }
}

impl MenuEntry {
    pub fn clone_entry(&self) -> (r: MenuEntry)
        ensures
            r@ == self@,
    {
        MenuEntry { key: self.key, label: self.label.clone(), action: self.action.clone_action() }
    }
}

/// The first whitespace-separated word of `s` (all of `s` when it has none).
pub open spec fn first_word(s: Seq<char>) -> Seq<char> {
    let a = skip_ws_from(s, 0);
    if a >= s.len() {
        s
    } else {
        s.subrange(a, word_end(s, a))
    }
}

/// What follows the last `/` of `w` (all of `w` when it has none).
pub open spec fn basename(w: Seq<char>) -> Seq<char> {
    w.skip(rfind_before(w, '/', w.len() as int) + 1)
}

/// Display name for a menu command: basename of its first word.
pub open spec fn cmd_name(cmd: Seq<char>) -> Seq<char> {
    basename(first_word(cmd))
}

/// The entry that one line of the menu file gives, if any: blank lines,
/// `#` comments, lines without `:` and lines with an empty command give none.
pub open spec fn menu_line(line: Seq<char>) -> Option<EntryV> {
    let l = trim(line);
    if l.len() == 0 || l[0] == '#' {
        None
    } else {
        let c = find_from(l, ':', 0);
        if c >= l.len() {
            None
        } else {
            let k = trim(l.take(c));
            let cmd = trim(l.skip(c + 1));
            if cmd.len() == 0 {
                None
            } else {
                Some(
                    EntryV {
                        key: if k.len() == 1 { Some(k[0]) } else { None },
                        label: if k.len() == 0 {
                            cmd_name(cmd)
                        } else {
                            k + seq![' ', ' '] + cmd_name(cmd)
                        },
                        action: ActionV::Run(cmd),
                    },
                )
            }
        }
    }
}

/// The entries of a sequence of lines, in order.
pub open spec fn menu_entries(lines: Seq<Seq<char>>) -> Seq<EntryV>
    decreases lines.len(),
{
    if lines.len() == 0 {
        Seq::empty()
    } else {
        (match menu_line(lines[0]) {
            Some(e) => seq![e],
            None => Seq::empty(),
        }) + menu_entries(lines.drop_first())
    }
}

/// The launcher entries of a menu file's text (lines split at `\n`).
pub open spec fn menu_text_entries(txt: Seq<char>) -> Seq<EntryV> {
    menu_entries(split_from(txt, '\n', 0))
}

/// The two built-in entries that end every menu.
pub open spec fn builtin_entries() -> Seq<EntryV> {
    seq![
        EntryV { key: Some('n'), label: "New tab"@, action: ActionV::NewTab },
        EntryV { key: Some('q'), label: "Exit"@, action: ActionV::Exit },
    ]
}

pub open spec fn entries_view(v: Seq<MenuEntry>) -> Seq<EntryV> {
    v.map_values(|e: MenuEntry| e@)
}

/// Append `v[lo..hi]` to `s`.
fn push_range(s: &mut String, v: &Vec<char>, lo: usize, hi: usize)
    requires
        lo <= hi <= v@.len(),
    ensures
        final(s)@ == old(s)@ + v@.subrange(lo as int, hi as int),
{
    let mut i = lo;
    while i < hi
        invariant
            lo <= i <= hi <= v@.len(),
            s@ == old(s)@ + v@.subrange(lo as int, i as int),
        decreases hi - i,
    {
        push_char(s, v[i]);
        assert(s@ =~= old(s)@ + v@.subrange(lo as int, i + 1));
        i += 1;
    }
}

/// The command name of `v[lo..hi]`.
fn cmd_name_range(v: &Vec<char>, lo: usize, hi: usize) -> (r: String)
    requires
        lo <= hi <= v@.len(),
    ensures
        r@ == cmd_name(v@.subrange(lo as int, hi as int)),
{
    let ghost s = v@.subrange(lo as int, hi as int);
    // Start of the first word.
    let mut a = lo;
    while a < hi && is_ws_char(v[a])
        invariant
            lo <= a <= hi <= v@.len(),
            s == v@.subrange(lo as int, hi as int),
            skip_ws_from(s, a - lo) == skip_ws_from(s, 0),
        decreases hi - a,
    {
        a += 1;
    }
    let (w0, w1) = if a >= hi {
        (lo, hi)
    } else {
        let mut e = a;
        while e < hi && !is_ws_char(v[e])
            invariant
                lo <= a <= e <= hi <= v@.len(),
                s == v@.subrange(lo as int, hi as int),
                word_end(s, e - lo) == word_end(s, a - lo),
            decreases hi - e,
        {
            e += 1;
        }
        (a, e)
    };
    let ghost w = v@.subrange(w0 as int, w1 as int);
    assert(first_word(s) =~= w);
    // After the last '/'.
    let mut j = w1;
    while j > w0 && v[j - 1] != '/'
        invariant
            w0 <= j <= w1 <= v@.len(),
            w == v@.subrange(w0 as int, w1 as int),
            rfind_before(w, '/', j - w0) == rfind_before(w, '/', w.len() as int),
        decreases j - w0,
    {
        j -= 1;
    }
    assert(w.skip(rfind_before(w, '/', w.len() as int) + 1) =~= v@.subrange(j as int, w1 as int));
    string_of_range(v, j, w1)
}

/// Display name for a menu command: basename of its first word.
pub fn menu_cmd_name(cmd: &str) -> (r: String)
    ensures
        r@ == cmd_name(cmd@),
{
    let v = chars_of(cmd);
    assert(v@.subrange(0, v@.len() as int) =~= v@);
    cmd_name_range(&v, 0, v.len())
}

/// The entry of the line `v[lo..hi]`, if it has one.
fn line_entry(v: &Vec<char>, lo: usize, hi: usize) -> (r: Option<MenuEntry>)
    requires
        lo <= hi <= v@.len(),
    ensures
        match r {
            Some(e) => menu_line(v@.subrange(lo as int, hi as int)) == Some(e@),
            None => menu_line(v@.subrange(lo as int, hi as int)) is None,
        },
{
    let ghost line = v@.subrange(lo as int, hi as int);
    let (a, b) = trim_range(v, lo, hi);
    let ghost l = v@.subrange(a as int, b as int);
    if a == b || v[a] == '#' {
        return None;
    }
    let c = find_in(v, a, b, a, ':');
    if c >= b {
        return None;
    }
    proof {
        lemma_find_from_bounds(l, ':', 0);
    }
    assert(l.take(c - a) =~= v@.subrange(a as int, c as int));
    assert(l.skip(c - a + 1) =~= v@.subrange(c + 1, b as int));
    let (ka, kb) = trim_range(v, a, c);
    let (ca, cb) = trim_range(v, c + 1, b);
    if ca == cb {
        return None;
    }
    let key = if kb - ka == 1 { Some(v[ka]) } else { None };
    let name = cmd_name_range(v, ca, cb);
    let label = if ka == kb {
        name
    } else {
        let mut s = String::new();
        push_range(&mut s, v, ka, kb);
        push_char(&mut s, ' ');
        push_char(&mut s, ' ');
        let ghost before = s@;
        let nv = chars_of(name.as_str());
        assert(nv@.subrange(0, nv@.len() as int) =~= nv@);
        push_range(&mut s, &nv, 0, nv.len());
        assert(s@ =~= v@.subrange(ka as int, kb as int) + seq![' ', ' '] + name@);
        s
    };
    let cmd = string_of_range(v, ca, cb);
    Some(MenuEntry { key, label, action: MenuAction::Run(cmd) })
}

/// Parse the launcher section of a menu file (`key: command` per line).
pub fn parse_menu_text(txt: &str) -> (r: Vec<MenuEntry>)
    ensures
        entries_view(r@) == menu_text_entries(txt@),
{
    let v = chars_of(txt);
    let n = v.len();
    let ghost s = v@;
    assert(v@.subrange(0, n as int) =~= s);
    let mut out: Vec<MenuEntry> = Vec::new();
    let mut i: usize = 0;
    loop
        invariant_except_break
            menu_entries(split_from(s, '\n', 0)) == entries_view(out@) + menu_entries(
                split_from(s, '\n', i as int),
            ),
        invariant
            i <= n,
            n == s.len(),
            v@ == s,
            s == txt@,
            s.subrange(0, n as int) == s,
        ensures
            menu_entries(split_from(s, '\n', 0)) == entries_view(out@),
        decreases n - i,
    {
        let e = find_in(&v, 0, n, i, '\n');
        proof {
            lemma_find_from_bounds(s, '\n', i as int);
        }
        let ghost pieces = split_from(s, '\n', i as int);
        let ghost piece = s.subrange(i as int, e as int);
        let ghost before = entries_view(out@);
        let entry = line_entry(&v, i, e);
        let ghost got: Seq<EntryV> = match menu_line(piece) {
            Some(x) => seq![x],
            None => Seq::empty(),
        };
        match entry {
            Some(x) => {
                out.push(x);
            },
            None => {},
        }
        assert(entries_view(out@) =~= before + got);
        if e >= n {
            assert(pieces == seq![piece]);
            assert(menu_entries(pieces) =~= got + menu_entries(pieces.drop_first()));
            assert(pieces.drop_first() =~= Seq::<Seq<char>>::empty());
            assert(menu_entries(pieces) =~= got);
            assert(before + got =~= entries_view(out@));
            break;
        }
        assert(pieces == seq![piece] + split_from(s, '\n', e + 1));
        assert(pieces.drop_first() =~= split_from(s, '\n', e + 1));
        assert(menu_entries(pieces) == got + menu_entries(split_from(s, '\n', e + 1)));
        assert(entries_view(out@) + menu_entries(split_from(s, '\n', e + 1)) =~= before + (got
            + menu_entries(split_from(s, '\n', e + 1))));
        i = e + 1;
    }
    out
}

/// The full menu: entries of the menu file's text (none when there is no
/// readable file), then "New tab" and "Exit".
pub fn menu_entries_from(txt: Option<&str>) -> (r: Vec<MenuEntry>)
    ensures
        entries_view(r@) == (match txt {
            Some(t) => menu_text_entries(t@),
            None => Seq::empty(),
        }) + builtin_entries(),
{
    let mut v = match txt {
        Some(t) => parse_menu_text(t),
        None => Vec::new(),
    };
    let ghost before = entries_view(v@);
    let new_tab = String::from_str("New tab");
    let exit = String::from_str("Exit");
    v.push(MenuEntry { key: Some('n'), label: new_tab, action: MenuAction::NewTab });
    v.push(MenuEntry { key: Some('q'), label: exit, action: MenuAction::Exit });
    assert(entries_view(v@) =~= before + builtin_entries());
    v
}

/// `base` extended by the relative path `seg`: a `/` goes between them
/// unless `base` is empty or already ends with one.
pub open spec fn join_path(base: Seq<char>, seg: Seq<char>) -> Seq<char> {
    if base.len() == 0 {
        seg
    } else if base.last() == '/' {
        base + seg
    } else {
        base + seq!['/'] + seg
    }
}

pub open spec fn opt_chars(o: Option<&str>) -> Option<Seq<char>> {
    match o {
        Some(t) => Some(t@),
        None => None,
    }
}

/// Where the Start menu file is: `$TASQVIEW_MENU` when set and not empty;
/// else `tasqview/menu` under `$XDG_CONFIG_HOME` when that is set and not
/// empty; else under `$HOME/.config` (an unset `HOME` counts as empty).
pub open spec fn menu_path(menu: Option<Seq<char>>, xdg: Option<Seq<char>>, home: Option<Seq<char>>) -> Seq<char> {
    if menu is Some && menu->0.len() > 0 {
        menu->0
    } else {
        let base = if xdg is Some && xdg->0.len() > 0 {
            xdg->0
        } else {
            (if home is Some { home->0 } else { Seq::empty() }) + "/.config"@
        };
        join_path(join_path(base, "tasqview"@), "menu"@)
    }
}

/// `base` (the characters `v`) extended by the relative path `seg`.
fn push_path(v: &mut String, seg: &str)
    ensures
        final(v)@ == join_path(old(v)@, seg@),
{
    let cs = chars_of(v.as_str());
    if cs.len() > 0 && cs[cs.len() - 1] != '/' {
        push_char(v, '/');
    }
    push_str(v, seg);
    assert(final(v)@ =~= join_path(old(v)@, seg@));
}

/// The path of the Start menu file, from the values of the environment
/// variables `TASQVIEW_MENU`, `XDG_CONFIG_HOME` and `HOME` (`None`: unset).
pub fn menu_file_path(menu: Option<&str>, xdg: Option<&str>, home: Option<&str>) -> (p: String)
    ensures
        p@ == menu_path(opt_chars(menu), opt_chars(xdg), opt_chars(home)),
{
    if let Some(m) = menu {
        if chars_of(m).len() > 0 {
            return String::from_str(m);
        }
    }
    let mut base = String::new();
    let mut have_xdg = false;
    if let Some(x) = xdg {
        if chars_of(x).len() > 0 {
            push_str(&mut base, x);
            have_xdg = true;
        }
    }
    if !have_xdg {
        if let Some(h) = home {
            push_str(&mut base, h);
        }
        push_str(&mut base, "/.config");
    }
    assert(base@ =~= (if opt_chars(xdg) is Some && opt_chars(xdg)->0.len() > 0 {
        opt_chars(xdg)->0
    } else {
        (if opt_chars(home) is Some { opt_chars(home)->0 } else { Seq::empty() }) + "/.config"@
    }));
    push_path(&mut base, "tasqview");
    push_path(&mut base, "menu");
    base
}

} // verus!
