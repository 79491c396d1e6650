//! The multiplexer state machine: what each input event does to the tabs,
//! the selection, the clipboard, the Start menu and the prompts, and which
//! outside effects (writes to a session, spawning, closing, scrolling an
//! emulator) it asks for. The program around it performs those effects.

use vstd::prelude::*;
use crate::clipboard::Clipboard;
use crate::fmt::{dec_chars, push_dec};
use crate::grid::ScreenSnap;
use crate::input::{Event, Parser};
use crate::keys::{key_bytes, key_seq};
use crate::menu::{EntryV, ActionV, MenuEntry, MenuAction, entries_view, menu_entries_from, menu_text_entries, builtin_entries};
use crate::screen::{Canvas, CellV, blanks, row_of, frame_bytes, park_bytes, color_index, vt_color};
use crate::grid::VtCell;
use crate::taskbar::{draw, paint, with_row, overlay, run, bar_row, bar_buttons, tray_col, tray_text, pad_right, sessions_v, lemma_with_row_row, lemma_with_row_twice, lemma_row_bounds, lemma_overlay_step, extend_chars, GRAY, GRAY_DARK, WHITE, BLACK, RED};
use crate::text::chars_of;
use crate::selection::Sel;
use crate::taskbar::{Button, Layout};
use crate::text::{push_char, push_str};

use vstd::utf8::encode_utf8;

use vstd::arithmetic::div_mod::{lemma_fundamental_div_mod, lemma_mod_multiples_vanish, lemma_small_mod, lemma_mod_pos_bound};

verus! {

broadcast use vstd::string::group_string_axioms;

/// Least width of the Start menu popup.
pub const MENU_MIN_WIDTH: usize = 14;

/// Multiplexer shortcuts.
#[derive(Clone, Copy, PartialEq, Eq, Structural)]
pub enum CtrlAction {
    Copy,
    Paste,
    NewSession,
    CloseSession,
    Quit,
    ToggleSelect,
}

/// Keyboard selection mode: the caret, and whether arrows extend the
/// selection.
#[derive(Clone, Copy, PartialEq, Eq, Structural)]
pub struct KeySel {
    pub r: u16,
    pub c: u16,
    pub anchored: bool,
}

/// What the multiplexer keeps per session.
#[derive(Clone, Copy, PartialEq, Eq, Structural)]
pub struct Tab {
    /// Current view offset into the scrollback (0 = live screen).
    pub scroll: usize,
    /// Last recorded scrollback size, to keep a scrolled view anchored.
    pub last_scroll_total: usize,
}

/// An outside effect asked for by the state machine.
pub enum Effect {
    /// Write bytes to the input of session `tab`.
    Write { tab: usize, bytes: Vec<u8> },
    /// Set the scrollback view offset of session `tab`'s emulator.
    SetScroll { tab: usize, offset: usize },
    /// Spawn a shell session numbered `id`, then report with `spawned`.
    Spawn { id: usize },
    /// Spawn `cmd` under the shell as session `id`, then report with
    /// `spawned_cmd`.
    SpawnCmd { id: usize, cmd: String },
    /// Hang up and drop session `tab` (already gone from the tab list).
    Close { tab: usize },
    /// Read the menu file and hand its text to `open_menu`.
    LoadMenu,
    /// A toast was set: note the time it appeared.
    Toast,
}

/// The value of an effect.
pub enum EffectV {
    Write(usize, Seq<u8>),
    SetScroll(usize, usize),
    Spawn(usize),
    SpawnCmd(usize, Seq<char>),
    Close(usize),
    LoadMenu,
    Toast,
}

impl View for Effect {
    type V = EffectV;

    open spec fn view(&self) -> EffectV {
        match self {
            Effect::Write { tab, bytes } => EffectV::Write(*tab, bytes@),
            Effect::SetScroll { tab, offset } => EffectV::SetScroll(*tab, *offset),
            Effect::Spawn { id } => EffectV::Spawn(*id),
            Effect::SpawnCmd { id, cmd } => EffectV::SpawnCmd(*id, cmd@),
            Effect::Close { tab } => EffectV::Close(*tab),
            Effect::LoadMenu => EffectV::LoadMenu,
            Effect::Toast => EffectV::Toast,
        }
    }
}

/// The multiplexer.
pub struct App {
    pub rows: usize,
    pub cols: usize,
    pub view_rows: usize,
    pub view_cols: usize,
    pub canvas: Canvas,
    pub tabs: Vec<Tab>,
    pub active: usize,
    pub inptr: Parser,
    pub sel: Sel,
    pub keysel: Option<KeySel>,
    pub clip: Clipboard,
    /// Running on a kernel VT (Ctrl+Shift chords can be told apart).
    pub on_console: bool,
    pub quit: bool,
    pub layout: Layout,
    /// Transient status message.
    pub toast: Option<String>,
    /// Start menu: the selected entry while it is open.
    pub menu: Option<usize>,
    /// Entries of the open menu.
    pub menu_cache: Vec<MenuEntry>,
    /// After the Ctrl+B prefix key, waiting for the command key.
    pub prefix: bool,
    /// After a quit request, waiting for y/n.
    pub quit_confirm: bool,
    /// Effects asked for and not yet taken.
    pub outbox: Vec<Effect>,
}

/// The logical state of the multiplexer.
pub struct AppV {
    pub rows: usize,
    pub cols: usize,
    pub view_rows: usize,
    pub view_cols: usize,
    pub tabs: Seq<Tab>,
    pub active: usize,
    pub sel: Sel,
    pub keysel: Option<KeySel>,
    pub clip: Seq<char>,
    pub on_console: bool,
    pub quit: bool,
    pub buttons: Seq<Button>,
    pub tray0: usize,
    pub start_c0: usize,
    pub start_c1: usize,
    pub toast: Option<Seq<char>>,
    pub menu: Option<usize>,
    pub menu_cache: Seq<EntryV>,
    pub prefix: bool,
    pub quit_confirm: bool,
    pub out: Seq<EffectV>,
}

pub open spec fn opt_str(o: Option<String>) -> Option<Seq<char>> {
    match o {
        Some(s) => Some(s@),
        None => None,
    }
}

impl View for App {
    type V = AppV;

    open spec fn view(&self) -> AppV {
        AppV {
            rows: self.rows,
            cols: self.cols,
            view_rows: self.view_rows,
            view_cols: self.view_cols,
            tabs: self.tabs@,
            active: self.active,
            sel: self.sel,
            keysel: self.keysel,
            clip: self.clip.text@,
            on_console: self.on_console,
            quit: self.quit,
            buttons: self.layout.buttons@,
            tray0: self.layout.tray0,
            start_c0: self.layout.start_c0,
            start_c1: self.layout.start_c1,
            toast: opt_str(self.toast),
            menu: self.menu,
            menu_cache: entries_view(self.menu_cache@),
            prefix: self.prefix,
            quit_confirm: self.quit_confirm,
            out: self.outbox@.map_values(|e: Effect| e@),
        }
    }
}

/// The session view takes every row but the taskbar's (at least one).
pub open spec fn view_rows_of(rows: int) -> int {
    if rows > 1 {
        rows - 1
    } else {
        1
    }
}

/// `max(len, 1)`: the Start menu always has room for one line.
pub open spec fn menu_len_of(n: int) -> int {
    if n < 1 {
        1
    } else {
        n
    }
}

impl AppV {
    /// Sizes agree, the active tab exists, and the menu selection is a line
    /// of the menu.
    pub open spec fn wf(&self) -> bool {
        &&& 1 <= self.rows <= 65535
        &&& 1 <= self.cols <= 65535
        &&& self.view_rows == view_rows_of(self.rows as int)
        &&& self.view_cols == self.cols
        &&& (self.tabs.len() > 0 ==> self.active < self.tabs.len())
        &&& (self.menu matches Some(m) ==> m < menu_len_of(self.menu_cache.len() as int))
        &&& self.tabs.len() < usize::MAX
    }
}

impl App {
    pub open spec fn wf(&self) -> bool {
        &&& self@.wf()
        &&& self.canvas.wf()
        &&& self.canvas.rows == self.rows
        &&& self.canvas.cols == self.cols
    }

    /// The canvas and the input decoder are untouched.
    pub open spec fn keeps_io(&self, o: &App) -> bool {
        &&& self.canvas == o.canvas
        &&& self.inptr == o.inptr
    }
}

// ---------------------------------------------------------------------
// Messages.

pub open spec fn msg_quit(n: nat) -> Seq<char> {
    "quit tasqview? "@ + dec_chars(n) + " session(s) will close  [y/n]"@
}

pub open spec fn msg_copied(n: nat) -> Seq<char> {
    "copied "@ + dec_chars(n) + " chars"@
}

pub open spec fn msg_pasted(n: nat) -> Seq<char> {
    "pasted "@ + dec_chars(n) + " chars"@
}

pub open spec fn msg_select() -> Seq<char> {
    "SELECT: arrows extend · Space re-anchors · Enter/y copy · Esc cancel"@
}

/// "<prefix><n><suffix>".
fn counted_msg(prefix: &str, n: u64, suffix: &str) -> (s: String)
    ensures
        s@ == prefix@ + dec_chars(n as nat) + suffix@,
{
    let mut s = String::from_str(prefix);
    push_dec(&mut s, n);
    push_str(&mut s, suffix);
    s
}

// ---------------------------------------------------------------------
// State transitions (as functions of the logical state).

pub open spec fn emit_v(s: AppV, e: EffectV) -> AppV {
    AppV { out: s.out.push(e), ..s }
}

/// Show a toast.
pub open spec fn toast_v(s: AppV, msg: Seq<char>) -> AppV {
    AppV { toast: Some(msg), out: s.out.push(EffectV::Toast), ..s }
}

/// Ask before tearing down every session.
pub open spec fn request_quit_v(s: AppV) -> AppV {
    toast_v(
        AppV { menu: None, prefix: false, quit_confirm: true, ..s },
        msg_quit(s.tabs.len()),
    )
}

/// Open a new shell tab (the spawn is reported back later).
pub open spec fn new_session_v(s: AppV) -> AppV {
    emit_v(s, EffectV::Spawn((s.tabs.len() + 1) as usize))
}

pub open spec fn cleared(sel: Sel) -> Sel {
    Sel { have: false, active: false, ..sel }
}

/// Close the active tab.
pub open spec fn close_active_v(s: AppV) -> AppV {
    if s.tabs.len() == 0 {
        s
    } else {
        let tabs = s.tabs.remove(s.active as int);
        let t = AppV { tabs, sel: cleared(s.sel), out: s.out.push(EffectV::Close(s.active)), ..s };
        if tabs.len() == 0 {
            AppV { quit: true, ..t }
        } else {
            AppV { active: if s.active < tabs.len() { s.active } else { (tabs.len() - 1) as usize }, ..t }
        }
    }
}

/// Focus the next tab (cyclically).
pub open spec fn next_tab_v(s: AppV) -> AppV {
    if s.tabs.len() > 1 {
        AppV { active: ((s.active + 1) % (s.tabs.len() as int)) as usize, ..s }
    } else {
        s
    }
}

/// Write bytes to the active session.
pub open spec fn write_active_v(s: AppV, bytes: Seq<u8>) -> AppV {
    emit_v(s, EffectV::Write(s.active, bytes))
}

/// Copy the selection (as the active screen shows it) to the clipboard.
pub open spec fn copy_v(s: AppV, scr: ScreenSnap) -> AppV {
    if s.tabs.len() == 0 {
        s
    } else if !s.sel.have {
        toast_v(s, "nothing selected"@)
    } else {
        let text = s.sel.text(scr, s.view_rows as u16 as int, s.view_cols as u16 as int);
        if text.len() == 0 {
            toast_v(s, "nothing selected"@)
        } else {
            toast_v(AppV { clip: text, sel: cleared(s.sel), ..s }, msg_copied(text.len()))
        }
    }
}

/// The bytes pasted: the clipboard text, bracketed when the program asked
/// for bracketed paste.
pub open spec fn paste_bytes(text: Seq<char>, bracketed: bool) -> Seq<u8> {
    if bracketed {
        seq![0x1bu8, 0x5bu8, 0x32u8, 0x30u8, 0x30u8, 0x7eu8] + encode_utf8(text) + seq![
            0x1bu8,
            0x5bu8,
            0x32u8,
            0x30u8,
            0x31u8,
            0x7eu8,
        ]
    } else {
        encode_utf8(text)
    }
}

/// Paste the clipboard into the active session.
pub open spec fn paste_v(s: AppV, scr: ScreenSnap) -> AppV {
    if s.tabs.len() == 0 {
        s
    } else if s.clip.len() == 0 {
        toast_v(s, "clipboard empty"@)
    } else {
        toast_v(
            write_active_v(s, paste_bytes(s.clip, scr.bracketed_paste)),
            msg_pasted(s.clip.len()),
        )
    }
}

/// `min(x, hi)` for view coordinates.
pub open spec fn clamp_to(x: int, hi: int) -> int {
    if x < hi {
        x
    } else {
        hi
    }
}

/// Enter keyboard selection mode at the cursor.
pub open spec fn enter_select_v(s: AppV, scr: ScreenSnap) -> AppV {
    if s.tabs.len() == 0 {
        s
    } else {
        let r = clamp_to(scr.cursor.0 as int, s.view_rows - 1) as u16;
        let c = clamp_to(scr.cursor.1 as int, s.view_cols - 1) as u16;
        toast_v(
            AppV {
                sel: Sel { have: true, active: true, start: (r, c), end: (r, c) },
                keysel: Some(KeySel { r, c, anchored: true }),
                ..s
            },
            msg_select(),
        )
    }
}

/// Toggle keyboard selection mode.
pub open spec fn toggle_select_v(s: AppV, scr: ScreenSnap) -> AppV {
    if s.keysel is Some {
        toast_v(AppV { keysel: None, sel: cleared(s.sel), ..s }, "select cancelled"@)
    } else {
        enter_select_v(s, scr)
    }
}

/// `v` clamped into `[0, hi]`.
pub open spec fn clamp_int(v: int, hi: int) -> int {
    if v < 0 {
        0
    } else if v > hi {
        hi
    } else {
        v
    }
}

/// Move the keyboard caret, extending the selection when anchored.
pub open spec fn keysel_move_v(s: AppV, dr: int, dc: int) -> AppV {
    match s.keysel {
        None => s,
        Some(ks) => {
            let nr = clamp_int(ks.r + dr, s.view_rows - 1) as u16;
            let nc = clamp_int(ks.c + dc, s.view_cols - 1) as u16;
            AppV {
                keysel: Some(KeySel { r: nr, c: nc, anchored: ks.anchored }),
                sel: if ks.anchored && s.sel.active {
                    Sel { end: (nr, nc), ..s.sel }
                } else {
                    s.sel
                },
                ..s
            }
        },
    }
}

/// Drop a fresh anchor at the caret.
pub open spec fn keysel_reanchor_v(s: AppV) -> AppV {
    match s.keysel {
        None => s,
        Some(ks) => toast_v(
            AppV { sel: Sel { have: true, active: true, start: (ks.r, ks.c), end: (ks.r, ks.c) }, ..s },
            "anchor set · arrows extend"@,
        ),
    }
}

/// Copy in keyboard selection mode, then leave it.
pub open spec fn keysel_copy_v(s: AppV, scr: ScreenSnap) -> AppV {
    if s.keysel is None {
        s
    } else {
        let t = copy_v(AppV { sel: Sel { active: false, ..s.sel }, ..s }, scr);
        AppV { keysel: None, ..t }
    }
}

/// Leave keyboard selection mode.
pub open spec fn keysel_cancel_v(s: AppV) -> AppV {
    AppV { keysel: None, sel: cleared(s.sel), ..s }
}

/// Run a shortcut.
pub open spec fn action_v(s: AppV, a: CtrlAction, scr: ScreenSnap) -> AppV {
    match a {
        CtrlAction::Copy => copy_v(s, scr),
        CtrlAction::Paste => paste_v(s, scr),
        CtrlAction::NewSession => new_session_v(s),
        CtrlAction::CloseSession => close_active_v(s),
        CtrlAction::Quit => request_quit_v(s),
        CtrlAction::ToggleSelect => toggle_select_v(s, scr),
    }
}

/// A control byte that is a shortcut: Ctrl+Shift+T/W/X/S, only on a kernel
/// VT while Shift is held. Ctrl+C and Ctrl+V always reach the program.
pub open spec fn ctrl_action_v(on_console: bool, shift: bool, b: u8) -> Option<CtrlAction> {
    if on_console && shift {
        if b == 0x14 {
            Some(CtrlAction::NewSession)
        } else if b == 0x17 {
            Some(CtrlAction::CloseSession)
        } else if b == 0x18 {
            Some(CtrlAction::Quit)
        } else if b == 0x13 {
            Some(CtrlAction::ToggleSelect)
        } else {
            None
        }
    } else {
        None
    }
}

/// Alt+C/V/T/W/S/X (either case) are shortcuts.
pub open spec fn alt_action_v(a: u8) -> Option<CtrlAction> {
    if a == 0x43 || a == 0x63 {
        Some(CtrlAction::Copy)
    } else if a == 0x56 || a == 0x76 {
        Some(CtrlAction::Paste)
    } else if a == 0x54 || a == 0x74 {
        Some(CtrlAction::NewSession)
    } else if a == 0x57 || a == 0x77 {
        Some(CtrlAction::CloseSession)
    } else if a == 0x53 || a == 0x73 {
        Some(CtrlAction::ToggleSelect)
    } else if a == 0x58 || a == 0x78 {
        Some(CtrlAction::Quit)
    } else {
        None
    }
}

/// The Start menu popup width: longest label plus two, at least
/// `MENU_MIN_WIDTH`, at most the view width.
pub open spec fn menu_width_v(labels: Seq<EntryV>, view_cols: int) -> int {
    let w0 = longest_label(labels) + 2;
    let w1 = if w0 < 14 { 14 } else { w0 };
    let cap = if view_cols < 1 { 1 } else { view_cols };
    if w1 < cap {
        w1
    } else {
        cap
    }
}

/// The longest label (in characters), 0 for none.
pub open spec fn longest_label(labels: Seq<EntryV>) -> int
    decreases labels.len(),
{
    if labels.len() == 0 {
        0
    } else {
        let rest = longest_label(labels.drop_last());
        let l = labels.last().label.len() as int;
        if l > rest {
            l
        } else {
            rest
        }
    }
}

/// Move the menu selection by `d` (cyclically).
pub open spec fn menu_move_v(s: AppV, d: int) -> AppV {
    match s.menu {
        None => s,
        Some(m) => {
            let n = menu_len_of(s.menu_cache.len() as int);
            AppV { menu: Some(((m + n + d) % n) as usize), ..s }
        },
    }
}

/// Choose the selected menu entry (the menu closes).
pub open spec fn menu_activate_v(s: AppV) -> AppV {
    match s.menu {
        None => s,
        Some(m) => {
            let t = AppV { menu: None, ..s };
            if m < s.menu_cache.len() {
                match s.menu_cache[m as int].action {
                    ActionV::NewTab => new_session_v(t),
                    ActionV::Exit => request_quit_v(t),
                    ActionV::Run(cmd) => emit_v(t, EffectV::SpawnCmd((s.tabs.len() + 1) as usize, cmd)),
                }
            } else {
                t
            }
        },
    }
}

/// A click while the menu is open: on a menu line it chooses that line,
/// anywhere else it closes the menu.
pub open spec fn menu_click_v(s: AppV, col: u16, row: u16) -> AppV {
    let n = menu_len_of(s.menu_cache.len() as int);
    let w = menu_width_v(s.menu_cache, s.view_cols as int);
    let r0 = if s.view_rows - n < 0 { 0 } else { s.view_rows - n };
    if row >= r0 && row < s.view_rows && col < w {
        menu_activate_v(AppV { menu: Some((row - r0) as usize), ..s })
    } else {
        AppV { menu: None, ..s }
    }
}

/// The first taskbar button, at or after `i`, under column `col` whose
/// session still exists: `(index, hit its close marker)`.
pub open spec fn button_hit(buttons: Seq<Button>, ntabs: int, col: usize, i: int) -> Option<(usize, bool)>
    decreases buttons.len() - i,
{
    if i < 0 || i >= buttons.len() {
        None
    } else {
        let b = buttons[i];
        if b.idx >= ntabs {
            button_hit(buttons, ntabs, col, i + 1)
        } else if b.close == Some(col) {
            Some((b.idx, true))
        } else if b.c0 <= col && col <= b.c1 {
            Some((b.idx, false))
        } else {
            button_hit(buttons, ntabs, col, i + 1)
        }
    }
}

/// A mouse press outside the menu: the Start button opens the menu (which is
/// read afresh), a taskbar button focuses or closes its tab, a press in the
/// view starts a selection.
pub open spec fn mouse_press_v(s: AppV, col: u16, row: u16) -> AppV {
    if row as int == s.view_rows {
        if s.start_c0 <= col && col <= s.start_c1 {
            if s.menu is Some {
                AppV { menu: None, ..s }
            } else {
                emit_v(s, EffectV::LoadMenu)
            }
        } else {
            match button_hit(s.buttons, s.tabs.len() as int, col as usize, 0) {
                Some((i, true)) => close_active_v(AppV { active: i, ..s }),
                Some((i, false)) => AppV { active: i, ..s },
                None => s,
            }
        }
    } else if row < s.view_rows && col < s.view_cols {
        AppV { sel: Sel { have: true, active: true, start: (row, col), end: (row, col) }, ..s }
    } else {
        s
    }
}

/// Extend a drag within the view.
pub open spec fn drag_to(s: AppV, col: u16, row: u16) -> Sel {
    if row < s.view_rows as u16 && col < s.view_cols as u16 && s.sel.active {
        Sel { end: (row, col), ..s.sel }
    } else {
        s.sel
    }
}

/// Scroll the active tab's view to `target` (clamped to the `total` lines of
/// scrollback), recording the total.
pub open spec fn scroll_to_v(s: AppV, target: int, total: usize) -> AppV {
    let off = (if target < total { target } else { total as int }) as usize;
    AppV {
        tabs: s.tabs.update(s.active as int, Tab { scroll: off, last_scroll_total: total }),
        out: s.out.push(EffectV::SetScroll(s.active, off)),
        ..s
    }
}

/// Key bytes for the active program.
pub open spec fn typed_v(s: AppV, bytes: Seq<u8>) -> AppV {
    if bytes.len() > 0 && s.tabs.len() > 0 {
        let t = if s.sel.have && !s.sel.active { AppV { sel: cleared(s.sel), ..s } } else { s };
        write_active_v(t, bytes)
    } else {
        s
    }
}

/// What the outside world tells the state machine with each event: the
/// active session's screen, its scrollback length, and whether Shift is held
/// (sampled on a kernel VT).
pub struct Env {
    pub screen: ScreenSnap,
    pub scrollback_len: usize,
    pub shift: bool,
}

/// The first menu entry at or after `i` whose accelerator is `ch`.
pub open spec fn accel_from(entries: Seq<EntryV>, ch: char, i: int) -> Option<int>
    decreases entries.len() - i,
{
    if i < 0 || i >= entries.len() {
        None
    } else if entries[i].key == Some(ch) {
        Some(i)
    } else {
        accel_from(entries, ch, i + 1)
    }
}

/// An event while keyboard selection mode is on.
pub open spec fn keysel_event_v(s: AppV, ev: Event, scr: ScreenSnap) -> AppV {
    match ev {
        Event::Up => keysel_move_v(s, -1, 0),
        Event::Down => keysel_move_v(s, 1, 0),
        Event::Left => keysel_move_v(s, 0, -1),
        Event::Right => keysel_move_v(s, 0, 1),
        Event::Home => keysel_move_v(s, 0, -(s.view_cols as int)),
        Event::End => keysel_move_v(s, 0, s.view_cols as int),
        Event::PageUp => keysel_move_v(s, -(s.view_rows as int), 0),
        Event::PageDown => keysel_move_v(s, s.view_rows as int, 0),
        Event::Byte(b) => if b == 0x20 {
            keysel_reanchor_v(s)
        } else if b == 0x0d || b == 0x0a || b == 0x79 || b == 0x03 {
            keysel_copy_v(s, scr)
        } else if b == 0x1b {
            keysel_cancel_v(s)
        } else {
            s
        },
        Event::Esc => keysel_cancel_v(s),
        _ => s,
    }
}

/// The command key after the Ctrl+B prefix.
pub open spec fn prefix_event_v(s: AppV, ev: Event, scr: ScreenSnap) -> AppV {
    let s = AppV { prefix: false, ..s };
    match ev {
        Event::Byte(b) => if b == 0x63 || b == 0x03 {
            copy_v(s, scr)
        } else if b == 0x76 || b == 0x16 {
            paste_v(s, scr)
        } else if b == 0x73 || b == 0x13 {
            toggle_select_v(s, scr)
        } else if b == 0x74 || b == 0x14 {
            new_session_v(s)
        } else if b == 0x77 || b == 0x17 {
            close_active_v(s)
        } else if b == 0x78 || b == 0x18 {
            request_quit_v(s)
        } else if b == 0x6e {
            next_tab_v(s)
        } else if b == 0x02 {
            if s.tabs.len() > 0 {
                write_active_v(s, seq![0x02u8])
            } else {
                s
            }
        } else {
            toast_v(s, "prefix cancelled"@)
        },
        _ => toast_v(s, "prefix cancelled"@),
    }
}

/// An event while the Start menu is open.
pub open spec fn menu_event_v(s: AppV, ev: Event) -> AppV {
    match ev {
        Event::Up => menu_move_v(s, -1),
        Event::Down => menu_move_v(s, 1),
        Event::Byte(b) => if b == 0x0d {
            menu_activate_v(s)
        } else if 0x20 <= b && b < 0x7f {
            match accel_from(s.menu_cache, b as char, 0) {
                Some(i) => menu_activate_v(AppV { menu: Some(i as usize), ..s }),
                None => s,
            }
        } else {
            s
        },
        Event::Esc => AppV { menu: None, ..s },
        Event::MousePress { col, row } => menu_click_v(s, col, row),
        _ => s,
    }
}

/// An event in normal mode.
pub open spec fn normal_event_v(s: AppV, ev: Event, env: Env) -> AppV {
    let scr = env.screen;
    let total = env.scrollback_len;
    match ev {
        Event::Byte(b) => if b == 0x02 {
            toast_v(AppV { prefix: true, ..s }, "prefix: c/v s(elect) t/w x n"@)
        } else {
            match ctrl_action_v(s.on_console, env.shift, b) {
                Some(a) => action_v(s, a, scr),
                None => typed_v(s, seq![b]),
            }
        },
        Event::AltByte(a) => match alt_action_v(a) {
            Some(x) => action_v(s, x, scr),
            None => typed_v(s, seq![0x1bu8, a]),
        },
        Event::Esc => if s.tabs.len() > 0 && s.tabs[s.active as int].scroll > 0 {
            let t = scroll_to_v(s, 0, total);
            AppV { tabs: t.tabs.update(s.active as int, Tab { scroll: 0, last_scroll_total: 0 }), ..t }
        } else {
            typed_v(s, seq![0x1bu8])
        },
        Event::AltTab => next_tab_v(s),
        Event::PageUp => if s.tabs.len() > 0 {
            scroll_to_v(s, s.tabs[s.active as int].scroll + s.view_rows, total)
        } else {
            s
        },
        Event::PageDown => if s.tabs.len() > 0 && s.tabs[s.active as int].scroll > 0 {
            let sc = s.tabs[s.active as int].scroll;
            scroll_to_v(s, if sc < s.view_rows { 0 } else { sc - s.view_rows }, total)
        } else {
            s
        },
        Event::MousePress { col, row } => mouse_press_v(s, col, row),
        Event::MouseDrag { col, row } => AppV { sel: drag_to(s, col, row), ..s },
        Event::MouseRelease { col, row } => AppV { sel: Sel { active: false, ..drag_to(s, col, row) }, ..s },
        Event::WheelUp { col, row } => if (row as int) < s.view_rows && s.tabs.len() > 0 {
            scroll_to_v(s, s.tabs[s.active as int].scroll + 3, total)
        } else {
            s
        },
        Event::WheelDown { col, row } => if (row as int) < s.view_rows && s.tabs.len() > 0
            && s.tabs[s.active as int].scroll > 0 {
            let sc = s.tabs[s.active as int].scroll;
            scroll_to_v(s, if sc < 3 { 0 } else { sc - 3 }, total)
        } else {
            s
        },
        _ => if s.tabs.len() > 0 {
            typed_v(s, key_seq(scr.application_cursor, ev))
        } else {
            s
        },
    }
}

/// What an input event does.
pub open spec fn on_event_v(s: AppV, ev: Event, env: Env) -> AppV {
    if s.quit_confirm {
        let t = AppV { quit_confirm: false, ..s };
        if ev == Event::Byte(0x79) || ev == Event::Byte(0x59) {
            AppV { quit: true, ..t }
        } else {
            toast_v(t, "quit cancelled"@)
        }
    } else if s.keysel is Some {
        keysel_event_v(s, ev, env.screen)
    } else if s.prefix {
        prefix_event_v(s, ev, env.screen)
    } else if s.menu is Some {
        menu_event_v(s, ev)
    } else {
        normal_event_v(s, ev, env)
    }
}


/// Once the spawn of a shell tab is reported: a new tab becomes active.
pub open spec fn spawned_v(s: AppV, ok: bool) -> AppV {
    if ok {
        AppV {
            tabs: s.tabs.push(Tab { scroll: 0, last_scroll_total: 0 }),
            active: s.tabs.len() as usize,
            sel: cleared(s.sel),
            ..s
        }
    } else {
        s
    }
}

/// Once the spawn of a command tab is reported.
pub open spec fn spawned_cmd_v(s: AppV, ok: bool) -> AppV {
    if ok {
        spawned_v(s, ok)
    } else {
        toast_v(s, "failed to launch"@)
    }
}

impl App {
    /// A multiplexer for a `rows x cols` terminal, with no tabs yet.
    pub fn new(rows: usize, cols: usize, on_console: bool) -> (a: App)
        requires
            1 <= rows <= 65535,
            1 <= cols <= 65535,
        ensures
            a.wf(),
            a.rows == rows,
            a.cols == cols,
            a.view_rows == view_rows_of(rows as int),
            a.view_cols == cols,
            a.tabs@.len() == 0,
            a.active == 0,
            !a.sel.have,
            a.keysel is None,
            a.clip.text@.len() == 0,
            a.on_console == on_console,
            !a.quit,
            a.layout.buttons@.len() == 0,
            a.toast is None,
            a.menu is None,
            a.menu_cache@.len() == 0,
            !a.prefix,
            !a.quit_confirm,
            a.outbox@.len() == 0,
            a.inptr.pending@.len() == 0,
            !a.inptr.lone_esc,
    {
        let view_rows = if rows > 1 { rows - 1 } else { 1 };
        proof {
            assert(rows * cols <= 65535 * 65535) by (nonlinear_arith)
                requires
                    rows <= 65535,
                    cols <= 65535,
            ;
        }
        App {
            rows,
            cols,
            view_rows,
            view_cols: cols,
            canvas: Canvas::new(rows, cols),
            tabs: Vec::new(),
            active: 0,
            inptr: Parser::new(),
            sel: Sel::new(),
            keysel: None,
            clip: Clipboard::new(),
            on_console,
            quit: false,
            layout: Layout::new(),
            toast: None,
            menu: None,
            menu_cache: Vec::new(),
            prefix: false,
            quit_confirm: false,
            outbox: Vec::new(),
        }
    }

    /// Hand over the effects asked for so far.
    pub fn take_effects(&mut self) -> (e: Vec<Effect>)
        ensures
            e@ == old(self).outbox@,
            final(self)@ == (AppV { out: Seq::empty(), ..old(self)@ }),
            final(self).wf() == old(self).wf(),
            final(self).keeps_io(old(self)),
    {
        let mut e: Vec<Effect> = Vec::new();
        std::mem::swap(&mut e, &mut self.outbox);
        assert(self@.out =~= Seq::<EffectV>::empty());
        e
    }

    fn emit(&mut self, e: Effect)
        ensures
            final(self)@ == emit_v(old(self)@, e@),
            final(self).wf() == old(self).wf(),
            final(self).keeps_io(old(self)),
    {
        let ghost o = self.outbox@;
        self.outbox.push(e);
        assert(self.outbox@.map_values(|e: Effect| e@) =~= o.map_values(|e: Effect| e@).push(e@));
    }

    /// Show a transient status message.
    pub fn set_toast(&mut self, msg: String)
        ensures
            final(self)@ == toast_v(old(self)@, msg@),
            final(self).wf() == old(self).wf(),
            final(self).keeps_io(old(self)),
    {
        self.toast = Some(msg);
        self.emit(Effect::Toast);
    }

    /// Ask before tearing down every session; confirmed by y/Y.
    pub fn request_quit(&mut self)
        ensures
            final(self)@ == request_quit_v(old(self)@),
            old(self).wf() ==> final(self).wf(),
            final(self).keeps_io(old(self)),
    {
        self.menu = None;
        self.prefix = false;
        self.quit_confirm = true;
        let n = self.tabs.len();
        let m = counted_msg("quit tasqview? ", n as u64, " session(s) will close  [y/n]");
        self.set_toast(m);
    }

    /// Ask for a new shell tab.
    pub fn new_session(&mut self)
        requires
            old(self).wf(),
        ensures
            final(self)@ == new_session_v(old(self)@),
            final(self).wf(),
            final(self).keeps_io(old(self)),
    {
        let id = self.tabs.len() + 1;
        self.emit(Effect::Spawn { id });
    }

    /// The outcome of a shell spawn asked for with `Effect::Spawn`.
    pub fn spawned(&mut self, ok: bool)
        requires
            old(self).wf(),
            old(self).tabs@.len() + 1 < usize::MAX,
        ensures
            final(self)@ == spawned_v(old(self)@, ok),
            final(self).wf(),
            final(self).keeps_io(old(self)),
    {
        if ok {
            self.tabs.push(Tab { scroll: 0, last_scroll_total: 0 });
            self.active = self.tabs.len() - 1;
            self.sel.clear();
        }
    }

    /// The outcome of a command spawn asked for with `Effect::SpawnCmd`.
    pub fn spawned_cmd(&mut self, ok: bool)
        requires
            old(self).wf(),
            old(self).tabs@.len() + 1 < usize::MAX,
        ensures
            final(self)@ == spawned_cmd_v(old(self)@, ok),
            final(self).wf(),
            final(self).keeps_io(old(self)),
    {
        if ok {
            self.spawned(true);
        } else {
            self.set_toast(String::from_str("failed to launch"));
        }
    }

    /// Close the active tab (its session is hung up and dropped).
    pub fn close_active(&mut self)
        requires
            old(self).wf(),
        ensures
            final(self)@ == close_active_v(old(self)@),
            final(self).wf(),
            final(self).keeps_io(old(self)),
    {
        if self.tabs.len() == 0 {
            return;
        }
        let idx = self.active;
        self.tabs.remove(idx);
        self.sel.clear();
        self.emit(Effect::Close { tab: idx });
        if self.tabs.len() == 0 {
            self.quit = true;
        } else {
            self.active = if idx < self.tabs.len() { idx } else { self.tabs.len() - 1 };
        }
    }

    fn next_tab(&mut self)
        requires
            old(self).wf(),
        ensures
            final(self)@ == next_tab_v(old(self)@),
            final(self).wf(),
            final(self).keeps_io(old(self)),
    {
        let n = self.tabs.len();
        if n > 1 {
            self.active = (self.active + 1) % n;
        }
    }

    fn write_active(&mut self, bytes: Vec<u8>)
        requires
            old(self).wf(),
        ensures
            final(self)@ == write_active_v(old(self)@, bytes@),
            final(self).wf(),
            final(self).keeps_io(old(self)),
    {
        let tab = self.active;
        self.emit(Effect::Write { tab, bytes });
    }

    /// Copy the selection to the clipboard, reading the active screen.
    pub fn copy_selection(&mut self, scr: &ScreenSnap)
        requires
            old(self).wf(),
            scr.wf(),
        ensures
            final(self)@ == copy_v(old(self)@, *scr),
            final(self).wf(),
            final(self).keeps_io(old(self)),
    {
        if self.tabs.len() == 0 {
            return;
        }
        if !self.sel.have {
            self.set_toast(String::from_str("nothing selected"));
            return;
        }
        let text = self.sel.extract(scr, self.view_rows as u16, self.view_cols as u16);
        if text.as_str().is_empty() {
            self.set_toast(String::from_str("nothing selected"));
            return;
        }
        let n = text.as_str().unicode_len();
        self.clip.set(text);
        self.sel.clear();
        let m = counted_msg("copied ", n as u64, " chars");
        self.set_toast(m);
    }

    /// Paste the clipboard into the active session.
    pub fn paste(&mut self, scr: &ScreenSnap)
        requires
            old(self).wf(),
        ensures
            final(self)@ == paste_v(old(self)@, *scr),
            final(self).wf(),
            final(self).keeps_io(old(self)),
    {
        if self.tabs.len() == 0 {
            return;
        }
        if self.clip.is_empty() {
            self.set_toast(String::from_str("clipboard empty"));
            return;
        }
        let bracketed = scr.bracketed_paste;
        let mut buf: Vec<u8> = Vec::new();
        if bracketed {
            buf.push(0x1b);
            buf.push(0x5b);
            buf.push(0x32);
            buf.push(0x30);
            buf.push(0x30);
            buf.push(0x7e);
        }
        let ghost pre = buf@;
        let bytes = self.clip.get().as_bytes();
        buf.extend_from_slice(bytes);
        let ghost mid = buf@;
        if bracketed {
            buf.push(0x1b);
            buf.push(0x5b);
            buf.push(0x32);
            buf.push(0x30);
            buf.push(0x31);
            buf.push(0x7e);
        }
        assert(buf@ =~= paste_bytes(self.clip.text@, bracketed));
        let n = self.clip.get().unicode_len();
        self.write_active(buf);
        let m = counted_msg("pasted ", n as u64, " chars");
        self.set_toast(m);
    }
}


impl App {
    /// Enter keyboard selection mode at the active session's cursor.
    pub fn enter_select_mode(&mut self, scr: &ScreenSnap)
        requires
            old(self).wf(),
        ensures
            final(self)@ == enter_select_v(old(self)@, *scr),
            final(self).wf(),
            final(self).keeps_io(old(self)),
    {
        if self.tabs.len() == 0 {
            return;
        }
        let (r0, c0) = scr.cursor;
        let r = if (r0 as usize) < self.view_rows - 1 { r0 as usize } else { self.view_rows - 1 } as u16;
        let c = if (c0 as usize) < self.view_cols - 1 { c0 as usize } else { self.view_cols - 1 } as u16;
        self.sel.clear();
        self.sel.press(r, c);
        self.keysel = Some(KeySel { r, c, anchored: true });
        self.set_toast(String::from_str("SELECT: arrows extend · Space re-anchors · Enter/y copy · Esc cancel"));
    }

    /// Toggle keyboard selection mode.
    pub fn toggle_select_mode(&mut self, scr: &ScreenSnap)
        requires
            old(self).wf(),
        ensures
            final(self)@ == toggle_select_v(old(self)@, *scr),
            final(self).wf(),
            final(self).keeps_io(old(self)),
    {
        if self.keysel.is_some() {
            self.keysel = None;
            self.sel.clear();
            self.set_toast(String::from_str("select cancelled"));
        } else {
            self.enter_select_mode(scr);
        }
    }

    /// Move the keyboard caret by (dr, dc), clamped to the view.
    pub fn keysel_move(&mut self, dr: i32, dc: i32)
        requires
            old(self).wf(),
            -65535 <= dr <= 65535,
            -65535 <= dc <= 65535,
        ensures
            final(self)@ == keysel_move_v(old(self)@, dr as int, dc as int),
            final(self).wf(),
            final(self).keeps_io(old(self)),
    {
        match self.keysel {
            None => {},
            Some(ks) => {
                let hr = self.view_rows as i32 - 1;
                let hc = self.view_cols as i32 - 1;
                let vr = ks.r as i32 + dr;
                let vc = ks.c as i32 + dc;
                let nr = (if vr < 0 { 0 } else if vr > hr { hr } else { vr }) as u16;
                let nc = (if vc < 0 { 0 } else if vc > hc { hc } else { vc }) as u16;
                self.keysel = Some(KeySel { r: nr, c: nc, anchored: ks.anchored });
                if ks.anchored {
                    self.sel.drag(nr, nc);
                }
            },
        }
    }

    /// Drop a fresh anchor at the caret.
    pub fn keysel_reanchor(&mut self)
        requires
            old(self).wf(),
        ensures
            final(self)@ == keysel_reanchor_v(old(self)@),
            final(self).wf(),
            final(self).keeps_io(old(self)),
    {
        match self.keysel {
            None => {},
            Some(ks) => {
                self.sel.press(ks.r, ks.c);
                self.set_toast(String::from_str("anchor set · arrows extend"));
            },
        }
    }

    /// Copy in keyboard selection mode, then leave it.
    pub fn keysel_copy(&mut self, scr: &ScreenSnap)
        requires
            old(self).wf(),
            scr.wf(),
        ensures
            final(self)@ == keysel_copy_v(old(self)@, *scr),
            final(self).wf(),
            final(self).keeps_io(old(self)),
    {
        if self.keysel.is_none() {
            return;
        }
        self.sel.release();
        self.copy_selection(scr);
        self.keysel = None;
    }

    /// Leave keyboard selection mode.
    pub fn keysel_cancel(&mut self)
        requires
            old(self).wf(),
        ensures
            final(self)@ == keysel_cancel_v(old(self)@),
            final(self).wf(),
            final(self).keeps_io(old(self)),
    {
        self.keysel = None;
        self.sel.clear();
    }

    /// Whether a control byte is a shortcut here (`shift`: Shift is held,
    /// as sampled on a kernel VT).
    pub fn ctrl_action(&self, b: u8, shift: bool) -> (r: Option<CtrlAction>)
        ensures
            r == ctrl_action_v(self.on_console, shift, b),
    {
        if !(self.on_console && shift) {
            return None;
        }
        match b {
            0x14 => Some(CtrlAction::NewSession),
            0x17 => Some(CtrlAction::CloseSession),
            0x18 => Some(CtrlAction::Quit),
            0x13 => Some(CtrlAction::ToggleSelect),
            _ => None,
        }
    }

    /// Alt+Shift chords decoded from the byte stream (either case).
    pub fn alt_action(&self, a: u8) -> (r: Option<CtrlAction>)
        ensures
            r == alt_action_v(a),
    {
        match a {
            0x43 | 0x63 => Some(CtrlAction::Copy),
            0x56 | 0x76 => Some(CtrlAction::Paste),
            0x54 | 0x74 => Some(CtrlAction::NewSession),
            0x57 | 0x77 => Some(CtrlAction::CloseSession),
            0x53 | 0x73 => Some(CtrlAction::ToggleSelect),
            0x58 | 0x78 => Some(CtrlAction::Quit),
            _ => None,
        }
    }

    fn run_action(&mut self, a: CtrlAction, scr: &ScreenSnap)
        requires
            old(self).wf(),
            scr.wf(),
        ensures
            final(self)@ == action_v(old(self)@, a, *scr),
            final(self).wf(),
            final(self).keeps_io(old(self)),
    {
        match a {
            CtrlAction::Copy => self.copy_selection(scr),
            CtrlAction::Paste => self.paste(scr),
            CtrlAction::NewSession => self.new_session(),
            CtrlAction::CloseSession => self.close_active(),
            CtrlAction::Quit => self.request_quit(),
            CtrlAction::ToggleSelect => self.toggle_select_mode(scr),
        }
    }
}


/// Open the Start menu with these entries, the first one selected.
pub open spec fn open_menu_v(s: AppV, entries: Seq<EntryV>) -> AppV {
    AppV { menu_cache: entries, menu: Some(0), ..s }
}

proof fn lemma_longest_step(labels: Seq<EntryV>, i: int)
    requires
        0 <= i < labels.len(),
    ensures
        longest_label(labels.take(i + 1)) == (if labels[i].label.len() as int > longest_label(
            labels.take(i),
        ) {
            labels[i].label.len() as int
        } else {
            longest_label(labels.take(i))
        }),
{
    assert(labels.take(i + 1).drop_last() =~= labels.take(i));
}

proof fn lemma_longest_nonneg(labels: Seq<EntryV>)
    ensures
        longest_label(labels) >= 0,
    decreases labels.len(),
{
    if labels.len() > 0 {
        lemma_longest_nonneg(labels.drop_last());
    }
}

/// A step of `d >= 0` lines, with `q = d % n`, lands where `m + q` wraps to.
proof fn lemma_step_forward(m: int, n: int, d: int, q: int)
    requires
        0 <= m < n,
        0 <= d,
        q == d % n,
    ensures
        (m + n + d) % n == (if m + q < n { m + q } else { m + q - n }),
{
    lemma_fundamental_div_mod(d, n);
    lemma_mod_pos_bound(d, n);
    let k = d / n;
    let r = if m + q < n { m + q } else { m + q - n };
    let j = if m + q < n { k + 1 } else { k + 2 };
    assert(m + n + d == n * j + r) by (nonlinear_arith)
        requires
            d == n * k + q,
            r == (if m + q < n { m + q } else { m + q - n }),
            j == (if m + q < n { k + 1 } else { k + 2 }),
    ;
    lemma_mod_multiples_vanish(j, r, n);
    lemma_small_mod(r as nat, n as nat);
}

/// A step of `d < 0` lines, with `b = (-d) % n`, lands `b` lines back,
/// wrapping past the first line.
proof fn lemma_step_back(m: int, n: int, d: int, b: int)
    requires
        0 <= m < n,
        d < 0,
        b == (-d) % n,
    ensures
        (m + n + d) % n == (if b <= m { m - b } else { n - (b - m) }),
{
    lemma_fundamental_div_mod(-d, n);
    lemma_mod_pos_bound(-d, n);
    let k = (-d) / n;
    let r = if b <= m { m - b } else { n - (b - m) };
    let j = if b <= m { 1 - k } else { -k };
    assert(m + n + d == n * j + r) by (nonlinear_arith)
        requires
            -d == n * k + b,
            r == (if b <= m { m - b } else { n - (b - m) }),
            j == (if b <= m { 1 - k } else { -k }),
    ;
    lemma_mod_multiples_vanish(j, r, n);
    lemma_small_mod(r as nat, n as nat);
}

impl App {
    /// Lines of the menu popup (at least one).
    pub fn menu_len(&self) -> (n: usize)
        ensures
            n == menu_len_of(self.menu_cache@.len() as int),
    {
        if self.menu_cache.len() < 1 {
            1
        } else {
            self.menu_cache.len()
        }
    }

    /// Width of the menu popup: longest label + padding, min floor.
    pub fn menu_width(&self) -> (w: usize)
        requires
            self.wf(),
        ensures
            w == menu_width_v(self@.menu_cache, self.view_cols as int),
    {
        let ghost labels = self@.menu_cache;
        let mut best: usize = 0;
        let mut i: usize = 0;
        while i < self.menu_cache.len()
            invariant
                i <= self.menu_cache@.len(),
                labels == entries_view(self.menu_cache@),
                best == longest_label(labels.take(i as int)),
            decreases self.menu_cache@.len() - i,
        {
            let l = self.menu_cache[i].label.as_str().unicode_len();
            proof {
                lemma_longest_step(labels, i as int);
            }
            if l > best {
                best = l;
            }
            i += 1;
        }
        assert(labels.take(labels.len() as int) =~= labels);
        proof {
            lemma_longest_nonneg(labels);
        }
        let w0 = best.saturating_add(2);
        let w1 = if w0 < MENU_MIN_WIDTH { MENU_MIN_WIDTH } else { w0 };
        let cap = if self.view_cols < 1 { 1 } else { self.view_cols };
        if w1 < cap {
            w1
        } else {
            cap
        }
    }

    /// Move the menu selection `d` lines down (up when `d` is negative),
    /// wrapping around at both ends.
    fn menu_move(&mut self, d: i32)
        requires
            old(self).wf(),
        ensures
            final(self)@ == menu_move_v(old(self)@, d as int),
            final(self).wf(),
            final(self).keeps_io(old(self)),
    {
        let n = self.menu_len();
        let cur = self.menu;
        match cur {
            None => {},
            Some(m) => {
                let nm = if d >= 0 {
                    let q = (d as usize) % n;
                    proof {
                        lemma_step_forward(m as int, n as int, d as int, q as int);
                    }
                    if q < n - m {
                        m + q
                    } else {
                        q - (n - m)
                    }
                } else {
                    let b = ((-(d as i64)) as usize) % n;
                    proof {
                        lemma_step_back(m as int, n as int, d as int, b as int);
                    }
                    if b <= m {
                        m - b
                    } else {
                        n - (b - m)
                    }
                };
                self.menu = Some(nm);
            },
        }
    }

    /// Choose the selected menu entry.
    pub fn menu_activate(&mut self)
        requires
            old(self).wf(),
        ensures
            final(self)@ == menu_activate_v(old(self)@),
            final(self).wf(),
            final(self).keeps_io(old(self)),
    {
        let sel = match self.menu {
            None => {
                return;
            },
            Some(m) => m,
        };
        self.menu = None;
        if sel >= self.menu_cache.len() {
            return;
        }
        let entry = self.menu_cache[sel].clone_entry();
        assert(entry@ == self@.menu_cache[sel as int]);
        match entry.action {
            MenuAction::NewTab => self.new_session(),
            MenuAction::Exit => self.request_quit(),
            MenuAction::Run(cmd) => {
                let id = self.tabs.len() + 1;
                self.emit(Effect::SpawnCmd { id, cmd });
            },
        }
    }

    /// A click while the menu is open.
    pub fn menu_click(&mut self, col: u16, row: u16)
        requires
            old(self).wf(),
        ensures
            final(self)@ == menu_click_v(old(self)@, col, row),
            final(self).wf(),
            final(self).keeps_io(old(self)),
    {
        let col = col as usize;
        let row = row as usize;
        let n = self.menu_len();
        let w = self.menu_width();
        let r0 = self.view_rows.saturating_sub(n);
        if row >= r0 && row < self.view_rows && col < w {
            self.menu = Some(row - r0);
            self.menu_activate();
        } else {
            self.menu = None;
        }
    }

    /// Open the Start menu: the launcher entries of the menu file's text
    /// (none when there is no file), then the built-ins; the first is selected.
    pub fn open_menu(&mut self, text: Option<&str>)
        requires
            old(self).wf(),
        ensures
            final(self)@ == open_menu_v(
                old(self)@,
                (match text {
                    Some(t) => menu_text_entries(t@),
                    None => Seq::empty(),
                }) + builtin_entries(),
            ),
            final(self).wf(),
            final(self).keeps_io(old(self)),
    {
        self.menu_cache = menu_entries_from(text);
        self.menu = Some(0);
    }

    /// A mouse press outside the menu.
    pub fn mouse_press(&mut self, col: u16, row: u16)
        requires
            old(self).wf(),
        ensures
            final(self)@ == mouse_press_v(old(self)@, col, row),
            final(self).wf(),
            final(self).keeps_io(old(self)),
    {
        let r = row as usize;
        let c = col as usize;
        if r == self.view_rows {
            if c >= self.layout.start_c0 && c <= self.layout.start_c1 {
                if self.menu.is_some() {
                    self.menu = None;
                } else {
                    self.emit(Effect::LoadMenu);
                }
                return;
            }
            // Taskbar hit test; a button of a session closed since the last
            // frame is skipped.
            let ntabs = self.tabs.len();
            let mut i: usize = 0;
            while i < self.layout.buttons.len()
                invariant
                    i <= self.layout.buttons@.len(),
                    ntabs == self.tabs@.len(),
                    self == old(self),
                    self.wf(),
                    r == self.view_rows,
                    r == row as usize,
                    c == col as usize,
                    !(c >= self.layout.start_c0 && c <= self.layout.start_c1),
                    button_hit(self.layout.buttons@, ntabs as int, c, 0) == button_hit(
                        self.layout.buttons@,
                        ntabs as int,
                        c,
                        i as int,
                    ),
                decreases self.layout.buttons@.len() - i,
            {
                let b = self.layout.buttons[i];
                if b.idx < ntabs {
                    if b.close == Some(c) {
                        self.active = b.idx;
                        self.close_active();
                        return;
                    }
                    if c >= b.c0 && c <= b.c1 {
                        self.active = b.idx;
                        return;
                    }
                }
                i += 1;
            }
        } else if r < self.view_rows && c < self.view_cols {
            self.sel.press(row, col);
        }
    }

    /// A drag report: extends a drag within the view.
    pub fn mouse_drag(&mut self, col: u16, row: u16)
        requires
            old(self).wf(),
        ensures
            final(self)@ == (AppV { sel: drag_to(old(self)@, col, row), ..old(self)@ }),
            final(self).wf(),
            final(self).keeps_io(old(self)),
    {
        if row < self.view_rows as u16 && col < self.view_cols as u16 {
            self.sel.drag(row, col);
        }
    }

    /// A release report: its position ends the drag (the console sends no
    /// motion reports), and the drag stops.
    pub fn mouse_release(&mut self, col: u16, row: u16)
        requires
            old(self).wf(),
        ensures
            final(self)@ == (AppV { sel: Sel { active: false, ..drag_to(old(self)@, col, row) }, ..old(self)@ }),
            final(self).wf(),
            final(self).keeps_io(old(self)),
    {
        if row < self.view_rows as u16 && col < self.view_cols as u16 {
            self.sel.drag(row, col);
        }
        self.sel.release();
    }

    /// Scroll the active tab's view to `target`, clamped to the `total` lines
    /// of scrollback.
    fn scroll_to(&mut self, target: usize, total: usize)
        requires
            old(self).wf(),
            old(self).tabs@.len() > 0,
        ensures
            final(self)@ == scroll_to_v(old(self)@, target as int, total),
            final(self).wf(),
            final(self).keeps_io(old(self)),
    {
        let off = if target < total { target } else { total };
        let a = self.active;
        self.tabs.set(a, Tab { scroll: off, last_scroll_total: total });
        self.emit(Effect::SetScroll { tab: a, offset: off });
    }
}


impl App {
    fn keysel_event(&mut self, ev: Event, scr: &ScreenSnap)
        requires
            old(self).wf(),
            scr.wf(),
        ensures
            final(self)@ == keysel_event_v(old(self)@, ev, *scr),
            final(self).wf(),
            final(self).keeps_io(old(self)),
    {
        let vr = self.view_rows as i32;
        let vc = self.view_cols as i32;
        match ev {
            Event::Up => self.keysel_move(-1, 0),
            Event::Down => self.keysel_move(1, 0),
            Event::Left => self.keysel_move(0, -1),
            Event::Right => self.keysel_move(0, 1),
            Event::Home => self.keysel_move(0, -vc),
            Event::End => self.keysel_move(0, vc),
            Event::PageUp => self.keysel_move(-vr, 0),
            Event::PageDown => self.keysel_move(vr, 0),
            Event::Byte(b) => {
                if b == 0x20 {
                    self.keysel_reanchor();
                } else if b == 0x0d || b == 0x0a || b == 0x79 || b == 0x03 {
                    self.keysel_copy(scr);
                } else if b == 0x1b {
                    self.keysel_cancel();
                }
            },
            Event::Esc => self.keysel_cancel(),
            _ => {},
        }
    }

    fn prefix_event(&mut self, ev: Event, scr: &ScreenSnap)
        requires
            old(self).wf(),
            scr.wf(),
        ensures
            final(self)@ == prefix_event_v(old(self)@, ev, *scr),
            final(self).wf(),
            final(self).keeps_io(old(self)),
    {
        self.prefix = false;
        match ev {
            Event::Byte(b) => {
                if b == 0x63 || b == 0x03 {
                    self.copy_selection(scr);
                } else if b == 0x76 || b == 0x16 {
                    self.paste(scr);
                } else if b == 0x73 || b == 0x13 {
                    self.toggle_select_mode(scr);
                } else if b == 0x74 || b == 0x14 {
                    self.new_session();
                } else if b == 0x77 || b == 0x17 {
                    self.close_active();
                } else if b == 0x78 || b == 0x18 {
                    self.request_quit();
                } else if b == 0x6e {
                    self.next_tab();
                } else if b == 0x02 {
                    // Ctrl+B Ctrl+B: a literal Ctrl+B for the session.
                    if self.tabs.len() > 0 {
                        let mut v: Vec<u8> = Vec::new();
                        v.push(0x02);
                        assert(v@ =~= seq![0x02u8]);
                        self.write_active(v);
                    }
                } else {
                    self.set_toast(String::from_str("prefix cancelled"));
                }
            },
            _ => self.set_toast(String::from_str("prefix cancelled")),
        }
    }

    fn menu_event(&mut self, ev: Event)
        requires
            old(self).wf(),
        ensures
            final(self)@ == menu_event_v(old(self)@, ev),
            final(self).wf(),
            final(self).keeps_io(old(self)),
    {
        match ev {
            Event::Up => self.menu_move(-1),
            Event::Down => self.menu_move(1),
            Event::Byte(b) => {
                if b == 0x0d {
                    self.menu_activate();
                } else if 0x20 <= b && b < 0x7f {
                    let ch = b as char;
                    let mut i: usize = 0;
                    let n = self.menu_cache.len();
                    while i < n
                        invariant
                            i <= n,
                            n == self.menu_cache@.len(),
                            self == old(self),
                            self.wf(),
                            ch == b as char,
                            ev == Event::Byte(b),
                            b != 0x0d,
                            0x20 <= b < 0x7f,
                            accel_from(self@.menu_cache, ch, 0) == accel_from(self@.menu_cache, ch, i as int),
                        decreases n - i,
                    {
                        assert(self@.menu_cache[i as int].key == self.menu_cache@[i as int].key);
                        if self.menu_cache[i].key == Some(ch) {
                            self.menu = Some(i);
                            self.menu_activate();
                            return;
                        }
                        i += 1;
                    }
                }
            },
            Event::Esc => self.menu = None,
            Event::MousePress { col, row } => self.menu_click(col, row),
            _ => {},
        }
    }

    fn normal_event(&mut self, ev: Event, env: &Env)
        requires
            old(self).wf(),
            env.screen.wf(),
        ensures
            final(self)@ == normal_event_v(old(self)@, ev, *env),
            final(self).wf(),
            final(self).keeps_io(old(self)),
    {
        let scr = &env.screen;
        let total = env.scrollback_len;
        match ev {
            Event::Byte(b) => {
                if b == 0x02 {
                    self.prefix = true;
                    self.set_toast(String::from_str("prefix: c/v s(elect) t/w x n"));
                    return;
                }
                match self.ctrl_action(b, env.shift) {
                    Some(a) => self.run_action(a, scr),
                    None => {
                        let mut v: Vec<u8> = Vec::new();
                        v.push(b);
                        assert(v@ =~= seq![b]);
                        self.typed(v);
                    },
                }
            },
            Event::AltByte(a) => match self.alt_action(a) {
                Some(x) => self.run_action(x, scr),
                None => {
                    let mut v: Vec<u8> = Vec::new();
                    v.push(0x1b);
                    v.push(a);
                    assert(v@ =~= seq![0x1bu8, a]);
                    self.typed(v);
                },
            },
            Event::Esc => {
                if self.tabs.len() > 0 && self.tabs[self.active].scroll > 0 {
                    self.scroll_to(0, total);
                    let a = self.active;
                    self.tabs.set(a, Tab { scroll: 0, last_scroll_total: 0 });
                } else {
                    let mut v: Vec<u8> = Vec::new();
                    v.push(0x1b);
                    assert(v@ =~= seq![0x1bu8]);
                    self.typed(v);
                }
            },
            Event::AltTab => self.next_tab(),
            Event::PageUp => {
                if self.tabs.len() > 0 {
                    let sc = self.tabs[self.active].scroll;
                    let target = sc.saturating_add(self.view_rows);
                    let ghost s0 = self@;
                    self.scroll_to(target, total);
                    assert(scroll_to_v(s0, target as int, total) == scroll_to_v(s0, sc + s0.view_rows, total));
                }
            },
            Event::PageDown => {
                if self.tabs.len() > 0 && self.tabs[self.active].scroll > 0 {
                    let sc = self.tabs[self.active].scroll;
                    let target = sc.saturating_sub(self.view_rows);
                    self.scroll_to(target, total);
                }
            },
            Event::MousePress { col, row } => self.mouse_press(col, row),
            Event::MouseDrag { col, row } => self.mouse_drag(col, row),
            Event::MouseRelease { col, row } => self.mouse_release(col, row),
            Event::WheelUp { col, row } => {
                if (row as usize) < self.view_rows && self.tabs.len() > 0 {
                    let sc = self.tabs[self.active].scroll;
                    let target = sc.saturating_add(3);
                    let ghost s0 = self@;
                    self.scroll_to(target, total);
                    assert(scroll_to_v(s0, target as int, total) == scroll_to_v(s0, sc + 3, total));
                }
            },
            Event::WheelDown { col, row } => {
                if (row as usize) < self.view_rows && self.tabs.len() > 0 && self.tabs[self.active].scroll
                    > 0 {
                    let sc = self.tabs[self.active].scroll;
                    let target = sc.saturating_sub(3);
                    self.scroll_to(target, total);
                }
            },
            _ => {
                if self.tabs.len() > 0 {
                    let kb = key_bytes(scr.application_cursor, &ev);
                    self.typed(kb);
                }
            },
        }
    }

    /// Bytes typed for the active program; a finished mouse selection is
    /// consumed so that a stale highlight cannot turn the next shortcut
    /// into a copy.
    fn typed(&mut self, bytes: Vec<u8>)
        requires
            old(self).wf(),
        ensures
            final(self)@ == typed_v(old(self)@, bytes@),
            final(self).wf(),
            final(self).keeps_io(old(self)),
    {
        if bytes.len() > 0 && self.tabs.len() > 0 {
            if self.sel.have && !self.sel.active {
                self.sel.clear();
            }
            self.write_active(bytes);
        }
    }

    /// Handle one input event. `env` describes the active session as it is
    /// now (an empty screen when there is none).
    pub fn on_event(&mut self, ev: Event, env: &Env)
        requires
            old(self).wf(),
            env.screen.wf(),
        ensures
            final(self)@ == on_event_v(old(self)@, ev, *env),
            final(self).wf(),
            final(self).keeps_io(old(self)),
    {
        if self.quit_confirm {
            self.quit_confirm = false;
            if ev == Event::Byte(0x79) || ev == Event::Byte(0x59) {
                self.quit = true;
            } else {
                self.set_toast(String::from_str("quit cancelled"));
            }
            return;
        }
        if self.keysel.is_some() {
            self.keysel_event(ev, &env.screen);
            return;
        }
        if self.prefix {
            self.prefix_event(ev, &env.screen);
            return;
        }
        if self.menu.is_some() {
            self.menu_event(ev);
            return;
        }
        self.normal_event(ev, env);
    }
}


// ---------------------------------------------------------------------
// Rendering.

/// The canvas cell showing emulator cell `cell` at view position (r, c):
/// its text (a space for none or for the right half of a wide character),
/// palette colours and attributes, inverted where selected.
pub open spec fn blit_v(sel: Sel, r: int, c: int, cell: Option<VtCell>) -> CellV {
    match cell {
        None => (seq![' '], 255u8, 255u8, false, false, false, false),
        Some(x) => (
            if x.wide_continuation || x.contents@.len() == 0 { seq![' '] } else { x.contents@ },
            color_index(x.fg),
            color_index(x.bg),
            x.bold,
            x.underline,
            if sel.covers(r, c) { !x.inverse } else { x.inverse },
            x.italic,
        ),
    }
}

/// Row `r` of the session view.
pub open spec fn view_row(s: AppV, scr: ScreenSnap, r: int) -> Seq<CellV> {
    Seq::new(s.cols as nat, |c: int| blit_v(s.sel, r, c, scr.cell_at(r, c)))
}

/// The frame `v` with session view rows `0..k` drawn.
pub open spec fn view_layer(v: Seq<CellV>, s: AppV, scr: ScreenSnap, k: int) -> Seq<CellV>
    decreases k,
{
    if k <= 0 {
        v
    } else {
        with_row(view_layer(v, s, scr, k - 1), s.cols as int, k - 1, view_row(s, scr, k - 1))
    }
}

/// The toast, black-on-red and right-aligned on the taskbar row.
pub open spec fn toast_layer(v: Seq<CellV>, s: AppV, msg: Seq<char>) -> Seq<CellV> {
    let m = seq![' '] + msg + seq![' '];
    let start = if s.view_cols - (m.len() + 1) < 0 { 0 } else { s.view_cols - (m.len() + 1) };
    let r = s.view_rows as int;
    with_row(v, s.cols as int, r, overlay(row_of(v, s.cols as int, r), start, run(m, 15, 9, true)))
}

/// First row of the Start menu popup (it sits just above the taskbar).
pub open spec fn menu_top(s: AppV) -> int {
    if s.view_rows - s.menu_cache.len() < 0 {
        0
    } else {
        s.view_rows - s.menu_cache.len()
    }
}

/// A menu line: a space, the label, padding to `w`; `w` characters shown.
pub open spec fn menu_line_text(label: Seq<char>, w: int) -> Seq<char> {
    pad_right(seq![' '] + label, w).take(w)
}

/// The frame `v` with Start menu lines `0..k` drawn (selected line dark).
pub open spec fn menu_layer(v: Seq<CellV>, s: AppV, sel: usize, w: int, k: int) -> Seq<CellV>
    decreases k,
{
    if k <= 0 {
        v
    } else {
        let prev = menu_layer(v, s, sel, w, k - 1);
        let i = k - 1;
        let r = menu_top(s) + i;
        if r >= s.view_rows {
            prev
        } else {
            let selected = i == sel;
            let fg: u8 = if selected { 15 } else { 0 };
            let bg: u8 = if selected { 240 } else { 250 };
            with_row(
                prev,
                s.cols as int,
                r,
                overlay(
                    row_of(prev, s.cols as int, r),
                    0,
                    run(menu_line_text(s.menu_cache[i].label, w), fg, bg, selected),
                ),
            )
        }
    }
}

proof fn lemma_menu_layer_same(v: Seq<CellV>, a: AppV, b: AppV, sel: usize, w: int, k: int)
    requires
        a.view_rows == b.view_rows,
        a.cols == b.cols,
        a.menu_cache == b.menu_cache,
    ensures
        menu_layer(v, a, sel, w, k) == menu_layer(v, b, sel, w, k),
    decreases k,
{
    if k > 0 {
        lemma_menu_layer_same(v, a, b, sel, w, k - 1);
    }
}

/// Taskbar labels: (index, title).
pub open spec fn labels_v(titles: Seq<Seq<char>>) -> Seq<(usize, Seq<char>)> {
    Seq::new(titles.len(), |i: int| (i as usize, titles[i]))
}

/// The frame composed for state `s`: the active session's view, the
/// taskbar, the toast and the Start menu, in that order.
pub open spec fn frame_v(
    s: AppV,
    scr: ScreenSnap,
    titles: Seq<Seq<char>>,
    clock: Seq<char>,
    battery: Option<(u8, bool)>,
) -> Seq<CellV> {
    let n = (s.rows * s.cols) as nat;
    let l0 = if s.tabs.len() > 0 { view_layer(blanks(n), s, scr, s.view_rows as int) } else { blanks(n) };
    let l1 = with_row(l0, s.cols as int, s.rows - 1, bar_row(s.cols as int, labels_v(titles), s.active, clock, battery));
    let l2 = match s.toast {
        Some(m) => toast_layer(l1, s, m),
        None => l1,
    };
    match s.menu {
        Some(sel) => menu_layer(
            l2,
            s,
            sel,
            menu_width_v(s.menu_cache, s.view_cols as int),
            s.menu_cache.len() as int,
        ),
        None => l2,
    }
}

/// Where the terminal cursor is parked: at the selection caret, hidden
/// while scrolled back, else at the program's cursor (clamped to the view).
pub open spec fn cursor_out(s: AppV, scr: ScreenSnap) -> Seq<u8> {
    match s.keysel {
        Some(ks) => park_bytes(ks.r as nat, ks.c as nat, true),
        None => if s.tabs.len() > 0 {
            if s.tabs[s.active as int].scroll > 0 {
                park_bytes(0, 0, false)
            } else {
                park_bytes(
                    clamp_to(scr.cursor.0 as int, s.view_rows - 1) as nat,
                    clamp_to(scr.cursor.1 as int, s.view_cols - 1) as nat,
                    !scr.hide_cursor,
                )
            }
        } else {
            park_bytes(0, 0, true)
        },
    }
}

/// The canvas cell for view position (r, c).
pub fn blit_cell(sel: &Sel, r: usize, c: usize, cell: Option<&VtCell>) -> (k: (
    String,
    u8,
    u8,
    bool,
    bool,
    bool,
    bool,
))
    requires
        r * 65536 + c <= usize::MAX,
    ensures
        ({
            let b = blit_v(
                *sel,
                r as int,
                c as int,
                match cell {
                    Some(x) => Some(*x),
                    None => None,
                },
            );
            &&& (if k.0@.len() == 0 { seq![' '] } else { k.0@ }) == b.0
            &&& (k.1, k.2, k.3, k.4, k.5, k.6) == (b.1, b.2, b.3, b.4, b.5, b.6)
        }),
{
    match cell {
        None => {
            let mut s = String::new();
            push_char(&mut s, ' ');
            (s, 255, 255, false, false, false, false)
        },
        Some(x) => {
            let ch = if x.wide_continuation {
                String::new()
            } else {
                x.contents.clone()
            };
            let fg = vt_color(x.fg);
            let bg = vt_color(x.bg);
            let mut inverse = x.inverse;
            if sel.inside(r, c) {
                inverse = !inverse;
            }
            (ch, fg, bg, x.bold, x.underline, inverse, x.italic)
        },
    }
}

impl App {
    /// Draw row `r` of the session view into the canvas.
    fn paint_view_row(&mut self, r: usize, scr: &ScreenSnap)
        requires
            old(self).wf(),
            scr.wf(),
            r < old(self).view_rows,
        ensures
            final(self).wf(),
            final(self)@ == old(self)@,
            final(self).inptr == old(self).inptr,
            final(self).canvas.prev == old(self).canvas.prev,
            final(self).canvas.cur_v() == with_row(
                old(self).canvas.cur_v(),
                old(self).cols as int,
                r as int,
                view_row(old(self)@, *scr, r as int),
            ),
    {
        let ghost v0 = self.canvas.cur_v();
        let ghost cols = self.cols as int;
        let ghost line0 = row_of(v0, cols, r as int);
        let ghost seg = view_row(self@, *scr, r as int);
        proof {
            lemma_row_bounds(r as int, self.rows as int, cols);
        }
        assert(line0.len() == cols);
        assert(with_row(v0, cols, r as int, overlay(line0, 0, seg.take(0))) =~= v0);
        let ncols = self.cols;
        let mut c: usize = 0;
        while c < ncols
            invariant
                c <= ncols,
                ncols == self.cols,
                cols == ncols,
                self.wf(),
                self@ == old(self)@,
                self.inptr == old(self).inptr,
                self.canvas.prev == old(self).canvas.prev,
                r < self.view_rows,
                r * cols + cols <= self.rows * cols,
                scr.wf(),
                v0 == old(self).canvas.cur_v(),
                line0 == row_of(v0, cols, r as int),
                line0.len() == cols,
                seg == view_row(old(self)@, *scr, r as int),
                seg.len() == cols,
                self.canvas.cur_v() == with_row(v0, cols, r as int, overlay(line0, 0, seg.take(c as int))),
            decreases ncols - c,
        {
            let idx = scr.cell_index(r as u16, c as u16);
            let cell = match idx {
                Some(k) => Some(&scr.cells[k]),
                None => None,
            };
            assert(scr.cell_at(r as int, c as int) == match cell {
                Some(x) => Some(*x),
                None => None::<VtCell>,
            });
            let (ch, fg, bg, bold, underline, inverse, italic) = blit_cell(&self.sel, r, c, cell);
            self.canvas.set_cell(r, c, ch.as_str(), fg, bg, bold, underline, inverse, italic);
            proof {
                lemma_overlay_step(line0, 0, seg, c as int);
                assert(self.canvas.cur_v() =~= with_row(
                    v0,
                    cols,
                    r as int,
                    overlay(line0, 0, seg.take(c + 1)),
                ));
            }
            c += 1;
        }
        assert(seg.take(cols) =~= seg);
        assert(overlay(line0, 0, seg) =~= seg);
    }

    /// Clear the canvas and draw the active session's view.
    fn draw_view(&mut self, scr: &ScreenSnap)
        requires
            old(self).wf(),
            scr.wf(),
        ensures
            final(self).wf(),
            final(self)@ == old(self)@,
            final(self).inptr == old(self).inptr,
            final(self).canvas.prev == old(self).canvas.prev,
            final(self).canvas.cur_v() == (if old(self)@.tabs.len() > 0 {
                view_layer(blanks((old(self).rows * old(self).cols) as nat), old(self)@, *scr, old(self).view_rows as int)
            } else {
                blanks((old(self).rows * old(self).cols) as nat)
            }),
    {
        let ghost s1 = self@;
        let ghost n = (self.rows * self.cols) as nat;
        self.canvas.clear();
        assert(self.canvas.cur_v() == blanks(n));
        if self.tabs.len() > 0 {
            let mut r: usize = 0;
            while r < self.view_rows
                invariant
                    r <= self.view_rows,
                    self.wf(),
                    self@ == s1,
                    n == (self.rows * self.cols) as nat,
                    self.inptr == old(self).inptr,
                    self.canvas.prev == old(self).canvas.prev,
                    scr.wf(),
                    self.canvas.cur_v() == view_layer(blanks(n), s1, *scr, r as int),
                decreases self.view_rows - r,
            {
                self.paint_view_row(r, scr);
                r += 1;
            }
        }
    }

    /// Draw the taskbar and record its layout.
    fn draw_bar(&mut self, titles: &Vec<String>, clock: &str, battery: Option<(u8, bool)>)
        requires
            old(self).wf(),
        ensures
            final(self).wf(),
            final(self).inptr == old(self).inptr,
            final(self).canvas.prev == old(self).canvas.prev,
            ({
                let tv = titles@.map_values(|x: String| x@);
                let cols = old(self).cols as int;
                &&& final(self)@ == (AppV {
                    buttons: bar_buttons(cols, labels_v(tv)),
                    tray0: tray_col(cols, tray_text(clock@, battery)) as usize,
                    start_c0: 0,
                    start_c1: (if cols - 1 < 6 { cols - 1 } else { 6 }) as usize,
                    ..old(self)@
                })
                &&& final(self).canvas.cur_v() == with_row(
                    old(self).canvas.cur_v(),
                    cols,
                    old(self).rows - 1,
                    bar_row(cols, labels_v(tv), old(self).active, clock@, battery),
                )
            }),
    {
        let ghost tv = titles@.map_values(|x: String| x@);
        let mut labels: Vec<(usize, String)> = Vec::new();
        let mut i: usize = 0;
        while i < titles.len()
            invariant
                i <= titles@.len(),
                tv == titles@.map_values(|x: String| x@),
                sessions_v(labels@) == labels_v(tv.take(i as int)),
            decreases titles@.len() - i,
        {
            let t = titles[i].clone();
            assert(t@ == tv[i as int]);
            let ghost before = labels@;
            labels.push((i, t));
            assert(sessions_v(labels@) =~= sessions_v(before).push((i, t@)));
            assert(sessions_v(labels@) =~= labels_v(tv.take(i + 1)));
            i += 1;
        }
        assert(tv.take(titles@.len() as int) =~= tv);
        let lsl = labels.as_slice();
        assert(lsl@ == labels@);
        let layout = draw(&mut self.canvas, lsl, self.active, clock, battery);
        self.layout = layout;
        assert(self@.buttons =~= bar_buttons(self.cols as int, labels_v(tv)));
    }

    /// Draw the toast, if any.
    fn draw_toast(&mut self)
        requires
            old(self).wf(),
            old(self).rows >= 2 || old(self).toast is None,
        ensures
            final(self).wf(),
            final(self)@ == old(self)@,
            final(self).inptr == old(self).inptr,
            final(self).canvas.prev == old(self).canvas.prev,
            final(self).canvas.cur_v() == (match old(self)@.toast {
                Some(m) => toast_layer(old(self).canvas.cur_v(), old(self)@, m),
                None => old(self).canvas.cur_v(),
            }),
    {
        match &self.toast {
            Some(msg) => {
                let mut m: Vec<char> = Vec::new();
                m.push(' ');
                let mc = chars_of(msg.as_str());
                extend_chars(&mut m, &mc, 0, mc.len());
                m.push(' ');
                assert(mc@.subrange(0, mc@.len() as int) =~= mc@);
                assert(m@ =~= seq![' '] + msg@ + seq![' ']);
                let w = m.len();
                let start = self.view_cols.saturating_sub(w.saturating_add(1));
                let row = self.view_rows;
                paint(&mut self.canvas, row, start, &m, WHITE, RED, true);
            },
            None => {},
        }
    }

    /// Draw the Start menu, if open.
    fn draw_menu(&mut self)
        requires
            old(self).wf(),
        ensures
            final(self).wf(),
            final(self)@ == old(self)@,
            final(self).inptr == old(self).inptr,
            final(self).canvas.prev == old(self).canvas.prev,
            final(self).canvas.cur_v() == (match old(self)@.menu {
                Some(sel) => menu_layer(
                    old(self).canvas.cur_v(),
                    old(self)@,
                    sel,
                    menu_width_v(old(self)@.menu_cache, old(self).view_cols as int),
                    old(self)@.menu_cache.len() as int,
                ),
                None => old(self).canvas.cur_v(),
            }),
    {
        let ghost s1 = self@;
        let ghost v0 = self.canvas.cur_v();
        match self.menu {
            Some(sel) => {
                let w = self.menu_width();
                let len = self.menu_cache.len();
                let r0 = self.view_rows.saturating_sub(len);
                let mut i: usize = 0;
                while i < len
                    invariant
                        i <= len,
                        len == self.menu_cache@.len(),
                        self.wf(),
                        self@ == s1,
                        self.inptr == old(self).inptr,
                        self.canvas.prev == old(self).canvas.prev,
                        s1.menu == Some(sel),
                        r0 == menu_top(s1),
                        w == menu_width_v(s1.menu_cache, s1.view_cols as int),
                        self.canvas.cur_v() == menu_layer(v0, s1, sel, w as int, i as int),
                    decreases len - i,
                {
                    let r = r0 + i;
                    if r < self.view_rows {
                        let selected = i == sel;
                        let (fg, bg) = if selected { (WHITE, GRAY_DARK) } else { (BLACK, GRAY) };
                        let lc = chars_of(self.menu_cache[i].label.as_str());
                        let mut label: Vec<char> = Vec::new();
                        label.push(' ');
                        extend_chars(&mut label, &lc, 0, lc.len());
                        assert(lc@.subrange(0, lc@.len() as int) =~= lc@);
                        let ghost base = label@;
                        assert(base =~= seq![' '] + s1.menu_cache[i as int].label);
                        while label.len() < w
                            invariant
                                label@ == base + crate::taskbar::spaces(label@.len() - base.len()),
                                base.len() <= label@.len(),
                                label@.len() <= w || label@ == base,
                            decreases w - label@.len(),
                        {
                            label.push(' ');
                            assert(label@ =~= base + crate::taskbar::spaces(label@.len() - base.len()));
                        }
                        assert(label@ =~= pad_right(base, w as int));
                        label.truncate(w);
                        assert(label@ =~= menu_line_text(s1.menu_cache[i as int].label, w as int));
                        paint(&mut self.canvas, r, 0, &label, fg, bg, selected);
                    }
                    i += 1;
                }
            },
            None => {},
        }
    }

    /// Bytes that park the terminal cursor.
    fn park(&self, scr: &ScreenSnap) -> (out: Vec<u8>)
        requires
            self.wf(),
        ensures
            out@ == cursor_out(self@, *scr),
    {
        match self.keysel {
            Some(ks) => self.canvas.park_cursor(ks.r as usize, ks.c as usize, true),
            None => {
                if self.tabs.len() > 0 {
                    if self.tabs[self.active].scroll > 0 {
                        self.canvas.park_cursor(0, 0, false)
                    } else {
                        let (cr, cc) = scr.cursor;
                        let r = if (cr as usize) < self.view_rows - 1 { cr as usize } else { self.view_rows - 1 };
                        let c = if (cc as usize) < self.view_cols - 1 { cc as usize } else { self.view_cols - 1 };
                        self.canvas.park_cursor(r, c, !scr.hide_cursor)
                    }
                } else {
                    self.canvas.park_cursor(0, 0, true)
                }
            },
        }
    }

    /// Compose and draw the next frame. Returns the bytes for the terminal:
    /// the changed rows, then the cursor placement. `scr` is the active
    /// session's screen, `titles` the tab labels, `toast_expired` whether the
    /// toast has been shown long enough.
    pub fn render(
        &mut self,
        scr: &ScreenSnap,
        titles: &Vec<String>,
        clock: &str,
        battery: Option<(u8, bool)>,
        toast_expired: bool,
    ) -> (out: Vec<u8>)
        requires
            old(self).wf(),
            scr.wf(),
            titles@.len() == old(self).tabs@.len(),
            old(self).rows >= 2 || old(self).toast is None || toast_expired,
        ensures
            final(self).wf(),
            final(self).inptr == old(self).inptr,
            ({
                let s1 = if toast_expired { AppV { toast: None, ..old(self)@ } } else { old(self)@ };
                let tv = titles@.map_values(|x: String| x@);
                let frame = frame_v(s1, *scr, tv, clock@, battery);
                &&& final(self)@ == (AppV {
                    buttons: bar_buttons(s1.cols as int, labels_v(tv)),
                    tray0: tray_col(s1.cols as int, tray_text(clock@, battery)) as usize,
                    start_c0: 0,
                    start_c1: (if s1.cols - 1 < 6 { s1.cols - 1 } else { 6 }) as usize,
                    ..s1
                })
                &&& out@ == frame_bytes(old(self).canvas.prev_v(), frame, s1.rows as int, s1.cols as int)
                    + cursor_out(s1, *scr)
                &&& final(self).canvas.prev_v() == frame
                &&& final(self).canvas.cur_v() == old(self).canvas.prev_v()
            }),
    {
        if toast_expired {
            self.toast = None;
        }
        let ghost s1 = self@;
        let ghost old_prev = self.canvas.prev_v();
        self.draw_view(scr);
        self.draw_bar(titles, clock, battery);
        let ghost s2 = self@;
        self.draw_toast();
        let ghost before_menu = self.canvas.cur_v();
        self.draw_menu();
        proof {
            if let Some(sel) = s1.menu {
                let w = menu_width_v(s1.menu_cache, s1.view_cols as int);
                lemma_menu_layer_same(before_menu, s2, s1, sel, w, s1.menu_cache.len() as int);
            }
        }
        let mut out = self.canvas.flush();
        let p = self.park(scr);
        assert(cursor_out(self@, *scr) == cursor_out(s1, *scr));
        out.extend_from_slice(p.as_slice());
        out
    }
}


// ---------------------------------------------------------------------
// The main loop's bookkeeping.

/// Keep a scrolled-back view anchored on the same text while `total`
/// lines of scrollback exist now.
pub open spec fn anchor_v(s: AppV, tab: int, total: usize) -> AppV {
    let t = s.tabs[tab];
    if t.scroll == 0 {
        s
    } else if total > t.last_scroll_total {
        let target = t.scroll + (total - t.last_scroll_total);
        let off = (if target < total { target } else { total as int }) as usize;
        AppV {
            tabs: s.tabs.update(tab, Tab { scroll: off, last_scroll_total: total }),
            out: s.out.push(EffectV::SetScroll(tab as usize, off)),
            ..s
        }
    } else {
        AppV { tabs: s.tabs.update(tab, Tab { scroll: t.scroll, last_scroll_total: total }), ..s }
    }
}

/// The tabs among the first `k` whose session is alive, in order.
pub open spec fn keep_alive(tabs: Seq<Tab>, alive: Seq<bool>, k: int) -> Seq<Tab>
    decreases k,
{
    if k <= 0 {
        Seq::empty()
    } else if alive[k - 1] {
        keep_alive(tabs, alive, k - 1).push(tabs[k - 1])
    } else {
        keep_alive(tabs, alive, k - 1)
    }
}

/// Drop the tabs of exited sessions, keeping the active index valid; with
/// none left the multiplexer quits.
pub open spec fn prune_v(s: AppV, alive: Seq<bool>) -> AppV {
    let tabs = keep_alive(s.tabs, alive, s.tabs.len() as int);
    if tabs.len() == 0 {
        AppV { tabs, quit: true, ..s }
    } else if s.active >= tabs.len() {
        AppV { tabs, active: (tabs.len() - 1) as usize, ..s }
    } else {
        AppV { tabs, ..s }
    }
}

pub proof fn lemma_keep_alive_len(tabs: Seq<Tab>, alive: Seq<bool>, k: int)
    requires
        0 <= k,
    ensures
        keep_alive(tabs, alive, k).len() <= k,
    decreases k,
{
    if k > 0 {
        lemma_keep_alive_len(tabs, alive, k - 1);
    }
}

impl App {
    /// The wait after a lone ESC ran out with no more input: it was the
    /// Escape key.
    pub fn esc_timeout(&mut self, env: &Env)
        requires
            old(self).wf(),
            env.screen.wf(),
        ensures
            final(self).wf(),
            final(self).canvas == old(self).canvas,
            old(self).inptr.lone_esc ==> final(self)@ == on_event_v(old(self)@, Event::Esc, *env)
                && final(self).inptr.pending@.len() == 0 && !final(self).inptr.lone_esc,
            !old(self).inptr.lone_esc ==> final(self)@ == old(self)@ && final(self).inptr
                == old(self).inptr,
    {
        if self.inptr.lone_esc {
            self.inptr.lone_esc = false;
            self.inptr.pending.clear();
            self.on_event(Event::Esc, env);
        }
    }

    /// How long to wait for more input before looking again, in
    /// milliseconds: briefly while a lone ESC waits to be told apart from
    /// the start of a longer sequence.
    pub fn poll_timeout_ms(&self) -> (t: u16)
        ensures
            t == (if self.inptr.lone_esc { 25u16 } else { 100u16 }),
    {
        if self.inptr.lone_esc {
            25
        } else {
            100
        }
    }

    /// The input ended (after what was read has been handled): quit.
    pub fn input_ended(&mut self)
        ensures
            final(self)@ == (AppV { quit: true, ..old(self)@ }),
            final(self).wf() == old(self).wf(),
            final(self).keeps_io(old(self)),
    {
        self.quit = true;
    }

    /// Keep tab `tab` anchored now that its session holds `total` lines of
    /// scrollback.
    pub fn anchor_scroll(&mut self, tab: usize, total: usize)
        requires
            old(self).wf(),
            tab < old(self).tabs@.len(),
        ensures
            final(self)@ == anchor_v(old(self)@, tab as int, total),
            final(self).wf(),
            final(self).keeps_io(old(self)),
    {
        let t = self.tabs[tab];
        if t.scroll == 0 {
            return;
        }
        if total > t.last_scroll_total {
            let d = total - t.last_scroll_total;
            let target = t.scroll.saturating_add(d);
            let off = if target < total { target } else { total };
            self.tabs.set(tab, Tab { scroll: off, last_scroll_total: total });
            self.emit(Effect::SetScroll { tab, offset: off });
        } else {
            self.tabs.set(tab, Tab { scroll: t.scroll, last_scroll_total: total });
        }
    }

    /// Drop the tabs whose sessions exited (`alive[i]` false).
    pub fn prune(&mut self, alive: &Vec<bool>)
        requires
            old(self).wf(),
            alive@.len() == old(self).tabs@.len(),
        ensures
            final(self)@ == prune_v(old(self)@, alive@),
            final(self).wf(),
            final(self).keeps_io(old(self)),
    {
        let mut kept: Vec<Tab> = Vec::new();
        let mut i: usize = 0;
        while i < self.tabs.len()
            invariant
                i <= self.tabs@.len(),
                self == old(self),
                alive@.len() == self.tabs@.len(),
                kept@ == keep_alive(self.tabs@, alive@, i as int),
            decreases self.tabs@.len() - i,
        {
            if alive[i] {
                kept.push(self.tabs[i]);
            }
            i += 1;
        }
        proof {
            lemma_keep_alive_len(self.tabs@, alive@, self.tabs@.len() as int);
        }
        self.tabs = kept;
        if self.tabs.len() == 0 {
            self.quit = true;
        } else if self.active >= self.tabs.len() {
            self.active = self.tabs.len() - 1;
        }
    }

    /// The terminal now has `rows x cols`. Returns whether that is a change,
    /// in which case the canvas was reset and the sessions should be resized
    /// to the new view.
    pub fn resize(&mut self, rows: usize, cols: usize) -> (changed: bool)
        requires
            old(self).wf(),
            1 <= rows <= 65535,
            1 <= cols <= 65535,
        ensures
            final(self).wf(),
            changed == (rows != old(self).rows || cols != old(self).cols),
            final(self)@ == (AppV {
                rows,
                cols,
                view_rows: view_rows_of(rows as int) as usize,
                view_cols: cols,
                ..old(self)@
            }),
            final(self).inptr == old(self).inptr,
            changed ==> final(self).canvas.cur_v() == blanks((rows * cols) as nat)
                && final(self).canvas.prev_v() == blanks((rows * cols) as nat),
            !changed ==> final(self).canvas == old(self).canvas,
    {
        if rows == self.rows && cols == self.cols {
            return false;
        }
        self.rows = rows;
        self.cols = cols;
        self.view_rows = if rows > 1 { rows - 1 } else { 1 };
        self.view_cols = cols;
        proof {
            assert(rows * cols <= 65535 * 65535) by (nonlinear_arith)
                requires
                    rows <= 65535,
                    cols <= 65535,
            ;
        }
        self.canvas.resize(rows, cols);
        true
    }
}

} // verus!
