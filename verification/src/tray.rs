//! fuide-arch-update-tray — the logic of the systray applet.
//!
//! Checks for pacman / AUR updates on a timer (`checkupdates` + `<helper> -Qua`, no root),
//! keeps the shared state file up to date, shows a StatusNotifierItem whose icon and menu
//! reflect the pending updates, and sends a desktop notification when new updates appear.
//! Left click / the notification's action open the GUI.
//!
//!   fuide-arch-update-tray [--interval SECS] [--no-initial-check]

use crate::backend::{after_check, check_result, state_after_check};
use crate::num::{decimal, number, parse_u64, to_decimal};
use crate::pacman::{upgrades, Upgrade, UpgradeView};
use crate::state::{
    carriable, parsed, state_is_read_back, state_lines, written, CheckState, StateView,
};
use crate::text::{
    chars_of, copy, join, joined, lines_of, path_join, path_joined, push_copy, same_str, texts,
};
use crate::{ago_text, duration_text, fmt_ago_at, fmt_duration};
use vstd::prelude::*;

verus! {

/// The name shown in the panel.
pub const APP_NAME: &'static str = "FUIDE Arch-Update";

/// Seconds between checks.
pub const DEFAULT_INTERVAL: u64 = 3600;

/// Delay before the first check so a fresh desktop session has its network up.
pub const INITIAL_DELAY: u64 = 20;

/// Menu entries per package list before it is cut with "…".
pub const MENU_MAX: usize = 25;

/// What a menu entry does.
#[derive(Debug, PartialEq, Eq)]
pub enum TrayAction {
    /// Nothing: the entry only tells something.
    Nothing,
    /// Open the GUI with these arguments.
    OpenGui(Vec<String>),
    /// Check for updates now.
    Check,
    Quit,
}

/// The model of a [`TrayAction`].
#[verifier::ext_equal]
pub enum TrayActionView {
    Nothing,
    OpenGui(Seq<Seq<char>>),
    Check,
    Quit,
}

impl View for TrayAction {
    type V = TrayActionView;

    open spec fn view(&self) -> TrayActionView {
        match self {
            TrayAction::Nothing => TrayActionView::Nothing,
            TrayAction::OpenGui(args) => TrayActionView::OpenGui(texts(args@)),
            TrayAction::Check => TrayActionView::Check,
            TrayAction::Quit => TrayActionView::Quit,
        }
    }
}

/// An entry of a menu.
#[derive(Debug, PartialEq, Eq)]
pub struct Entry {
    pub label: String,
    pub enabled: bool,
    pub action: TrayAction,
}

/// The model of an [`Entry`].
#[verifier::ext_equal]
pub struct EntryView {
    pub label: Seq<char>,
    pub enabled: bool,
    pub action: TrayActionView,
}

impl View for Entry {
    type V = EntryView;

    open spec fn view(&self) -> EntryView {
        EntryView { label: self.label@, enabled: self.enabled, action: self.action@ }
    }
}

/// The views of some entries.
pub open spec fn entry_views(v: Seq<Entry>) -> Seq<EntryView> {
    v.map_values(|e: Entry| e@)
}

/// One line of the tray's menu.
#[derive(Debug, PartialEq, Eq)]
pub enum MenuItem {
    Standard(Entry),
    SubMenu { label: String, items: Vec<Entry> },
    Separator,
}

/// The model of a [`MenuItem`].
#[verifier::ext_equal]
pub enum MenuView {
    Standard(EntryView),
    SubMenu { label: Seq<char>, items: Seq<EntryView> },
    Separator,
}

impl View for MenuItem {
    type V = MenuView;

    open spec fn view(&self) -> MenuView {
        match self {
            MenuItem::Standard(e) => MenuView::Standard(e@),
            MenuItem::SubMenu { label, items } => MenuView::SubMenu {
                label: label@,
                items: entry_views(items@),
            },
            MenuItem::Separator => MenuView::Separator,
        }
    }
}

/// The views of a menu.
pub open spec fn menu_views(v: Seq<MenuItem>) -> Seq<MenuView> {
    v.map_values(|m: MenuItem| m@)
}

/// Which icon the tray shows.
#[derive(Clone, Copy, Debug, PartialEq, Eq, Structural)]
pub enum IconKind {
    Current,
    Updates,
    Checking,
    Error,
}

impl IconKind {
    /// Its colour: red, green, blue.
    pub fn colour(self) -> (r: (u8, u8, u8))
        ensures
            r == match self {
                IconKind::Current => (0x00u8, 0xE5u8, 0xFFu8),
                IconKind::Updates => (0xFFu8, 0xAAu8, 0x28u8),
                IconKind::Checking => (0x5Au8, 0x8Cu8, 0x9Bu8),
                IconKind::Error => (0xFFu8, 0x46u8, 0x5Au8),
            },
    {
        match self {
            IconKind::Current => (0x00, 0xE5, 0xFF),
            IconKind::Updates => (0xFF, 0xAA, 0x28),
            IconKind::Checking => (0x5A, 0x8C, 0x9B),
            IconKind::Error => (0xFF, 0x46, 0x5A),
        }
    }
}

/// What the tray knows.
#[derive(Debug, PartialEq)]
pub struct Tray {
    pub state: CheckState,
    pub checking: bool,
}

/// The model of a [`Tray`].
#[verifier::ext_equal]
pub struct TrayView {
    pub state: StateView,
    pub checking: bool,
}

impl View for Tray {
    type V = TrayView;

    open spec fn view(&self) -> TrayView {
        TrayView { state: self.state@, checking: self.checking }
    }
}

/// `N updates available`, with the right plural.
pub open spec fn available(n: nat) -> Seq<char> {
    if n == 1 {
        "1 update available"@
    } else {
        decimal(n) + " updates available"@
    }
}

fn available_text(n: usize) -> (r: String)
    ensures
        r@ == available(n as nat),
{
    if n == 1 {
        copy("1 update available")
    } else {
        let mut s = to_decimal(n as u64);
        s.push_str(" updates available");
        s
    }
}

/// The updates that are from the AUR, or those that are not.
pub open spec fn part(u: Seq<UpgradeView>, aur: bool) -> Seq<UpgradeView>
    decreases u.len(),
{
    if u.len() == 0 {
        Seq::empty()
    } else if u.last().aur == aur {
        part(u.drop_last(), aur).push(u.last())
    } else {
        part(u.drop_last(), aur)
    }
}

/// The entry of an update: it opens the GUI on that package.
pub open spec fn update_entry(u: UpgradeView) -> EntryView {
    EntryView {
        label: u.name + "  "@ + u.current + " → "@ + u.new,
        enabled: true,
        action: TrayActionView::OpenGui(seq!["--select"@, u.name]),
    }
}

/// An entry that only tells something.
pub open spec fn told(label: Seq<char>) -> EntryView {
    EntryView { label, enabled: false, action: TrayActionView::Nothing }
}

/// The entries of a list of updates: the first 25, and how many more there are.
pub open spec fn list_entries(u: Seq<UpgradeView>) -> Seq<EntryView> {
    if u.len() > MENU_MAX {
        u.take(MENU_MAX as int).map_values(|x: UpgradeView| update_entry(x)).push(
            told("… "@ + decimal((u.len() - MENU_MAX) as nat) + " more"@),
        )
    } else {
        u.map_values(|x: UpgradeView| update_entry(x))
    }
}

/// The submenu of a list of updates; none where there are none.
pub open spec fn list_menu(label: Seq<char>, u: Seq<UpgradeView>) -> Seq<MenuView> {
    if u.len() == 0 {
        Seq::empty()
    } else {
        seq![
            MenuView::SubMenu {
                label: label + " ("@ + decimal(u.len()) + ")"@,
                items: list_entries(u),
            },
        ]
    }
}

impl TrayView {
    /// How many updates are pending.
    pub open spec fn count(self) -> nat {
        self.state.updates.len()
    }

    /// The state in one line.
    pub open spec fn summary(self) -> Seq<char> {
        if self.count() == 0 {
            match self.state.error {
                None => "System is up to date"@,
                Some(e) => "Check failed: "@ + e,
            }
        } else {
            available(self.count())
        }
    }

    /// Which icon shows it.
    pub open spec fn icon_kind(self) -> IconKind {
        if self.checking {
            IconKind::Checking
        } else if self.count() > 0 {
            IconKind::Updates
        } else if self.state.error is Some {
            IconKind::Error
        } else {
            IconKind::Current
        }
    }

    /// The text of the tool tip at the time `now`.
    pub open spec fn tool_tip(self, now: u64) -> Seq<char> {
        match self.state.checked_at {
            Some(t) => self.summary() + ("\nLast check "@ + ago_text(t, now)),
            None => self.summary(),
        }
    }

    /// The lines on the last and the next check: `left` is how many seconds it is until the next.
    pub open spec fn times(self, now: u64, left: Option<u64>) -> Seq<MenuView> {
        let last = match self.state.checked_at {
            Some(t) => seq![MenuView::Standard(told("Last check "@ + ago_text(t, now)))],
            None => Seq::empty(),
        };
        let next = if self.checking {
            seq![MenuView::Standard(told("Checking…"@))]
        } else {
            match left {
                Some(s) => seq![
                    MenuView::Standard(told("Next check in "@ + duration_text(s as nat))),
                ],
                None => Seq::empty(),
            }
        };
        last + next
    }

    /// The state file has changed: it is taken over, but not in the middle of a check.
    pub open spec fn reloaded(self, st: StateView) -> TrayView {
        if self.checking {
            self
        } else {
            TrayView { state: st, ..self }
        }
    }

    /// What the menu ends with: the commands.
    pub open spec fn commands(self) -> Seq<MenuView> {
        seq![
            MenuView::Separator,
            MenuView::Standard(
                EntryView {
                    label: "Open "@ + APP_NAME@,
                    enabled: true,
                    action: TrayActionView::OpenGui(Seq::empty()),
                },
            ),
            MenuView::Standard(
                EntryView {
                    label: "Upgrade now…"@,
                    enabled: self.count() > 0,
                    action: TrayActionView::OpenGui(seq!["--upgrade"@]),
                },
            ),
            MenuView::Standard(
                EntryView {
                    label: "Check for updates"@,
                    enabled: !self.checking,
                    action: TrayActionView::Check,
                },
            ),
            MenuView::Separator,
            MenuView::Standard(
                EntryView { label: "Quit"@, enabled: true, action: TrayActionView::Quit },
            ),
        ]
    }

    /// The menu at the time `now`, `left` seconds before the next check.
    pub open spec fn menu(self, now: u64, left: Option<u64>) -> Seq<MenuView> {
        let head = EntryView {
            label: self.summary(),
            enabled: self.count() > 0,
            action: TrayActionView::OpenGui(Seq::empty()),
        };
        seq![MenuView::Standard(head)] + list_menu(
            "Repositories"@,
            part(self.state.updates, false),
        ) + list_menu("AUR"@, part(self.state.updates, true)) + seq![MenuView::Separator]
            + self.times(now, left) + self.commands()
    }
}

fn no_args() -> (r: TrayAction)
    ensures
        r@ == TrayActionView::OpenGui(Seq::empty()),
{
    let v: Vec<String> = Vec::new();
    assert(texts(v@) =~= Seq::empty());
    TrayAction::OpenGui(v)
}

fn tell(label: String) -> (r: Entry)
    ensures
        r@ == told(label@),
{
    Entry { label, enabled: false, action: TrayAction::Nothing }
}

fn entry_of(u: &Upgrade) -> (r: Entry)
    ensures
        r@ == update_entry(u@),
{
    let mut label = u.name.clone();
    label.push_str("  ");
    label.push_str(u.current.as_str());
    label.push_str(" → ");
    label.push_str(u.new.as_str());
    let mut args: Vec<String> = Vec::new();
    push_copy(&mut args, "--select");
    push_copy(&mut args, u.name.as_str());
    assert(texts(args@) =~= seq!["--select"@, u.name@]);
    Entry { label, enabled: true, action: TrayAction::OpenGui(args) }
}

/// The updates that are from the AUR, or those that are not.
fn select_part(u: &Vec<Upgrade>, aur: bool) -> (r: Vec<Upgrade>)
    ensures
        upgrades(r@) == part(upgrades(u@), aur),
{
    let ghost all = upgrades(u@);
    let mut out: Vec<Upgrade> = Vec::new();
    let mut i: usize = 0;
    assert(upgrades(out@) =~= part(all.take(0), aur));
    while i < u.len()
        invariant
            i <= u.len(),
            all == upgrades(u@),
            upgrades(out@) == part(all.take(i as int), aur),
        decreases u.len() - i,
    {
        assert(all.take(i + 1).drop_last() =~= all.take(i as int));
        assert(all.take(i + 1).last() == u@[i as int]@);
        let ghost before = upgrades(out@);
        if u[i].aur == aur {
            out.push(u[i].clone());
            assert(upgrades(out@) =~= before.push(u@[i as int]@));
        }
        i += 1;
    }
    assert(all.take(all.len() as int) =~= all);
    out
}

fn entries_of(u: &Vec<Upgrade>) -> (r: Vec<Entry>)
    ensures
        entry_views(r@) == list_entries(upgrades(u@)),
{
    let ghost all = upgrades(u@);
    let n: usize = if u.len() > MENU_MAX {
        MENU_MAX
    } else {
        u.len()
    };
    let mut out: Vec<Entry> = Vec::new();
    let mut i: usize = 0;
    while i < n
        invariant
            i <= n <= u.len(),
            all == upgrades(u@),
            out.len() == i,
            forall|j: int| 0 <= j < i ==> (#[trigger] out@[j])@ == update_entry(all[j]),
        decreases n - i,
    {
        assert(all[i as int] == u@[i as int]@);
        out.push(entry_of(&u[i]));
        i += 1;
    }
    assert(all.len() == u@.len());
    assert(entry_views(out@) =~= all.take(n as int).map_values(
        |x: UpgradeView| update_entry(x),
    ));
    if u.len() > MENU_MAX {
        let mut label = copy("… ");
        label.push_str(to_decimal((u.len() - MENU_MAX) as u64).as_str());
        label.push_str(" more");
        let ghost before = entry_views(out@);
        out.push(tell(label));
        assert(entry_views(out@) =~= before.push(told(label@)));
    } else {
        assert(all.take(n as int) =~= all);
    }
    out
}

fn push_item(menu: &mut Vec<MenuItem>, item: MenuItem)
    ensures
        menu_views(final(menu)@) == menu_views(old(menu)@).push(item@),
{
    let ghost v = item@;
    menu.push(item);
    assert(menu_views(menu@) =~= menu_views(old(menu)@).push(v));
}

fn push_list(menu: &mut Vec<MenuItem>, label: &str, u: &Vec<Upgrade>)
    ensures
        menu_views(final(menu)@) == menu_views(old(menu)@) + list_menu(label@, upgrades(u@)),
{
    assert(upgrades(u@).len() == u@.len());
    if u.len() == 0 {
        assert(menu_views(menu@) =~= menu_views(old(menu)@) + Seq::<MenuView>::empty());
        return;
    }
    let mut text = copy(label);
    text.push_str(" (");
    text.push_str(to_decimal(u.len() as u64).as_str());
    text.push_str(")");
    push_item(menu, MenuItem::SubMenu { label: text, items: entries_of(u) });
    assert(menu_views(menu@) =~= menu_views(old(menu)@) + list_menu(label@, upgrades(u@)));
}

impl Tray {
    /// How many updates are pending.
    pub fn count(&self) -> (r: usize)
        ensures
            r == self@.count(),
    {
        self.state.updates.len()
    }

    /// The state in one line.
    pub fn summary(&self) -> (r: String)
        ensures
            r@ == self@.summary(),
    {
        let n: usize = self.count();
        if n == 0 {
            match &self.state.error {
                None => copy("System is up to date"),
                Some(e) => {
                    let mut s = copy("Check failed: ");
                    s.push_str(e.as_str());
                    s
                },
            }
        } else {
            available_text(n)
        }
    }

    /// Which icon shows it.
    pub fn icon_kind(&self) -> (r: IconKind)
        ensures
            r == self@.icon_kind(),
    {
        if self.checking {
            IconKind::Checking
        } else if self.count() > 0 {
            IconKind::Updates
        } else if self.state.error.is_some() {
            IconKind::Error
        } else {
            IconKind::Current
        }
    }

    /// The text of the tool tip at the time `now`.
    pub fn tool_tip(&self, now: u64) -> (r: String)
        ensures
            r@ == self@.tool_tip(now),
    {
        let mut s = self.summary();
        if let Some(t) = self.state.checked_at {
            let mut l = copy("\nLast check ");
            l.push_str(fmt_ago_at(t, now).as_str());
            s.push_str(l.as_str());
        }
        s
    }

    fn push_times(&self, menu: &mut Vec<MenuItem>, now: u64, left: Option<u64>)
        ensures
            menu_views(final(menu)@) == menu_views(old(menu)@) + self@.times(now, left),
    {
        let ghost before = menu_views(menu@);
        if let Some(t) = self.state.checked_at {
            let mut l = copy("Last check ");
            l.push_str(fmt_ago_at(t, now).as_str());
            push_item(menu, MenuItem::Standard(tell(l)));
        }
        if self.checking {
            push_item(menu, MenuItem::Standard(tell(copy("Checking…"))));
        } else if let Some(s) = left {
            let mut l = copy("Next check in ");
            l.push_str(fmt_duration(s).as_str());
            push_item(menu, MenuItem::Standard(tell(l)));
        }
        assert(menu_views(menu@) =~= before + self@.times(now, left));
    }

    fn push_commands(&self, menu: &mut Vec<MenuItem>)
        ensures
            menu_views(final(menu)@) == menu_views(old(menu)@) + self@.commands(),
    {
        let ghost before = menu_views(menu@);
        push_item(menu, MenuItem::Separator);
        let mut open = copy("Open ");
        open.push_str(APP_NAME);
        push_item(
            menu,
            MenuItem::Standard(Entry { label: open, enabled: true, action: no_args() }),
        );
        let mut args: Vec<String> = Vec::new();
        push_copy(&mut args, "--upgrade");
        assert(texts(args@) =~= seq!["--upgrade"@]);
        push_item(
            menu,
            MenuItem::Standard(
                Entry {
                    label: copy("Upgrade now…"),
                    enabled: self.count() > 0,
                    action: TrayAction::OpenGui(args),
                },
            ),
        );
        push_item(
            menu,
            MenuItem::Standard(
                Entry {
                    label: copy("Check for updates"),
                    enabled: !self.checking,
                    action: TrayAction::Check,
                },
            ),
        );
        push_item(menu, MenuItem::Separator);
        push_item(
            menu,
            MenuItem::Standard(
                Entry { label: copy("Quit"), enabled: true, action: TrayAction::Quit },
            ),
        );
        assert(menu_views(menu@) =~= before + self@.commands());
    }

    /// The menu at the time `now`, `left` seconds before the next check.
    pub fn menu(&self, now: u64, left: Option<u64>) -> (r: Vec<MenuItem>)
        ensures
            menu_views(r@) == self@.menu(now, left),
    {
        let mut menu: Vec<MenuItem> = Vec::new();
        let head = Entry {
            label: self.summary(),
            enabled: self.count() > 0,
            action: no_args(),
        };
        let ghost first = MenuView::Standard(head@);
        push_item(&mut menu, MenuItem::Standard(head));
        assert(menu_views(menu@) =~= seq![first]);
        push_list(&mut menu, "Repositories", &select_part(&self.state.updates, false));
        push_list(&mut menu, "AUR", &select_part(&self.state.updates, true));
        let ghost lists = menu_views(menu@);
        push_item(&mut menu, MenuItem::Separator);
        assert(menu_views(menu@) =~= lists + seq![MenuView::Separator]);
        self.push_times(&mut menu, now, left);
        self.push_commands(&mut menu);
        menu
    }

    /// The state file has changed: it is taken over, but not in the middle of a check.
    pub fn reload(&mut self, st: CheckState)
        ensures
            final(self)@ == old(self)@.reloaded(st@),
    {
        if !self.checking {
            self.state = st;
        }
    }

    /// A check begins.
    pub fn begin_check(&mut self)
        ensures
            final(self)@ == (TrayView { checking: true, ..old(self)@ }),
    {
        self.checking = true;
    }

    /// A check has ended with `result`; `saved` is the state file's content, `now` the unix time.
    /// Gives the state to save and the names of the updates that the tray did not know of.
    pub fn end_check(
        &mut self,
        saved: CheckState,
        result: &Result<Vec<Upgrade>, String>,
        now: u64,
    ) -> (r: (CheckState, Vec<String>))
        ensures
            ({
                let st = state_after_check(saved@, check_result(*result), now);
                &&& final(self)@ == (TrayView { state: st, checking: false })
                &&& r.0@ == st
                &&& texts(r.1@) == fresh_names(old(self)@.state.updates, st.updates)
            }),
    {
        let st = after_check(saved, result, now);
        let fresh = find_fresh(&self.state.updates, &st.updates);
        let keep = st.clone();
        self.state = st;
        self.checking = false;
        (keep, fresh)
    }
}

// ------------------------------------------------------------------ notifications

/// One of some updates has that name.
pub open spec fn names_update(u: Seq<UpgradeView>, name: Seq<char>) -> bool {
    exists|i: int| 0 <= i < u.len() && (#[trigger] u[i]).name == name
}

/// The names of the updates that the previous check did not have.
pub open spec fn fresh_names(
    previous: Seq<UpgradeView>,
    updates: Seq<UpgradeView>,
) -> Seq<Seq<char>>
    decreases updates.len(),
{
    if updates.len() == 0 {
        Seq::empty()
    } else {
        let before = fresh_names(previous, updates.drop_last());
        if names_update(previous, updates.last().name) {
            before
        } else {
            before.push(updates.last().name)
        }
    }
}

fn knows(u: &Vec<Upgrade>, name: &str) -> (r: bool)
    ensures
        r == names_update(upgrades(u@), name@),
{
    let ghost all = upgrades(u@);
    let mut i: usize = 0;
    while i < u.len()
        invariant
            i <= u.len(),
            all == upgrades(u@),
            forall|j: int| 0 <= j < i ==> (#[trigger] all[j]).name != name@,
        decreases u.len() - i,
    {
        assert(all[i as int] == u@[i as int]@);
        if same_str(u[i].name.as_str(), name) {
            return true;
        }
        i += 1;
    }
    false
}

fn find_fresh(previous: &Vec<Upgrade>, updates: &Vec<Upgrade>) -> (r: Vec<String>)
    ensures
        texts(r@) == fresh_names(upgrades(previous@), upgrades(updates@)),
{
    let ghost all = upgrades(updates@);
    let ghost prev = upgrades(previous@);
    let mut out: Vec<String> = Vec::new();
    let mut i: usize = 0;
    assert(texts(out@) =~= fresh_names(prev, all.take(0)));
    while i < updates.len()
        invariant
            i <= updates.len(),
            all == upgrades(updates@),
            prev == upgrades(previous@),
            texts(out@) == fresh_names(prev, all.take(i as int)),
        decreases updates.len() - i,
    {
        assert(all.take(i + 1).drop_last() =~= all.take(i as int));
        assert(all.take(i + 1).last() == updates@[i as int]@);
        if !knows(previous, updates[i].name.as_str()) {
            push_copy(&mut out, updates[i].name.as_str());
        }
        i += 1;
    }
    assert(all.take(all.len() as int) =~= all);
    out
}

/// The body of a notification: the first six names, and how many more there are.
pub open spec fn body_of(fresh: Seq<Seq<char>>) -> Seq<char> {
    if fresh.len() > 6 {
        joined(fresh.take(6), ", "@) + (" … (+"@ + decimal((fresh.len() - 6) as nat) + ")"@)
    } else {
        joined(fresh, ", "@)
    }
}

/// The notification of new updates: its summary and its body. None where there are no new ones.
pub fn notification(count: usize, fresh: &Vec<String>) -> (r: Option<(String, String)>)
    ensures
        match r {
            Some((summary, body)) => fresh@.len() > 0 && summary@ == available(count as nat)
                && body@ == body_of(texts(fresh@)),
            None => fresh@.len() == 0,
        },
{
    if fresh.len() == 0 {
        return None;
    }
    let n: usize = if fresh.len() > 6 {
        6
    } else {
        fresh.len()
    };
    let head = vstd::slice::slice_subrange(fresh.as_slice(), 0, n);
    assert(texts(head@) =~= texts(fresh@).take(n as int));
    assert(texts(fresh@).len() == fresh@.len());
    let mut body = join(head, ", ");
    if fresh.len() > 6 {
        let mut more = copy(" … (+");
        more.push_str(to_decimal((fresh.len() - 6) as u64).as_str());
        more.push_str(")");
        body.push_str(more.as_str());
    } else {
        assert(texts(fresh@).take(n as int) =~= texts(fresh@));
    }
    Some((available_text(count), body))
}

/// The arguments with which a notification's action opens the GUI; `None` for any other action.
pub fn action_args(action: &str) -> (r: Option<Vec<String>>)
    ensures
        if action@ == "open"@ || action@ == "default"@ {
            r is Some && texts(r->0@) == Seq::<Seq<char>>::empty()
        } else if action@ == "upgrade"@ {
            r is Some && texts(r->0@) == seq!["--upgrade"@]
        } else {
            r is None
        },
{
    let mut args: Vec<String> = Vec::new();
    assert(texts(args@) =~= Seq::empty());
    if same_str(action, "open") || same_str(action, "default") {
        Some(args)
    } else if same_str(action, "upgrade") {
        push_copy(&mut args, "--upgrade");
        assert(texts(args@) =~= seq!["--upgrade"@]);
        Some(args)
    } else {
        None
    }
}

// ------------------------------------------------------------------ the command line

/// What the tray's command line asks for.
#[derive(Debug, PartialEq, Eq)]
pub struct TrayArgs {
    /// Only the version is asked for.
    pub version: bool,
    /// Seconds between checks, at least a minute.
    pub interval: u64,
    pub initial_check: bool,
    /// Arguments that are not known.
    pub unknown: Vec<String>,
}

/// The model of [`TrayArgs`].
#[verifier::ext_equal]
pub struct TrayArgsView {
    pub version: bool,
    pub interval: u64,
    pub initial_check: bool,
    pub unknown: Seq<Seq<char>>,
}

impl View for TrayArgs {
    type V = TrayArgsView;

    open spec fn view(&self) -> TrayArgsView {
        TrayArgsView {
            version: self.version,
            interval: self.interval,
            initial_check: self.initial_check,
            unknown: texts(self.unknown@),
        }
    }
}

/// The interval that an argument states: the default where it is no number, and never below a
/// minute.
pub open spec fn interval_of(arg: Option<Seq<char>>) -> u64 {
    let n = match arg {
        Some(a) => match number(a, u64::MAX as nat) {
            Some(n) => n as u64,
            None => DEFAULT_INTERVAL,
        },
        None => DEFAULT_INTERVAL,
    };
    if n < 60 {
        60
    } else {
        n
    }
}

/// What some arguments ask for, after those that were read into `s`. Nothing is read after
/// `--version`.
pub open spec fn args_of(args: Seq<Seq<char>>, s: TrayArgsView) -> TrayArgsView
    decreases args.len(),
{
    if args.len() == 0 {
        s
    } else if args[0] == "--interval"@ {
        if args.len() > 1 {
            args_of(args.skip(2), TrayArgsView { interval: interval_of(Some(args[1])), ..s })
        } else {
            TrayArgsView { interval: interval_of(None), ..s }
        }
    } else if args[0] == "--no-initial-check"@ {
        args_of(args.drop_first(), TrayArgsView { initial_check: false, ..s })
    } else if args[0] == "--version"@ || args[0] == "-V"@ {
        TrayArgsView { version: true, ..s }
    } else {
        args_of(args.drop_first(), TrayArgsView { unknown: s.unknown.push(args[0]), ..s })
    }
}

fn read_interval(arg: Option<&str>) -> (r: u64)
    ensures
        r == interval_of(
            match arg {
                Some(a) => Some(a@),
                None => None,
            },
        ),
{
    let n: u64 = match arg {
        Some(a) => match parse_u64(&chars_of(a)) {
            Some(n) => n,
            None => DEFAULT_INTERVAL,
        },
        None => DEFAULT_INTERVAL,
    };
    if n < 60 {
        60
    } else {
        n
    }
}

impl TrayArgs {
    /// What the command-line arguments (without the program's name) ask for.
    pub fn parse(args: &Vec<String>) -> (r: Self)
        ensures
            r@ == args_of(
                texts(args@),
                TrayArgsView {
                    version: false,
                    interval: DEFAULT_INTERVAL,
                    initial_check: true,
                    unknown: Seq::empty(),
                },
            ),
    {
        let mut s = TrayArgs {
            version: false,
            interval: DEFAULT_INTERVAL,
            initial_check: true,
            unknown: Vec::new(),
        };
        let ghost first = s@;
        assert(first =~= (TrayArgsView {
            version: false,
            interval: DEFAULT_INTERVAL,
            initial_check: true,
            unknown: Seq::empty(),
        }));
        let ghost all = texts(args@);
        let mut i: usize = 0;
        assert(all.skip(0) =~= all);
        while i < args.len()
            invariant
                i <= args.len(),
                all == texts(args@),
                first == (TrayArgsView {
                    version: false,
                    interval: DEFAULT_INTERVAL,
                    initial_check: true,
                    unknown: Seq::empty(),
                }),
                args_of(all, first) == args_of(all.skip(i as int), s@),
            decreases args.len() - i,
        {
            let ghost rest = all.skip(i as int);
            assert(rest[0] == args@[i as int]@);
            assert(rest.drop_first() =~= all.skip(i + 1));
            let a = args[i].as_str();
            if same_str(a, "--interval") {
                if i + 1 < args.len() {
                    assert(rest[1] == args@[i + 1]@);
                    assert(rest.skip(2) =~= all.skip(i + 2));
                    s.interval = read_interval(Some(args[i + 1].as_str()));
                    i += 1;
                } else {
                    s.interval = read_interval(None);
                }
            } else if same_str(a, "--no-initial-check") {
                s.initial_check = false;
            } else if same_str(a, "--version") || same_str(a, "-V") {
                s.version = true;
                return s;
            } else {
                push_copy(&mut s.unknown, a);
            }
            i += 1;
        }
        s
    }

    /// Seconds until the first check.
    pub fn first_delay(&self) -> (r: u64)
        ensures
            r == (if self@.initial_check {
                INITIAL_DELAY
            } else {
                self@.interval
            }),
    {
        if self.initial_check {
            INITIAL_DELAY
        } else {
            self.interval
        }
    }
}

// ------------------------------------------------------------------ files

/// The GUI's binary in the directory of this executable.
pub fn gui_beside(dir: &str) -> (r: String)
    ensures
        r@ == path_joined(dir@, "fuide-arch-update"@),
{
    proof {
        reveal_strlit("fuide-arch-update");
    }
    path_join(dir, "fuide-arch-update")
}

/// The GUI's binary: the one beside this executable where there is one (`beside`), else the one
/// on the search path.
pub fn gui_binary(beside: Option<&str>) -> (r: String)
    ensures
        r@ == match beside {
            Some(p) => p@,
            None => "fuide-arch-update"@,
        },
{
    match beside {
        Some(p) => copy(p),
        None => copy("fuide-arch-update"),
    }
}

/// The lock file that keeps the tray to one instance per session: in the runtime directory where
/// there is one, else in the directory for temporary files.
pub fn lock_path(runtime: Option<&str>, temp: &str) -> (r: String)
    ensures
        r@ == path_joined(
            match runtime {
                Some(d) => d@,
                None => temp@,
            },
            "fuide-arch-update-tray.lock"@,
        ),
{
    proof {
        reveal_strlit("fuide-arch-update-tray.lock");
    }
    let dir = match runtime {
        Some(d) => d,
        None => temp,
    };
    path_join(dir, "fuide-arch-update-tray.lock")
}

// ------------------------------------------------------------------ laws

/// The interval is never below a minute, whatever the command line says.
pub proof fn interval_is_at_least_a_minute(args: Seq<Seq<char>>, s: TrayArgsView)
    requires
        s.interval >= 60,
    ensures
        args_of(args, s).interval >= 60,
    decreases args.len(),
{
    if args.len() > 0 {
        if args[0] == "--interval"@ {
            if args.len() > 1 {
                interval_is_at_least_a_minute(
                    args.skip(2),
                    TrayArgsView { interval: interval_of(Some(args[1])), ..s },
                );
            }
        } else if args[0] == "--no-initial-check"@ {
            interval_is_at_least_a_minute(
                args.drop_first(),
                TrayArgsView { initial_check: false, ..s },
            );
        } else if args[0] == "--version"@ || args[0] == "-V"@ {
        } else {
            interval_is_at_least_a_minute(
                args.drop_first(),
                TrayArgsView { unknown: s.unknown.push(args[0]), ..s },
            );
        }
    }
}

/// Only updates that the previous check did not have are new: a name is announced just when it is
/// pending now and was not before.
pub proof fn only_new_updates_are_announced(
    previous: Seq<UpgradeView>,
    updates: Seq<UpgradeView>,
    name: Seq<char>,
)
    ensures
        fresh_names(previous, updates).contains(name) <==> names_update(updates, name)
            && !names_update(previous, name),
    decreases updates.len(),
{
    let f = fresh_names(previous, updates);
    if updates.len() == 0 {
    } else {
        let d = updates.drop_last();
        let last = updates.last().name;
        let before = fresh_names(previous, d);
        only_new_updates_are_announced(previous, d, name);
        if names_update(d, name) {
            let i = choose|i: int| 0 <= i < d.len() && (#[trigger] d[i]).name == name;
            assert(updates[i].name == name);
        }
        if names_update(updates, name) && name != last {
            let i = choose|i: int| 0 <= i < updates.len() && (#[trigger] updates[i]).name == name;
            assert(d[i].name == name);
        }
        if name == last {
            assert(updates[updates.len() - 1].name == name);
        }
        if !names_update(previous, last) {
            assert(f == before.push(last));
            if before.contains(name) {
                let k = choose|k: int| 0 <= k < before.len() && before[k] == name;
                assert(f[k] == name);
            }
            if f.contains(name) && name != last {
                let k = choose|k: int| 0 <= k < f.len() && f[k] == name;
                assert(before[k] == name);
            }
            if name == last {
                assert(f[f.len() - 1] == name);
            }
        }
    }
}

/// Checking again with the same result announces nothing.
pub proof fn same_updates_announce_nothing(updates: Seq<UpgradeView>)
    ensures
        fresh_names(updates, updates).len() == 0,
{
    let f = fresh_names(updates, updates);
    if f.len() > 0 {
        only_new_updates_are_announced(updates, updates, f[0]);
        assert(f.contains(f[0]));
    }
}

/// What the window saves after a check, the tray shows once it has read the file.
pub proof fn tray_shows_what_was_saved(t: TrayView, s: StateView)
    requires
        !t.checking,
        forall|i: int| 0 <= i < s.updates.len() ==> carriable(#[trigger] s.updates[i]),
    ensures
        ({
            let r = t.reloaded(parsed(lines_of(written(state_lines(s)))));
            &&& r.state.updates == s.updates
            &&& r.state.checked_at == s.checked_at
            &&& r.icon_kind() == (TrayView { state: s, ..t }).icon_kind()
        }),
{
    state_is_read_back(s);
}

/// A list in the menu never has more than 26 entries, and each of its packages can be opened.
pub proof fn list_is_cut(u: Seq<UpgradeView>)
    ensures
        list_entries(u).len() <= MENU_MAX + 1,
        u.len() <= MENU_MAX ==> list_entries(u).len() == u.len(),
        forall|i: int|
            0 <= i < u.len() && i < MENU_MAX ==> (#[trigger] list_entries(u)[i]).enabled,
{
}

/// The two lists of the menu together hold every update, each in the list it belongs to.
pub proof fn lists_hold_every_update(u: Seq<UpgradeView>)
    ensures
        part(u, false).len() + part(u, true).len() == u.len(),
        forall|i: int| 0 <= i < u.len() ==> part(u, (#[trigger] u[i]).aur).contains(u[i]),
        forall|aur: bool, k: int|
            0 <= k < part(u, aur).len() ==> (#[trigger] part(u, aur)[k]).aur == aur,
    decreases u.len(),
{
    if u.len() > 0 {
        let d = u.drop_last();
        lists_hold_every_update(d);
        assert forall|i: int| 0 <= i < u.len() implies part(u, (#[trigger] u[i]).aur).contains(
            u[i],
        ) by {
            let p = part(u, u[i].aur);
            if i < d.len() {
                let q = part(d, u[i].aur);
                assert(d[i] == u[i]);
                assert(q.contains(u[i]));
                let k = choose|k: int| 0 <= k < q.len() && q[k] == u[i];
                assert(p[k] == u[i]);
            } else {
                assert(p[p.len() - 1] == u[i]);
            }
        }
        assert forall|aur: bool, k: int| 0 <= k < part(u, aur).len() implies (
        #[trigger] part(u, aur)[k]).aur == aur by {
            if k < part(d, aur).len() {
                assert(part(u, aur)[k] == part(d, aur)[k]);
            }
        }
    }
}

} // verus!
