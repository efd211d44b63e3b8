//! What the panels of the console show: texts, tones and buttons, made from the state.
//!
//! Sizes, frame rates and other measures come in as the texts that are shown; laying the panels
//! out and painting them is the application's part.

use crate::app::{
    status, status_of, Action, ActionView, AppView, Confirm, DialogState, DialogStateView, Level,
    PkgApp, Status, View,
};
use crate::backend::{short_name, shown_name};
use crate::num::{decimal, to_decimal};
use crate::order::indices;
use crate::pacman::{packages, Package, PackageView, Reason};
use crate::text::{
    chars_of, copy, join, joined, opt, pieces, pieces_by, slices, split, split_by, string_of, texts,
    to_uppercase, trim, trimmed, uppercase,
};
use crate::{ago_text, fmt_ago_at};
use vstd::prelude::*;
use vstd::slice::slice_subrange;
use vstd::view::View as _;

verus! {

/// The colours of the palette, by what they say.
#[derive(Clone, Copy, Debug, PartialEq, Eq, Structural)]
pub enum Tone {
    Text,
    Dim,
    Good,
    /// Good, but not to be stressed.
    GoodDim,
    Warn,
    Danger,
    Accent,
    AccentDim,
}

/// `x`, or nothing.
pub open spec fn given<T>(b: bool, x: T) -> Seq<T> {
    if b {
        seq![x]
    } else {
        Seq::empty()
    }
}

/// The view of a text that may be absent.
pub open spec fn opt_str(s: Option<&str>) -> Option<Seq<char>> {
    match s {
        Some(t) => Some(t@),
        None => None,
    }
}

fn number_then(n: usize, after: &str) -> (r: String)
    ensures
        r@ == decimal(n as nat) + after@,
{
    let mut s = to_decimal(n as u64);
    s.push_str(after);
    s
}

fn then_number(before: &str, n: usize) -> (r: String)
    ensures
        r@ == before@ + decimal(n as nat),
{
    let mut s = copy(before);
    s.push_str(to_decimal(n as u64).as_str());
    s
}

fn is_blank(s: &String) -> (r: bool)
    ensures
        r == (s@.len() == 0),
{
    chars_of(s.as_str()).len() == 0
}

// ------------------------------------------------------------------ the header

/// A lamp in the header.
#[derive(Debug, PartialEq, Eq)]
pub struct Lamp {
    pub text: String,
    pub tone: Tone,
    /// It pulses.
    pub busy: bool,
}

/// The model of a [`Lamp`].
#[verifier::ext_equal]
pub struct LampView {
    pub text: Seq<char>,
    pub tone: Tone,
    pub busy: bool,
}

impl vstd::view::View for Lamp {
    type V = LampView;

    open spec fn view(&self) -> LampView {
        LampView { text: self.text@, tone: self.tone, busy: self.busy }
    }
}

/// The views of some lamps.
pub open spec fn lamp_views(v: Seq<Lamp>) -> Seq<LampView> {
    v.map_values(|l: Lamp| l@)
}

fn push_lamp(v: &mut Vec<Lamp>, b: bool, text: String, tone: Tone, busy: bool)
    ensures
        lamp_views(final(v)@) == lamp_views(old(v)@) + given(
            b,
            LampView { text: text@, tone, busy },
        ),
{
    let ghost before = lamp_views(v@);
    let ghost l = LampView { text: text@, tone, busy };
    if b {
        v.push(Lamp { text, tone, busy });
    }
    assert(lamp_views(v@) =~= before + given(b, l));
}

/// The lamp of the package database.
pub open spec fn link_lamp(s: AppView) -> LampView {
    let (text, tone) = if s.fetch_ms is None {
        ("PACMAN PROBING"@, Tone::Dim)
    } else if s.packages.len() == 0 {
        ("PACMAN FAILED"@, Tone::Danger)
    } else {
        ("PACMAN OK"@, Tone::Good)
    };
    LampView { text, tone, busy: false }
}

/// What the lamp of the running command says: its label up to `//`.
pub open spec fn running_text(s: AppView) -> Seq<char> {
    match s.backend.running {
        Some(j) => "RUNNING "@ + pieces_by(j.label, " //"@)[0],
        None => Seq::empty(),
    }
}

/// The lamps of the header.
pub open spec fn lamps_of(s: AppView) -> Seq<LampView> {
    seq![link_lamp(s)] + given(
        s.system.reboot_required,
        LampView { text: "REBOOT REQUIRED"@, tone: Tone::Danger, busy: false },
    ) + given(
        s.updates.len() > 0,
        LampView {
            text: decimal(s.updates.len()) + " UPDATES"@,
            tone: Tone::Warn,
            busy: false,
        },
    ) + given(
        s.backend.fetching,
        LampView { text: "INVENTORY"@, tone: Tone::Warn, busy: true },
    ) + given(
        s.backend.checking,
        LampView { text: "CHECKING"@, tone: Tone::Warn, busy: true },
    ) + given(
        s.backend.searching is Some,
        LampView { text: "SEARCHING"@, tone: Tone::Warn, busy: true },
    ) + given(
        s.backend.running is Some,
        LampView { text: running_text(s), tone: Tone::Warn, busy: true },
    ) + given(
        s.system.tray_running,
        LampView { text: "TRAY"@, tone: Tone::Accent, busy: false },
    )
}

/// The line under the application's name: the tools and the kernel.
pub open spec fn subtitle_of(s: AppView) -> Seq<char> {
    (match s.system.aur_helper {
        Some(h) => "pacman + "@ + h,
        None => "pacman"@,
    }) + " :: "@ + (if s.system.kernel.len() == 0 {
        "linux"@
    } else {
        s.system.kernel
    })
}

/// The status line, given how long the console has been up and its frame rate.
pub open spec fn status_line(s: AppView, uptime: Seq<char>, fps: Seq<char>) -> Seq<char> {
    uptime + " :: "@ + decimal(s.rows.len()) + " ROWS :: "@ + decimal(s.updates.len())
        + " OUTDATED :: "@ + fps + " FPS :: INVENTORY "@ + (match s.fetch_ms {
        Some(ms) => ms,
        None => "0"@,
    }) + " MS"@
}

impl PkgApp {
    fn running_text(&self) -> (r: String)
        ensures
            r@ == running_text(self@),
    {
        match self.backend.running() {
            Some(j) => {
                let mut s = copy("RUNNING ");
                let label = chars_of(j.label.as_str());
                proof {
                    reveal_strlit(" //");
                }
                let parts = split_by(&label, " //");
                assert(pieces_by(j.label@, " //"@).len() > 0);
                assert(slices(parts@)[0] == parts@[0]@);
                s.push_str(string_of(parts[0]).as_str());
                s
            },
            None => String::new(),
        }
    }

    /// The lamps of the header.
    pub fn lamps(&self) -> (r: Vec<Lamp>)
        ensures
            lamp_views(r@) == lamps_of(self@),
    {
        assert(self@.packages.len() == self.packages@.len());
        assert(self@.updates.len() == self.updates@.len());
        let mut v: Vec<Lamp> = Vec::new();
        let n: usize = self.outdated_count();
        if self.fetch_ms.is_none() {
            push_lamp(&mut v, true, copy("PACMAN PROBING"), Tone::Dim, false);
        } else if self.packages.len() == 0 {
            push_lamp(&mut v, true, copy("PACMAN FAILED"), Tone::Danger, false);
        } else {
            push_lamp(&mut v, true, copy("PACMAN OK"), Tone::Good, false);
        }
        assert(lamp_views(v@) =~= seq![link_lamp(self@)]);
        push_lamp(
            &mut v,
            self.system.reboot_required,
            copy("REBOOT REQUIRED"),
            Tone::Danger,
            false,
        );
        push_lamp(&mut v, n > 0, number_then(n, " UPDATES"), Tone::Warn, false);
        push_lamp(&mut v, self.backend.fetching(), copy("INVENTORY"), Tone::Warn, true);
        push_lamp(&mut v, self.backend.checking(), copy("CHECKING"), Tone::Warn, true);
        push_lamp(
            &mut v,
            self.backend.searching().is_some(),
            copy("SEARCHING"),
            Tone::Warn,
            true,
        );
        push_lamp(
            &mut v,
            self.backend.running().is_some(),
            self.running_text(),
            Tone::Warn,
            true,
        );
        push_lamp(&mut v, self.system.tray_running, copy("TRAY"), Tone::Accent, false);
        v
    }

    /// The line under the application's name: the tools and the kernel.
    pub fn subtitle(&self) -> (r: String)
        ensures
            r@ == subtitle_of(self@),
    {
        let mut s = match &self.system.aur_helper {
            Some(h) => {
                let mut s = copy("pacman + ");
                s.push_str(h.as_str());
                s
            },
            None => copy("pacman"),
        };
        s.push_str(" :: ");
        if is_blank(&self.system.kernel) {
            s.push_str("linux");
        } else {
            s.push_str(self.system.kernel.as_str());
        }
        s
    }

    /// The status line, given how long the console has been up and its frame rate.
    pub fn status_left(&self, uptime: &str, fps: &str) -> (r: String)
        ensures
            r@ == status_line(self@, uptime@, fps@),
    {
        assert(self@.rows.len() == self.rows@.len());
        assert(self@.updates.len() == self.updates@.len());
        let mut s = copy(uptime);
        s.push_str(" :: ");
        s.push_str(to_decimal(self.rows.len() as u64).as_str());
        s.push_str(" ROWS :: ");
        s.push_str(to_decimal(self.updates.len() as u64).as_str());
        s.push_str(" OUTDATED :: ");
        s.push_str(fps);
        s.push_str(" FPS :: INVENTORY ");
        match &self.fetch_ms {
            Some(ms) => s.push_str(ms.as_str()),
            None => s.push_str("0"),
        }
        s.push_str(" MS");
        s
    }
}

// ------------------------------------------------------------------ buttons

/// A button and what it does.
#[derive(Debug, PartialEq, Eq)]
pub struct Button {
    pub label: String,
    pub enabled: bool,
    /// Its colour, where it is not the usual one.
    pub tone: Option<Tone>,
    pub action: Action,
}

/// The model of a [`Button`].
#[verifier::ext_equal]
pub struct ButtonView {
    pub label: Seq<char>,
    pub enabled: bool,
    pub tone: Option<Tone>,
    pub action: ActionView,
}

impl vstd::view::View for Button {
    type V = ButtonView;

    open spec fn view(&self) -> ButtonView {
        ButtonView {
            label: self.label@,
            enabled: self.enabled,
            tone: self.tone,
            action: self.action@,
        }
    }
}

/// The views of some buttons.
pub open spec fn button_views(v: Seq<Button>) -> Seq<ButtonView> {
    v.map_values(|b: Button| b@)
}

fn push_button(v: &mut Vec<Button>, b: bool, button: Button)
    ensures
        button_views(final(v)@) == button_views(old(v)@) + given(b, button@),
{
    let ghost before = button_views(v@);
    let ghost x = button@;
    if b {
        v.push(button);
    }
    assert(button_views(v@) =~= before + given(b, x));
}

/// A button of the usual colour.
pub open spec fn plain_button(label: Seq<char>, enabled: bool, action: ActionView) -> ButtonView {
    ButtonView { label, enabled, tone: None, action }
}

/// A button of its own colour.
pub open spec fn toned_button(
    label: Seq<char>,
    enabled: bool,
    tone: Tone,
    action: ActionView,
) -> ButtonView {
    ButtonView { label, enabled, tone: Some(tone), action }
}

fn plain(label: String, enabled: bool, action: Action) -> (r: Button)
    ensures
        r@ == plain_button(label@, enabled, action@),
{
    Button { label, enabled, tone: None, action }
}

fn toned(label: String, enabled: bool, tone: Tone, action: Action) -> (r: Button)
    ensures
        r@ == toned_button(label@, enabled, tone, action@),
{
    Button { label, enabled, tone: Some(tone), action }
}

// ------------------------------------------------------------------ the views

/// A tab of the views panel.
#[derive(Debug, PartialEq, Eq)]
pub struct Tab {
    pub label: String,
    pub shortcut: String,
    /// A dot says that something waits there.
    pub dot: bool,
    pub selected: bool,
    pub view: View,
}

/// The model of a [`Tab`].
#[verifier::ext_equal]
pub struct TabView {
    pub label: Seq<char>,
    pub shortcut: Seq<char>,
    pub dot: bool,
    pub selected: bool,
    pub view: View,
}

impl vstd::view::View for Tab {
    type V = TabView;

    open spec fn view(&self) -> TabView {
        TabView {
            label: self.label@,
            shortcut: self.shortcut@,
            dot: self.dot,
            selected: self.selected,
            view: self.view,
        }
    }
}

/// The views of some tabs.
pub open spec fn tab_views(v: Seq<Tab>) -> Seq<TabView> {
    v.map_values(|t: Tab| t@)
}

/// The name of the command key.
pub open spec fn command_key(mac: bool) -> Seq<char> {
    if mac {
        "CMD+"@
    } else {
        "CTRL+"@
    }
}

/// The name of the command key.
pub fn cmd_glyph(mac: bool) -> (r: &'static str)
    ensures
        r@ == command_key(mac),
{
    if mac {
        "CMD+"
    } else {
        "CTRL+"
    }
}

/// The tab at place `i`.
pub open spec fn tab_of(s: AppView, i: int, mac: bool) -> TabView {
    let v = View::nth(i);
    TabView {
        label: v.name() + "  "@ + decimal(s.count(v)),
        shortcut: command_key(mac) + decimal((i + 1) as nat),
        dot: (v == View::Updates || v == View::Orphans) && s.count(v) > 0,
        selected: s.view == v,
        view: v,
    }
}

impl PkgApp {
    /// The tabs of the views panel.
    pub fn tabs(&self, mac: bool) -> (r: Vec<Tab>)
        ensures
            tab_views(r@) == Seq::new(6, |i: int| tab_of(self@, i, mac)),
    {
        let mut out: Vec<Tab> = Vec::new();
        let mut i: usize = 0;
        while i < 6
            invariant
                i <= 6,
                out.len() == i,
                forall|j: int| 0 <= j < i ==> (#[trigger] out@[j])@ == tab_of(self@, j, mac),
            decreases 6 - i,
        {
            let view = match i {
                0 => View::Installed,
                1 => View::Explicit,
                2 => View::Updates,
                3 => View::Foreign,
                4 => View::Orphans,
                _ => View::Search,
            };
            let n: usize = self.count(view);
            let mut label = copy(view.label());
            label.push_str("  ");
            label.push_str(to_decimal(n as u64).as_str());
            let mut shortcut = copy(cmd_glyph(mac));
            shortcut.push_str(to_decimal((i + 1) as u64).as_str());
            out.push(
                Tab {
                    label,
                    shortcut,
                    dot: (view == View::Updates || view == View::Orphans) && n > 0,
                    selected: self.view == view,
                    view,
                },
            );
            i += 1;
        }
        assert(tab_views(out@) =~= Seq::new(6, |i: int| tab_of(self@, i, mac)));
        out
    }
}

// ------------------------------------------------------------------ the system

/// A line of a panel: what it is, and its value.
#[derive(Debug, PartialEq, Eq)]
pub struct Readout {
    pub label: &'static str,
    pub value: String,
    /// The colour of the value, where it is not the usual one.
    pub tone: Option<Tone>,
}

/// The model of a [`Readout`].
#[verifier::ext_equal]
pub struct ReadoutView {
    pub label: Seq<char>,
    pub value: Seq<char>,
    pub tone: Option<Tone>,
}

impl vstd::view::View for Readout {
    type V = ReadoutView;

    open spec fn view(&self) -> ReadoutView {
        ReadoutView { label: self.label@, value: self.value@, tone: self.tone }
    }
}

/// The views of some lines.
pub open spec fn readout_views(v: Seq<Readout>) -> Seq<ReadoutView> {
    v.map_values(|r: Readout| r@)
}

/// A line of the usual colour.
pub open spec fn line(label: Seq<char>, value: Seq<char>) -> ReadoutView {
    ReadoutView { label, value, tone: None }
}

/// A line of its own colour.
pub open spec fn toned_line(label: Seq<char>, value: Seq<char>, tone: Tone) -> ReadoutView {
    ReadoutView { label, value, tone: Some(tone) }
}

fn push_line(v: &mut Vec<Readout>, b: bool, label: &'static str, value: String)
    ensures
        readout_views(final(v)@) == readout_views(old(v)@) + given(b, line(label@, value@)),
{
    let ghost before = readout_views(v@);
    let ghost x = line(label@, value@);
    if b {
        v.push(Readout { label, value, tone: None });
    }
    assert(readout_views(v@) =~= before + given(b, x));
}

fn push_toned(v: &mut Vec<Readout>, b: bool, label: &'static str, value: String, tone: Tone)
    ensures
        readout_views(final(v)@) == readout_views(old(v)@) + given(
            b,
            toned_line(label@, value@, tone),
        ),
{
    let ghost before = readout_views(v@);
    let ghost x = toned_line(label@, value@, tone);
    if b {
        v.push(Readout { label, value, tone: Some(tone) });
    }
    assert(readout_views(v@) =~= before + given(b, x));
}

/// How a count is shown that should be zero.
pub open spec fn count_tone(n: nat) -> Tone {
    if n > 0 {
        Tone::Warn
    } else {
        Tone::Good
    }
}

/// The colour of the gauge: a reboot that is due, no updates, a few, many.
pub open spec fn gauge_tone(s: AppView) -> Tone {
    if s.system.reboot_required {
        Tone::Danger
    } else if s.updates.len() == 0 {
        Tone::Good
    } else if s.updates.len() < 20 {
        Tone::Warn
    } else {
        Tone::Danger
    }
}

/// The lines beside the gauge.
pub open spec fn gauge_lines(s: AppView) -> Seq<ReadoutView> {
    seq![
        line("packages"@, decimal(s.packages.len())),
        line("explicit"@, decimal(s.count(View::Explicit))),
        line("aur"@, decimal(s.count(View::Foreign))),
        toned_line("outdated"@, decimal(s.updates.len()), count_tone(s.updates.len())),
    ]
}

/// The cache: its size, and how much of it is old.
pub open spec fn cache_text(size: Option<Seq<char>>, candidates: Option<u32>) -> Seq<char> {
    (match size {
        Some(k) => k,
        None => "--"@,
    }) + (match candidates {
        Some(c) => if c > 0 {
            " :: "@ + decimal(c as nat) + " OLD"@
        } else {
            Seq::empty()
        },
        None => Seq::empty(),
    })
}

/// A text, or what stands for its absence.
pub open spec fn or_text(s: Option<Seq<char>>, other: Seq<char>) -> Seq<char> {
    match s {
        Some(t) => t,
        None => other,
    }
}

/// The lines of the system panel, given the size of all that is installed, and when the database
/// was synced and the check was made.
pub open spec fn system_lines(
    s: AppView,
    size: Seq<char>,
    synced: Option<Seq<char>>,
    checked: Option<Seq<char>>,
) -> Seq<ReadoutView> {
    let orphans = s.count(View::Orphans);
    seq![
        line("installed"@, size),
        line("cache"@, cache_text(s.system.cache_size, s.system.cache_candidates)),
        toned_line("orphans"@, decimal(orphans), count_tone(orphans)),
        line("db synced"@, or_text(synced, "--"@)),
        toned_line(
            "checked"@,
            or_text(checked, "NEVER"@),
            if s.check_error is Some {
                Tone::Danger
            } else {
                Tone::Text
            },
        ),
        line(
            "kernel"@,
            if s.system.kernel.len() == 0 {
                "--"@
            } else {
                s.system.kernel
            },
        ),
        line("aur helper"@, or_text(s.system.aur_helper, "NONE"@)),
        match s.system.privilege {
            Some(p) => toned_line("privilege"@, shown_name(p), Tone::Text),
            None => toned_line("privilege"@, "NONE"@, Tone::Danger),
        },
        line(
            "tray"@,
            if s.system.tray_running {
                "RUNNING"@
            } else {
                "OFF"@
            },
        ),
    ]
}

/// How long ago something was, in upper case.
pub open spec fn ago_upper(t: Option<u64>, now: u64) -> Option<Seq<char>> {
    match t {
        Some(t) => Some(uppercase(ago_text(t, now))),
        None => None,
    }
}

fn upper_ago(t: Option<u64>, now: u64) -> (r: Option<String>)
    ensures
        opt(r) == ago_upper(t, now),
{
    match t {
        Some(t) => Some(to_uppercase(fmt_ago_at(t, now).as_str())),
        None => None,
    }
}

fn borrow(s: &Option<String>) -> (r: Option<&str>)
    ensures
        opt_str(r) == opt(*s),
{
    match s {
        Some(t) => Some(t.as_str()),
        None => None,
    }
}

fn copy_or(s: Option<&str>, other: &str) -> (r: String)
    ensures
        r@ == or_text(opt_str(s), other@),
{
    match s {
        Some(t) => copy(t),
        None => copy(other),
    }
}

/// The buttons of the system panel.
pub open spec fn system_buttons_of(s: AppView) -> Seq<ButtonView> {
    let busy = s.backend.running is Some;
    let orphans = s.count(View::Orphans);
    seq![
        plain_button(
            "CLEAN CACHE"@,
            !busy && s.system.cache_size is Some,
            ActionView::CleanCache,
        ),
        toned_button(
            "ORPHANS  "@ + decimal(orphans),
            !busy && orphans > 0,
            Tone::Warn,
            ActionView::RemoveOrphans,
        ),
    ]
}

/// The line on the keys.
pub open spec fn keys_text(mac: bool) -> Seq<char> {
    let c = command_key(mac);
    c + "R REFRESH :: "@ + c + "U CHECK :: "@ + c + "1..6 VIEWS"@
}

/// The line on the keys.
pub fn keys_hint(mac: bool) -> (r: String)
    ensures
        r@ == keys_text(mac),
{
    let c = cmd_glyph(mac);
    let mut s = copy(c);
    s.push_str("R REFRESH :: ");
    s.push_str(c);
    s.push_str("U CHECK :: ");
    s.push_str(c);
    s.push_str("1..6 VIEWS");
    s
}

impl PkgApp {
    /// The gauge: how many of how many packages are outdated, and the colour that shows it.
    pub fn gauge(&self) -> (r: (usize, usize, Tone))
        ensures
            r.1 == (if self@.packages.len() == 0 {
                1
            } else {
                self@.packages.len() as int
            }),
            r.0 == (if self@.updates.len() < r.1 {
                self@.updates.len() as int
            } else {
                r.1 as int
            }),
            r.2 == gauge_tone(self@),
    {
        assert(self@.packages.len() == self.packages@.len());
        let total: usize = if self.packages.len() == 0 {
            1
        } else {
            self.packages.len()
        };
        let n: usize = self.outdated_count();
        let tone = if self.system.reboot_required {
            Tone::Danger
        } else if n == 0 {
            Tone::Good
        } else if n < 20 {
            Tone::Warn
        } else {
            Tone::Danger
        };
        (
            if n < total {
                n
            } else {
                total
            },
            total,
            tone,
        )
    }

    /// The lines beside the gauge.
    pub fn gauge_readouts(&self) -> (r: Vec<Readout>)
        ensures
            readout_views(r@) == gauge_lines(self@),
    {
        assert(self@.packages.len() == self.packages@.len());
        let n: usize = self.outdated_count();
        let mut v: Vec<Readout> = Vec::new();
        push_line(&mut v, true, "packages", to_decimal(self.packages.len() as u64));
        push_line(&mut v, true, "explicit", to_decimal(self.count(View::Explicit) as u64));
        push_line(&mut v, true, "aur", to_decimal(self.count(View::Foreign) as u64));
        push_toned(
            &mut v,
            true,
            "outdated",
            to_decimal(n as u64),
            if n > 0 {
                Tone::Warn
            } else {
                Tone::Good
            },
        );
        assert(readout_views(v@) =~= gauge_lines(self@));
        v
    }

    fn cache_text(&self) -> (r: String)
        ensures
            r@ == cache_text(self@.system.cache_size, self@.system.cache_candidates),
    {
        let mut s = copy_or(borrow(&self.system.cache_size), "--");
        let mut more = String::new();
        if let Some(c) = self.system.cache_candidates {
            if c > 0 {
                more = copy(" :: ");
                more.push_str(to_decimal(c as u64).as_str());
                more.push_str(" OLD");
            }
        }
        s.push_str(more.as_str());
        s
    }

    /// The lines of the system panel, given the size of all that is installed, and when the
    /// database was synced and the check was made.
    pub fn system_readouts_for(
        &self,
        size: &str,
        synced: Option<&str>,
        checked: Option<&str>,
    ) -> (r: Vec<Readout>)
        ensures
            readout_views(r@) == system_lines(self@, size@, opt_str(synced), opt_str(checked)),
    {
        let orphans: usize = self.count(View::Orphans);
        let mut v: Vec<Readout> = Vec::new();
        push_line(&mut v, true, "installed", copy(size));
        push_line(&mut v, true, "cache", self.cache_text());
        push_toned(
            &mut v,
            true,
            "orphans",
            to_decimal(orphans as u64),
            if orphans > 0 {
                Tone::Warn
            } else {
                Tone::Good
            },
        );
        push_line(&mut v, true, "db synced", copy_or(synced, "--"));
        push_toned(
            &mut v,
            true,
            "checked",
            copy_or(checked, "NEVER"),
            if self.check_error.is_some() {
                Tone::Danger
            } else {
                Tone::Text
            },
        );
        push_line(
            &mut v,
            true,
            "kernel",
            if is_blank(&self.system.kernel) {
                copy("--")
            } else {
                self.system.kernel.clone()
            },
        );
        push_line(&mut v, true, "aur helper", copy_or(borrow(&self.system.aur_helper), "NONE"));
        match &self.system.privilege {
            Some(p) => push_toned(&mut v, true, "privilege", short_name(p.as_str()), Tone::Text),
            None => push_toned(&mut v, true, "privilege", copy("NONE"), Tone::Danger),
        }
        push_line(
            &mut v,
            true,
            "tray",
            copy(
                if self.system.tray_running {
                    "RUNNING"
                } else {
                    "OFF"
                },
            ),
        );
        assert(readout_views(v@) =~= system_lines(self@, size@, opt_str(synced), opt_str(checked)));
        v
    }

    /// The lines of the system panel at the time `now`, given the size of all that is installed.
    pub fn system_readouts(&self, size: &str, now: u64) -> (r: Vec<Readout>)
        ensures
            readout_views(r@) == system_lines(
                self@,
                size@,
                ago_upper(self@.system.last_sync, now),
                ago_upper(self@.checked_at, now),
            ),
    {
        let synced = upper_ago(self.system.last_sync, now);
        let checked = upper_ago(self.checked_at, now);
        self.system_readouts_for(size, borrow(&synced), borrow(&checked))
    }

    /// The buttons of the system panel.
    pub fn system_buttons(&self) -> (r: Vec<Button>)
        ensures
            button_views(r@) == system_buttons_of(self@),
    {
        let busy = self.backend.running().is_some();
        let orphans: usize = self.count(View::Orphans);
        let mut v: Vec<Button> = Vec::new();
        push_button(
            &mut v,
            true,
            plain(
                copy("CLEAN CACHE"),
                !busy && self.system.cache_size.is_some(),
                Action::CleanCache,
            ),
        );
        push_button(
            &mut v,
            true,
            toned(
                then_number("ORPHANS  ", orphans),
                !busy && orphans > 0,
                Tone::Warn,
                Action::RemoveOrphans,
            ),
        );
        assert(button_views(v@) =~= system_buttons_of(self@));
        v
    }
}

// ------------------------------------------------------------------ the toolbar

/// The buttons of the toolbar; the one that searches only where searches are shown.
pub open spec fn toolbar_of(s: AppView) -> Seq<ButtonView> {
    seq![
        plain_button("REFRESH"@, !s.backend.fetching, ActionView::Refresh),
        plain_button("CHECK"@, !s.backend.checking, ActionView::Check),
        toned_button(
            "UPGRADE ALL  "@ + decimal(s.updates.len()),
            s.backend.running is None && s.updates.len() > 0,
            Tone::Warn,
            ActionView::UpgradeAll,
        ),
    ] + given(
        s.view == View::Search,
        plain_button("SEARCH"@, s.backend.searching is None, ActionView::Search),
    )
}

/// What the toolbar says of the view, given when the check was made.
pub open spec fn view_text(s: AppView, checked: Option<Seq<char>>) -> Seq<char> {
    match s.view {
        View::Installed => "ALL INSTALLED PACKAGES"@,
        View::Explicit => "PACKAGES YOU ASKED FOR (NOT DEPENDENCIES)"@,
        View::Updates => match s.check_error {
            Some(e) => "LAST CHECK FAILED :: "@ + e,
            None => match checked {
                Some(t) => "CHECKED "@ + t,
                None => "NOT CHECKED YET"@,
            },
        },
        View::Foreign => "PACKAGES NOT FROM THE REPOSITORIES (AUR / LOCAL)"@,
        View::Orphans => "DEPENDENCIES NOTHING REQUIRES ANY MORE"@,
        View::Search => ""@,
    }
}

impl PkgApp {
    /// The buttons of the toolbar; the one that searches only where searches are shown.
    pub fn toolbar(&self) -> (r: Vec<Button>)
        ensures
            button_views(r@) == toolbar_of(self@),
    {
        let n: usize = self.outdated_count();
        let mut v: Vec<Button> = Vec::new();
        push_button(
            &mut v,
            true,
            plain(copy("REFRESH"), !self.backend.fetching(), Action::Refresh),
        );
        push_button(&mut v, true, plain(copy("CHECK"), !self.backend.checking(), Action::Check));
        push_button(
            &mut v,
            true,
            toned(
                then_number("UPGRADE ALL  ", n),
                self.backend.running().is_none() && n > 0,
                Tone::Warn,
                Action::UpgradeAll,
            ),
        );
        push_button(
            &mut v,
            self.view == View::Search,
            plain(copy("SEARCH"), self.backend.searching().is_none(), Action::Search),
        );
        assert(button_views(v@) =~= toolbar_of(self@));
        v
    }

    /// What the toolbar says of the view, given when the check was made.
    pub fn view_text_for(&self, checked: Option<&str>) -> (r: String)
        ensures
            r@ == view_text(self@, opt_str(checked)),
    {
        match self.view {
            View::Installed => copy("ALL INSTALLED PACKAGES"),
            View::Explicit => copy("PACKAGES YOU ASKED FOR (NOT DEPENDENCIES)"),
            View::Updates => match &self.check_error {
                Some(e) => {
                    let mut s = copy("LAST CHECK FAILED :: ");
                    s.push_str(e.as_str());
                    s
                },
                None => match checked {
                    Some(t) => {
                        let mut s = copy("CHECKED ");
                        s.push_str(t);
                        s
                    },
                    None => copy("NOT CHECKED YET"),
                },
            },
            View::Foreign => copy("PACKAGES NOT FROM THE REPOSITORIES (AUR / LOCAL)"),
            View::Orphans => copy("DEPENDENCIES NOTHING REQUIRES ANY MORE"),
            View::Search => copy(""),
        }
    }

    /// What the toolbar says of the view at the time `now`.
    pub fn view_text(&self, now: u64) -> (r: String)
        ensures
            r@ == view_text(self@, ago_upper(self@.checked_at, now)),
    {
        let checked = upper_ago(self.checked_at, now);
        self.view_text_for(borrow(&checked))
    }

    /// The filter was edited.
    pub fn set_filter(&mut self, filter: String)
        ensures
            final(self)@ == (AppView { filter: filter@, dirty: true, ..old(self)@ }),
    {
        self.filter = filter;
        self.dirty = true;
    }
}

// ------------------------------------------------------------------ the listing

/// How a cell is set.
#[derive(Clone, Copy, Debug, PartialEq, Eq, Structural)]
pub enum Face {
    Text,
    Dim,
    Tag,
}

/// A cell of the listing.
#[derive(Debug, PartialEq, Eq)]
pub struct Cell {
    pub text: String,
    pub face: Face,
    /// Its colour, where it is not the usual one.
    pub tone: Option<Tone>,
}

/// The model of a [`Cell`].
#[verifier::ext_equal]
pub struct CellView {
    pub text: Seq<char>,
    pub face: Face,
    pub tone: Option<Tone>,
}

impl vstd::view::View for Cell {
    type V = CellView;

    open spec fn view(&self) -> CellView {
        CellView { text: self.text@, face: self.face, tone: self.tone }
    }
}

/// The headings of the listing's columns.
pub const COLUMNS: [&'static str; 6] = ["NAME", "VERSION", "LATEST", "REPO", "STATUS", "SIZE"];

/// The colour of a status in the listing.
pub open spec fn status_tone(s: Status) -> Tone {
    match s {
        Status::Outdated | Status::Orphan => Tone::Warn,
        Status::Explicit => Tone::GoodDim,
        Status::Dependency | Status::Available => Tone::Dim,
    }
}

/// The cell of a package in a column; `size` is its installed size as shown.
pub open spec fn cell_of(p: PackageView, col: usize, size: Seq<char>) -> CellView {
    if col == 0 {
        CellView {
            text: p.name,
            face: Face::Text,
            tone: Some(
                if p.installed {
                    Tone::Text
                } else {
                    Tone::Dim
                },
            ),
        }
    } else if col == 1 {
        CellView { text: p.version, face: Face::Dim, tone: None }
    } else if col == 2 {
        CellView { text: or_text(p.latest, ""@), face: Face::Dim, tone: Some(Tone::Warn) }
    } else if col == 3 {
        CellView {
            text: p.repo,
            face: Face::Tag,
            tone: Some(
                if p.is_aur() {
                    Tone::AccentDim
                } else {
                    Tone::Dim
                },
            ),
        }
    } else if col == 4 {
        CellView {
            text: status(p).word(),
            face: Face::Tag,
            tone: Some(status_tone(status(p))),
        }
    } else {
        CellView { text: size, face: Face::Dim, tone: None }
    }
}

/// The cell of a package in a column; `size` is its installed size as shown.
pub fn cell(p: &Package, col: usize, size: &str) -> (r: Cell)
    ensures
        r@ == cell_of(p@, col, size@),
{
    match col {
        0 => Cell {
            text: p.name.clone(),
            face: Face::Text,
            tone: Some(
                if p.installed {
                    Tone::Text
                } else {
                    Tone::Dim
                },
            ),
        },
        1 => Cell { text: p.version.clone(), face: Face::Dim, tone: None },
        2 => Cell {
            text: copy_or(borrow(&p.latest), ""),
            face: Face::Dim,
            tone: Some(Tone::Warn),
        },
        3 => Cell {
            text: p.repo.clone(),
            face: Face::Tag,
            tone: Some(
                if p.is_aur() {
                    Tone::AccentDim
                } else {
                    Tone::Dim
                },
            ),
        },
        4 => {
            let st = status_of(p);
            Cell {
                text: copy(st.tag()),
                face: Face::Tag,
                tone: Some(
                    match st {
                        Status::Outdated | Status::Orphan => Tone::Warn,
                        Status::Explicit => Tone::GoodDim,
                        Status::Dependency | Status::Available => Tone::Dim,
                    },
                ),
            }
        },
        _ => Cell { text: copy(size), face: Face::Dim, tone: None },
    }
}

/// The package of a row.
pub open spec fn package_of(s: AppView, row: int) -> Option<PackageView> {
    if 0 <= row < s.rows.len() && 0 <= s.rows[row] < s.source().len() {
        Some(s.source()[s.rows[row]])
    } else {
        None
    }
}

impl PkgApp {
    /// The heading of the listing.
    pub fn listing_title(&self) -> (r: &'static str)
        ensures
            r@ == (if self@.view == View::Search {
                "Search results"@
            } else {
                self@.view.name()
            }),
    {
        match self.view {
            View::Search => "Search results",
            v => v.label(),
        }
    }

    /// How many rows the listing has, in words.
    pub fn listing_tag(&self) -> (r: String)
        ensures
            r@ == decimal(self@.rows.len()) + " items"@,
    {
        assert(self@.rows.len() == self.rows@.len());
        number_then(self.rows.len(), " items")
    }

    /// The package of a row.
    pub fn row_package(&self, row: usize) -> (r: Option<&Package>)
        ensures
            match r {
                Some(p) => package_of(self@, row as int) == Some(p@),
                None => package_of(self@, row as int) is None,
            },
    {
        let src = self.source();
        assert(packages(src@).len() == src@.len());
        if row < self.rows.len() {
            let i: usize = self.rows[row];
            assert(indices(self.rows@)[row as int] == i);
            if i < src.len() {
                assert(packages(src@)[i as int] == src@[i as int]@);
                return Some(&src[i]);
            }
        }
        None
    }

    /// What a double click on a row does: it opens the package's homepage, where it has one.
    pub fn row_opened(&self, row: usize) -> (r: Option<Action>)
        ensures
            match package_of(self@, row as int) {
                Some(p) => if p.url.len() > 0 {
                    r is Some && r->0@ == ActionView::Homepage(p.url)
                } else {
                    r is None
                },
                None => r is None,
            },
    {
        match self.row_package(row) {
            Some(p) => if is_blank(&p.url) {
                None
            } else {
                Some(Action::Homepage(p.url.clone()))
            },
            None => None,
        }
    }
}

// ------------------------------------------------------------------ the inspector

/// A list of names in the inspector.
#[derive(Debug, PartialEq, Eq)]
pub struct Block {
    pub title: String,
    pub text: String,
    pub tone: Tone,
}

/// The model of a [`Block`].
#[verifier::ext_equal]
pub struct BlockView {
    pub title: Seq<char>,
    pub text: Seq<char>,
    pub tone: Tone,
}

impl vstd::view::View for Block {
    type V = BlockView;

    open spec fn view(&self) -> BlockView {
        BlockView { title: self.title@, text: self.text@, tone: self.tone }
    }
}

/// The views of some lists.
pub open spec fn block_views(v: Seq<Block>) -> Seq<BlockView> {
    v.map_values(|b: Block| b@)
}

/// The names of a list: the first forty, and how many more there are.
pub open spec fn names_text(list: Seq<Seq<char>>) -> Seq<char> {
    if list.len() > 40 {
        joined(list.take(40), "  "@) + ("  … +"@ + decimal((list.len() - 40) as nat))
    } else {
        joined(list, "  "@)
    }
}

/// A list of names as shown.
pub open spec fn block_of(title: Seq<char>, list: Seq<Seq<char>>, tone: Tone) -> BlockView {
    BlockView { title: title + " "@ + decimal(list.len()), text: names_text(list), tone }
}

/// The lists of a package: those that are not empty.
pub open spec fn blocks_of(p: PackageView) -> Seq<BlockView> {
    given(p.depends.len() > 0, block_of("DEPENDS"@, p.depends, Tone::Dim)) + given(
        p.required_by.len() > 0,
        block_of("REQUIRED BY"@, p.required_by, Tone::Dim),
    ) + given(p.optdepends.len() > 0, block_of("OPTIONAL"@, p.optdepends, Tone::Dim)) + given(
        p.provides.len() > 0,
        block_of("PROVIDES"@, p.provides, Tone::Dim),
    ) + given(p.conflicts.len() > 0, block_of("CONFLICTS"@, p.conflicts, Tone::Warn))
}

fn names(list: &Vec<String>) -> (r: String)
    ensures
        r@ == names_text(texts(list@)),
{
    let n: usize = if list.len() > 40 {
        40
    } else {
        list.len()
    };
    assert(texts(list@).len() == list@.len());
    let head = slice_subrange(list.as_slice(), 0, n);
    assert(texts(head@) =~= texts(list@).take(n as int));
    let mut s = join(head, "  ");
    if list.len() > 40 {
        s.push_str(then_number("  … +", list.len() - 40).as_str());
    } else {
        assert(texts(list@).take(n as int) =~= texts(list@));
    }
    s
}

fn push_block(v: &mut Vec<Block>, title: &str, list: &Vec<String>, tone: Tone)
    ensures
        block_views(final(v)@) == block_views(old(v)@) + given(
            texts(list@).len() > 0,
            block_of(title@, texts(list@), tone),
        ),
{
    let ghost before = block_views(v@);
    assert(texts(list@).len() == list@.len());
    if list.len() > 0 {
        let mut t = copy(title);
        t.push_str(" ");
        t.push_str(to_decimal(list.len() as u64).as_str());
        v.push(Block { title: t, text: names(list), tone });
    }
    assert(block_views(v@) =~= before + given(
        texts(list@).len() > 0,
        block_of(title@, texts(list@), tone),
    ));
}

/// The lists of a package: those that are not empty.
pub fn package_blocks(p: &Package) -> (r: Vec<Block>)
    ensures
        block_views(r@) == blocks_of(p@),
{
    let mut v: Vec<Block> = Vec::new();
    push_block(&mut v, "DEPENDS", &p.depends, Tone::Dim);
    assert(block_views(v@) =~= given(
        p@.depends.len() > 0,
        block_of("DEPENDS"@, p@.depends, Tone::Dim),
    ));
    push_block(&mut v, "REQUIRED BY", &p.required_by, Tone::Dim);
    push_block(&mut v, "OPTIONAL", &p.optdepends, Tone::Dim);
    push_block(&mut v, "PROVIDES", &p.provides, Tone::Dim);
    push_block(&mut v, "CONFLICTS", &p.conflicts, Tone::Warn);
    v
}

/// Who built a package: the name before the address.
pub open spec fn packager_name(packager: Seq<char>) -> Seq<char> {
    trimmed(pieces(packager, '<')[0])
}

/// The colour of a status in the inspector.
pub open spec fn inspector_tone(s: Status) -> Tone {
    match s {
        Status::Outdated | Status::Orphan => Tone::Warn,
        Status::Explicit => Tone::Good,
        _ => Tone::Dim,
    }
}

/// The sizes and the popularity of a package, as shown.
#[derive(Debug, PartialEq, Eq)]
pub struct Measures {
    pub installed_size: Option<String>,
    pub download_size: Option<String>,
    pub popularity: String,
}

/// The model of [`Measures`].
#[verifier::ext_equal]
pub struct MeasuresView {
    pub installed_size: Option<Seq<char>>,
    pub download_size: Option<Seq<char>>,
    pub popularity: Seq<char>,
}

impl vstd::view::View for Measures {
    type V = MeasuresView;

    open spec fn view(&self) -> MeasuresView {
        MeasuresView {
            installed_size: opt(self.installed_size),
            download_size: opt(self.download_size),
            popularity: self.popularity@,
        }
    }
}

/// The lines of a package that say what it is.
pub open spec fn identity_lines(p: PackageView, m: MeasuresView) -> Seq<ReadoutView> {
    seq![
        toned_line("status"@, status(p).word(), inspector_tone(status(p))),
        line("version"@, p.version),
    ] + given(p.latest is Some, toned_line("latest"@, or_text(p.latest, ""@), Tone::Warn)) + given(
        true,
        line("repo"@, p.repo),
    ) + given(
        m.installed_size is Some,
        line("installed size"@, or_text(m.installed_size, ""@)),
    ) + given(m.download_size is Some, line("download"@, or_text(m.download_size, ""@)))
}

/// The lines of a package that say where it comes from.
pub open spec fn origin_lines(p: PackageView, m: MeasuresView) -> Seq<ReadoutView> {
    given(p.install_date.len() > 0, line("installed on"@, p.install_date)) + given(
        p.build_date.len() > 0,
        line("built"@, p.build_date),
    ) + given(p.licenses.len() > 0, line("license"@, joined(p.licenses, ", "@))) + given(
        p.groups.len() > 0,
        line("groups"@, joined(p.groups, ", "@)),
    ) + given(p.packager.len() > 0, line("packager"@, packager_name(p.packager))) + given(
        p.maintainer.len() > 0,
        line("maintainer"@, p.maintainer),
    ) + given(p.votes is Some, line("votes"@, votes_text(p.votes, m.popularity))) + given(
        p.out_of_date,
        toned_line("aur flag"@, "OUT OF DATE"@, Tone::Danger),
    ) + given(p.validated.len() > 0, line("validated"@, p.validated))
}

/// The votes and the popularity.
pub open spec fn votes_text(votes: Option<u32>, popularity: Seq<char>) -> Seq<char> {
    match votes {
        Some(v) => decimal(v as nat) + " :: "@ + popularity,
        None => Seq::empty(),
    }
}

fn packager_text(packager: &str) -> (r: String)
    ensures
        r@ == packager_name(packager@),
{
    let cs = chars_of(packager);
    let parts = split(&cs, '<');
    assert(pieces(packager@, '<').len() > 0);
    assert(slices(parts@)[0] == parts@[0]@);
    string_of(trim(parts[0]))
}

fn votes(p: &Package, popularity: &str) -> (r: String)
    ensures
        r@ == votes_text(p@.votes, popularity@),
{
    match p.votes {
        Some(n) => {
            let mut s = to_decimal(n as u64);
            s.push_str(" :: ");
            s.push_str(popularity);
            s
        },
        None => String::new(),
    }
}

fn identity_readouts(p: &Package, m: &Measures) -> (r: Vec<Readout>)
    ensures
        readout_views(r@) == identity_lines(p@, m@),
{
    let mut v: Vec<Readout> = Vec::new();
    let st = status_of(p);
    push_toned(
        &mut v,
        true,
        "status",
        copy(st.tag()),
        match st {
            Status::Outdated | Status::Orphan => Tone::Warn,
            Status::Explicit => Tone::Good,
            _ => Tone::Dim,
        },
    );
    push_line(&mut v, true, "version", p.version.clone());
    assert(readout_views(v@) =~= seq![
        toned_line("status"@, status(p@).word(), inspector_tone(status(p@))),
        line("version"@, p@.version),
    ]);
    push_toned(
        &mut v,
        p.latest.is_some(),
        "latest",
        copy_or(borrow(&p.latest), ""),
        Tone::Warn,
    );
    push_line(&mut v, true, "repo", p.repo.clone());
    push_line(
        &mut v,
        m.installed_size.is_some(),
        "installed size",
        copy_or(borrow(&m.installed_size), ""),
    );
    push_line(
        &mut v,
        m.download_size.is_some(),
        "download",
        copy_or(borrow(&m.download_size), ""),
    );
    v
}

fn origin_readouts(p: &Package, m: &Measures) -> (r: Vec<Readout>)
    ensures
        readout_views(r@) == origin_lines(p@, m@),
{
    assert(p@.licenses.len() == p.licenses@.len());
    assert(p@.groups.len() == p.groups@.len());
    let mut v: Vec<Readout> = Vec::new();
    push_line(&mut v, !is_blank(&p.install_date), "installed on", p.install_date.clone());
    assert(readout_views(v@) =~= given(
        p@.install_date.len() > 0,
        line("installed on"@, p@.install_date),
    ));
    push_line(&mut v, !is_blank(&p.build_date), "built", p.build_date.clone());
    push_line(&mut v, p.licenses.len() > 0, "license", join(&p.licenses, ", "));
    push_line(&mut v, p.groups.len() > 0, "groups", join(&p.groups, ", "));
    push_line(&mut v, !is_blank(&p.packager), "packager", packager_text(p.packager.as_str()));
    push_line(&mut v, !is_blank(&p.maintainer), "maintainer", p.maintainer.clone());
    push_line(&mut v, p.votes.is_some(), "votes", votes(p, m.popularity.as_str()));
    push_toned(&mut v, p.out_of_date, "aur flag", copy("OUT OF DATE"), Tone::Danger);
    push_line(&mut v, !is_blank(&p.validated), "validated", p.validated.clone());
    v
}

/// The lines of a package.
pub fn package_readouts(p: &Package, m: &Measures) -> (r: Vec<Readout>)
    ensures
        readout_views(r@) == identity_lines(p@, m@) + origin_lines(p@, m@),
{
    let mut v = identity_readouts(p, m);
    let mut more = origin_readouts(p, m);
    let ghost a = readout_views(v@);
    let ghost b = readout_views(more@);
    v.append(&mut more);
    assert(readout_views(v@) =~= a + b);
    v
}

/// The buttons of a package that change nothing in what is installed.
pub open spec fn info_buttons(p: PackageView, busy: bool) -> Seq<ButtonView> {
    seq![
        plain_button("HOMEPAGE"@, p.url.len() > 0, ActionView::Homepage(p.url)),
        plain_button("COPY"@, true, ActionView::CopyName(p.name)),
    ] + (if p.is_aur() {
        seq![plain_button("PKGBUILD"@, true, ActionView::Pkgbuild(p.name))]
    } else if p.installed {
        if p.reason == Reason::Explicit {
            seq![plain_button("AS DEP"@, !busy, ActionView::MarkExplicit(p.name, false))]
        } else {
            seq![plain_button("EXPLICIT"@, !busy, ActionView::MarkExplicit(p.name, true))]
        }
    } else {
        Seq::empty()
    })
}

/// The buttons of a package that change what is installed.
pub open spec fn change_buttons(p: PackageView, busy: bool) -> Seq<ButtonView> {
    if p.installed {
        given(
            p.outdated(),
            if p.is_aur() {
                toned_button("UPGRADE"@, !busy, Tone::Warn, ActionView::UpgradeAur(p.name))
            } else {
                toned_button("UPGRADE ALL"@, !busy, Tone::Warn, ActionView::UpgradeAll)
            },
        ) + seq![toned_button("REMOVE"@, !busy, Tone::Danger, ActionView::Remove(p.name))]
    } else {
        seq![plain_button("INSTALL"@, !busy, ActionView::Install(p.name, p.is_aur()))]
    }
}

fn info_row(p: &Package, busy: bool) -> (r: Vec<Button>)
    ensures
        button_views(r@) == info_buttons(p@, busy),
{
    let mut v: Vec<Button> = Vec::new();
    push_button(
        &mut v,
        true,
        plain(copy("HOMEPAGE"), !is_blank(&p.url), Action::Homepage(p.url.clone())),
    );
    push_button(&mut v, true, plain(copy("COPY"), true, Action::CopyName(p.name.clone())));
    if p.is_aur() {
        push_button(&mut v, true, plain(copy("PKGBUILD"), true, Action::Pkgbuild(p.name.clone())));
    } else if p.installed {
        if p.reason == Reason::Explicit {
            push_button(
                &mut v,
                true,
                plain(copy("AS DEP"), !busy, Action::MarkExplicit(p.name.clone(), false)),
            );
        } else {
            push_button(
                &mut v,
                true,
                plain(copy("EXPLICIT"), !busy, Action::MarkExplicit(p.name.clone(), true)),
            );
        }
    }
    assert(button_views(v@) =~= info_buttons(p@, busy));
    v
}

fn change_row(p: &Package, busy: bool) -> (r: Vec<Button>)
    ensures
        button_views(r@) == change_buttons(p@, busy),
{
    let mut v: Vec<Button> = Vec::new();
    if p.installed {
        if p.is_aur() && p.outdated() {
            push_button(
                &mut v,
                true,
                toned(copy("UPGRADE"), !busy, Tone::Warn, Action::UpgradeAur(p.name.clone())),
            );
        } else if p.outdated() {
            push_button(
                &mut v,
                true,
                toned(copy("UPGRADE ALL"), !busy, Tone::Warn, Action::UpgradeAll),
            );
        }
        push_button(
            &mut v,
            true,
            toned(copy("REMOVE"), !busy, Tone::Danger, Action::Remove(p.name.clone())),
        );
    } else {
        push_button(
            &mut v,
            true,
            plain(copy("INSTALL"), !busy, Action::Install(p.name.clone(), p.is_aur())),
        );
    }
    assert(button_views(v@) =~= change_buttons(p@, busy));
    v
}

/// The two rows of buttons of a package; `busy` while a command runs.
pub fn package_buttons(p: &Package, busy: bool) -> (r: (Vec<Button>, Vec<Button>))
    ensures
        button_views(r.0@) == info_buttons(p@, busy),
        button_views(r.1@) == change_buttons(p@, busy),
{
    (info_row(p, busy), change_row(p, busy))
}

impl PkgApp {
    /// The repository of the selected package.
    pub fn inspector_tag(&self) -> (r: String)
        ensures
            r@ == match self@.selected_package() {
                Some(p) => p.repo,
                None => "none"@,
            },
    {
        match self.selected_package() {
            Some(p) => p.repo.clone(),
            None => copy("none"),
        }
    }
}

// ------------------------------------------------------------------ the log

/// The colour of an event.
pub open spec fn event_tone(l: Level) -> Tone {
    match l {
        Level::Info => Tone::Text,
        Level::Good => Tone::Good,
        Level::Warn => Tone::Warn,
        Level::Danger => Tone::Danger,
    }
}

/// The colour of an event.
pub fn level_tone(l: Level) -> (r: Tone)
    ensures
        r == event_tone(l),
{
    match l {
        Level::Info => Tone::Text,
        Level::Good => Tone::Good,
        Level::Warn => Tone::Warn,
        Level::Danger => Tone::Danger,
    }
}

impl PkgApp {
    /// The heading of the log: the running command, else how many lines there are.
    pub fn log_tag(&self) -> (r: (String, Tone))
        ensures
            match self@.backend.running {
                Some(j) => r.0@ == j.command_line() && r.1 == Tone::Warn,
                None => r.0@ == decimal(self@.log.len()) + " lines"@ && r.1 == Tone::Dim,
            },
    {
        assert(self@.log.len() == self.log@.len());
        match self.backend.running() {
            Some(j) => (j.command_line(), Tone::Warn),
            None => (number_then(self.log.len(), " lines"), Tone::Dim),
        }
    }
}

// ------------------------------------------------------------------ the dialogs

/// What every confirmation says.
pub const CONFIRM_NOTE: &'static str =
    "THE DESKTOP ASKS FOR YOUR PASSWORD (POLKIT) :: OUTPUT GOES TO THE EVENT LOG";

/// A confirmation as shown.
#[derive(Debug, PartialEq, Eq)]
pub struct Card {
    /// The program that will run.
    pub program: String,
    /// The whole command.
    pub command: String,
    pub tone: Tone,
}

/// The confirmation as shown: its program, its command line, and the colour of its danger.
pub fn confirm_card(c: &Confirm) -> (r: Card)
    ensures
        r.program@ == shown_name(c@.job.program),
        r.command@ == "$ "@ + c@.job.command_line(),
        r.tone == (if c@.danger {
            Tone::Danger
        } else {
            Tone::Warn
        }),
{
    let mut command = copy("$ ");
    command.push_str(c.job.command_line().as_str());
    Card {
        program: short_name(c.job.program.as_str()),
        command,
        tone: if c.danger {
            Tone::Danger
        } else {
            Tone::Warn
        },
    }
}

/// The word of a notice, and its colour.
pub fn notice_word(success: bool) -> (r: (&'static str, Tone))
    ensures
        success ==> r.0@ == "Success"@ && r.1 == Tone::Good,
        !success ==> r.0@ == "Error"@ && r.1 == Tone::Danger,
{
    if success {
        ("Success", Tone::Good)
    } else {
        ("Error", Tone::Danger)
    }
}

/// What was done to a dialog in a frame.
#[derive(Clone, Copy, Debug, PartialEq, Eq, Structural)]
pub struct Answer {
    /// It was dismissed: Escape, or a click beside it.
    pub close: bool,
    /// Enter was pressed.
    pub enter: bool,
    /// The button that was pressed, from the left.
    pub clicked: Option<usize>,
}

/// What the answer to a dialog asks for; nothing while it closes. A confirmation needs Enter or
/// its second button; its first one, and whatever dismisses a dialog, closes it. A notice is closed
/// by its one button and by Enter too.
pub open spec fn answer_action(s: AppView, a: Answer) -> Option<ActionView> {
    match s.dialog {
        Some(d) => if d.closing {
            None
        } else {
            match d.state {
                DialogStateView::Confirm(_) => if a.close || a.clicked == Some(0usize) {
                    Some(ActionView::CloseDialog)
                } else if a.enter || a.clicked == Some(1usize) {
                    Some(ActionView::ConfirmDialog)
                } else {
                    None
                },
                DialogStateView::Notice { .. } => if a.close || a.enter || a.clicked is Some {
                    Some(ActionView::CloseDialog)
                } else {
                    None
                },
            }
        },
        None => None,
    }
}

impl PkgApp {
    /// What the answer to the open dialog asks for.
    pub fn dialog_action(&self, a: Answer) -> (r: Option<Action>)
        ensures
            match r {
                Some(x) => answer_action(self@, a) == Some(x@),
                None => answer_action(self@, a) is None,
            },
    {
        match &self.dialog {
            Some(d) => if d.closing {
                None
            } else {
                let first = match a.clicked {
                    Some(n) => n == 0,
                    None => false,
                };
                let second = match a.clicked {
                    Some(n) => n == 1,
                    None => false,
                };
                match &d.state {
                    DialogState::Confirm(_) => if a.close || first {
                        Some(Action::CloseDialog)
                    } else if a.enter || second {
                        Some(Action::ConfirmDialog)
                    } else {
                        None
                    },
                    DialogState::Notice { .. } => if a.close || a.enter || a.clicked.is_some() {
                        Some(Action::CloseDialog)
                    } else {
                        None
                    },
                }
            },
            None => None,
        }
    }
}

// ------------------------------------------------------------------ laws

/// While a command runs, no button starts another: each that would is disabled.
pub proof fn nothing_starts_while_a_command_runs(s: AppView, p: PackageView, i: int)
    requires
        s.backend.running is Some,
    ensures
        0 <= i < change_buttons(p, true).len() ==> !change_buttons(p, true)[i].enabled,
        0 <= i < system_buttons_of(s).len() ==> !system_buttons_of(s)[i].enabled,
        0 <= i < toolbar_of(s).len() && toolbar_of(s)[i].action == ActionView::UpgradeAll
            ==> !toolbar_of(s)[i].enabled,
{
}

/// A package that is not installed can only be installed, and one that is cannot be installed
/// again.
pub proof fn only_missing_packages_are_installed(p: PackageView, busy: bool, i: int)
    requires
        0 <= i < change_buttons(p, busy).len(),
    ensures
        change_buttons(p, busy)[i].action is Install <==> !p.installed,
{
}

/// A repo package is never upgraded alone: its button asks for the full upgrade.
pub proof fn repo_packages_are_upgraded_together(p: PackageView, busy: bool, i: int)
    requires
        !p.is_aur(),
        0 <= i < change_buttons(p, busy).len(),
    ensures
        !(change_buttons(p, busy)[i].action is UpgradeAur),
{
}

/// A confirmation never goes ahead when it was dismissed, whatever else was pressed.
pub proof fn dismissal_wins(s: AppView, a: Answer)
    requires
        a.close,
    ensures
        answer_action(s, a) != Some(ActionView::ConfirmDialog),
{
}

/// Enter answers every open dialog: it goes ahead with a confirmation and closes a notice.
pub proof fn enter_answers_every_dialog(s: AppView, a: Answer)
    requires
        s.dialog is Some,
        !s.dialog->0.closing,
        a.enter,
        !a.close,
        a.clicked is None,
    ensures
        s.dialog->0.state is Confirm ==> answer_action(s, a) == Some(ActionView::ConfirmDialog),
        s.dialog->0.state is Notice ==> answer_action(s, a) == Some(ActionView::CloseDialog),
{
}

/// A dialog that is closing takes no answer.
pub proof fn closing_dialog_takes_no_answer(s: AppView, a: Answer)
    requires
        s.dialog is Some,
        s.dialog->0.closing,
    ensures
        answer_action(s, a) is None,
{
}

} // verus!
