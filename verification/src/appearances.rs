//! What the panels, the keys, the applet and the desktop entries are for: laws that say what is
//! shown and offered, in terms of the state itself.

use crate::app::{ActionView, AppView, Keys, Level, Status, View};
use crate::num::{decimal, number};
use crate::pacman::{PackageView, Reason, UpgradeView};
use crate::panels::{
    blocks_of, cell_of, change_buttons, identity_lines, info_buttons, lamps_of, origin_lines,
    system_buttons_of, system_lines, tab_of, toolbar_of, BlockView, ButtonView, LampView,
    MeasuresView, ReadoutView, Tone,
};
use crate::state::StateView;
use crate::text::joined;
use crate::tray::{EntryView, IconKind, MenuView, TrayActionView, TrayArgsView, TrayView};
use vstd::prelude::*;
use vstd::view::View as _;

verus! {

/// One or none.
pub open spec fn once(b: bool) -> int {
    if b {
        1
    } else {
        0
    }
}

// ------------------------------------------------------------------ texts

/// Parts are put one behind the other, the separator between each two.
pub proof fn parts_are_joined(parts: Seq<Seq<char>>, x: Seq<char>, sep: Seq<char>)
    ensures
        joined(Seq::empty(), sep) == Seq::<char>::empty(),
        joined(seq![x], sep) == x,
        parts.len() > 0 ==> joined(parts.push(x), sep) == joined(parts, sep) + sep + x,
{
    if parts.len() > 0 {
        assert(parts.push(x).drop_last() =~= parts);
    }
}

/// A path has one slash between the directory and the name.
pub proof fn paths_are_joined(dir: Seq<char>, name: Seq<char>)
    ensures
        dir.len() > 0 && dir.last() != '/' ==> crate::text::path_joined(dir, name) == dir + seq!['/']
            + name,
        crate::text::path_joined(dir.push('/'), name) == dir + seq!['/'] + name,
        crate::text::path_joined(Seq::empty(), name) == name,
{
    assert(dir.push('/') =~= dir + seq!['/']);
    assert(Seq::<char>::empty() + name =~= name);
}

/// Times are shown by their two largest units: days and hours.
pub proof fn days_are_shown_with_hours(d: nat, h: nat, rest: nat)
    requires
        d > 0,
        h < 24,
        rest < 3_600,
    ensures
        crate::duration_text(d * 86_400 + h * 3_600 + rest) == decimal(d) + "d "@ + decimal(h) + "h"@,
{
    let n = d * 86_400 + h * 3_600 + rest;
    assert(n / 86_400 == d);
    assert(n / 3_600 == d * 24 + h);
    assert((d * 24 + h) % 24 == h);
}

/// Times are shown by their two largest units: hours and minutes, the minutes with two digits.
pub proof fn hours_are_shown_with_minutes(h: nat, m: nat, s: nat)
    requires
        0 < h < 24,
        m < 60,
        s < 60,
    ensures
        crate::duration_text(h * 3_600 + m * 60 + s) == decimal(h) + "h "@ + (if m < 10 {
            "0"@ + decimal(m)
        } else {
            decimal(m)
        }) + "m"@,
{
    let n = h * 3_600 + m * 60 + s;
    assert(n / 3_600 == h);
    assert(n / 60 == h * 60 + m);
    assert((h * 60 + m) % 60 == m);
}

/// Below an hour minutes are shown alone, below a minute seconds.
pub proof fn minutes_and_seconds_are_shown_alone(m: nat, s: nat)
    requires
        m < 60,
        s < 60,
    ensures
        m > 0 ==> crate::duration_text(m * 60 + s) == decimal(m) + "m"@,
        crate::duration_text(s) == decimal(s) + "s"@,
{
    assert((m * 60 + s) / 60 == m);
}

/// How long ago something was: the time between, and nothing where it is yet to come.
pub proof fn times_ago(t: u64, span: u64)
    requires
        t + span <= u64::MAX,
    ensures
        crate::ago_text(t, (t + span) as u64) == crate::duration_text(span as nat) + " ago"@,
        crate::ago_text((t + span) as u64, t) == crate::duration_text(0) + " ago"@,
{
}

// ------------------------------------------------------------------ keys

/// With Ctrl, each key does its one thing, wherever the focus is: the settings, a refresh, a check,
/// the six views in order. Without Ctrl it does nothing, and while a dialog is open no key does
/// anything.
pub proof fn command_keys_do_their_things(s: AppView, k: Keys, focused: bool)
    ensures
        s.dialog is Some ==> s.key_actions(k).len() == 0,
        s.dialog is None ==> {
            let held = Keys { command: true, focused, ..no_keys() };
            &&& s.key_actions(Keys { comma: true, ..held }) == seq![ActionView::OpenSettings]
            &&& s.key_actions(Keys { r: true, ..held }) == seq![ActionView::Refresh]
            &&& s.key_actions(Keys { u: true, ..held }) == seq![ActionView::Check]
            &&& s.key_actions(Keys { one: true, ..held }) == seq![
                ActionView::SetView(View::Installed),
            ]
            &&& s.key_actions(Keys { two: true, ..held }) == seq![
                ActionView::SetView(View::Explicit),
            ]
            &&& s.key_actions(Keys { three: true, ..held }) == seq![
                ActionView::SetView(View::Updates),
            ]
            &&& s.key_actions(Keys { four: true, ..held }) == seq![
                ActionView::SetView(View::Foreign),
            ]
            &&& s.key_actions(Keys { five: true, ..held }) == seq![
                ActionView::SetView(View::Orphans),
            ]
            &&& s.key_actions(Keys { six: true, ..held }) == seq![ActionView::SetView(View::Search)]
            &&& s.key_actions(held).len() == 0
        },
        s.dialog is None && !k.command && !k.down && !k.up && !k.enter ==> s.key_actions(k).len()
            == 0,
{
}

/// No key is pressed.
pub open spec fn no_keys() -> Keys {
    Keys {
        command: false,
        comma: false,
        r: false,
        u: false,
        one: false,
        two: false,
        three: false,
        four: false,
        five: false,
        six: false,
        down: false,
        up: false,
        enter: false,
        backspace: false,
        focused: false,
    }
}

/// The arrows go one row down or up and stop at the ends, the first one selects the first row;
/// Enter opens the homepage of the selected package; Ctrl and Backspace ask to remove it where it
/// is installed; and where a text field has the focus none of them does.
pub proof fn list_keys_do_their_things(s: AppView, p: PackageView)
    requires
        s.dialog is None,
        s.rows.len() > 0,
        s.rows.len() <= usize::MAX,
        s.selected_package() == Some(p),
    ensures
        ({
            let at = s.table.selected->0;
            &&& s.key_actions(Keys { down: true, ..no_keys() }) == seq![
                ActionView::Select(
                    Some(
                        if at + 1 < s.rows.len() {
                            (at + 1) as usize
                        } else {
                            (s.rows.len() - 1) as usize
                        },
                    ),
                ),
            ]
            &&& s.key_actions(Keys { up: true, ..no_keys() }) == seq![
                ActionView::Select(
                    Some(
                        if at > 0 {
                            (at - 1) as usize
                        } else {
                            0usize
                        },
                    ),
                ),
            ]
            &&& p.url.len() > 0 ==> s.key_actions(Keys { enter: true, ..no_keys() }) == seq![
                ActionView::Homepage(p.url),
            ]
            &&& p.url.len() == 0 ==> s.key_actions(Keys { enter: true, ..no_keys() }).len() == 0
            &&& p.installed ==> s.key_actions(
                Keys { command: true, backspace: true, ..no_keys() },
            ) == seq![ActionView::Remove(p.name)]
            &&& !p.installed ==> s.key_actions(
                Keys { command: true, backspace: true, ..no_keys() },
            ).len() == 0
            &&& s.key_actions(Keys { backspace: true, ..no_keys() }).len() == 0
            &&& s.key_actions(
                Keys { down: true, up: true, enter: true, backspace: true, focused: true, ..no_keys() },
            ).len() == 0
        }),
{
    let k = Keys { down: true, ..no_keys() };
    assert(s.key_actions(k) =~= s.key_actions(k));
}

/// With nothing selected the first arrow selects the first row; with no rows it does nothing.
pub proof fn first_arrow_selects_the_first_row(s: AppView)
    requires
        s.dialog is None,
        s.table.selected is None,
    ensures
        s.rows.len() > 0 ==> s.key_actions(Keys { down: true, ..no_keys() }) == seq![
            ActionView::Select(Some(0usize)),
        ],
        s.rows.len() == 0 ==> s.key_actions(Keys { down: true, ..no_keys() }).len() == 0,
{
}

// ------------------------------------------------------------------ the panels

/// The lamp is lit.
pub open spec fn lit(s: AppView, text: Seq<char>, tone: Tone, busy: bool) -> bool {
    lamps_of(s).contains(LampView { text, tone, busy })
}

/// The header's lamps tell what is going on, and nothing else: one for the package database, and
/// one for each thing that is the case.
pub proof fn lamps_tell_what_is_going_on(s: AppView)
    ensures
        lamps_of(s).len() == 1 + once(s.system.reboot_required) + once(s.updates.len() > 0) + once(
            s.backend.fetching,
        ) + once(s.backend.checking) + once(s.backend.searching is Some) + once(
            s.backend.running is Some,
        ) + once(s.system.tray_running),
        s.fetch_ms is None ==> lit(s, "PACMAN PROBING"@, Tone::Dim, false),
        s.fetch_ms is Some && s.packages.len() == 0 ==> lit(
            s,
            "PACMAN FAILED"@,
            Tone::Danger,
            false,
        ),
        s.fetch_ms is Some && s.packages.len() > 0 ==> lit(s, "PACMAN OK"@, Tone::Good, false),
        s.system.reboot_required ==> lit(s, "REBOOT REQUIRED"@, Tone::Danger, false),
        s.updates.len() > 0 ==> lit(s, decimal(s.updates.len()) + " UPDATES"@, Tone::Warn, false),
        s.backend.fetching ==> lit(s, "INVENTORY"@, Tone::Warn, true),
        s.backend.checking ==> lit(s, "CHECKING"@, Tone::Warn, true),
        s.backend.searching is Some ==> lit(s, "SEARCHING"@, Tone::Warn, true),
        s.system.tray_running ==> lit(s, "TRAY"@, Tone::Accent, false),
{
    let l = lamps_of(s);
    let n1 = 1int;
    let n2 = n1 + once(s.system.reboot_required);
    let n3 = n2 + once(s.updates.len() > 0);
    let n4 = n3 + once(s.backend.fetching);
    let n5 = n4 + once(s.backend.checking);
    let n6 = n5 + once(s.backend.searching is Some);
    let n7 = n6 + once(s.backend.running is Some);
    assert(l[0] == crate::panels::link_lamp(s));
    assert(s.system.reboot_required ==> l[n1].text == "REBOOT REQUIRED"@);
    assert(s.updates.len() > 0 ==> l[n2].text == decimal(s.updates.len()) + " UPDATES"@);
    assert(s.backend.fetching ==> l[n3].text == "INVENTORY"@);
    assert(s.backend.checking ==> l[n4].text == "CHECKING"@);
    assert(s.backend.searching is Some ==> l[n5].text == "SEARCHING"@);
    assert(s.system.tray_running ==> l[n7].text == "TRAY"@);
}

/// The tabs are the six views in order, each with how many packages it has and its key.
pub proof fn tabs_are_the_views(s: AppView, mac: bool)
    ensures
        tab_of(s, 0, mac).view == View::Installed && tab_of(s, 0, mac).label == "Installed"@ + "  "@
            + decimal(s.packages.len()),
        tab_of(s, 1, mac).view == View::Explicit && tab_of(s, 1, mac).label == "Explicit"@ + "  "@
            + decimal(s.count(View::Explicit)),
        tab_of(s, 2, mac).view == View::Updates && tab_of(s, 2, mac).label == "Updates"@ + "  "@
            + decimal(s.updates.len()),
        tab_of(s, 3, mac).view == View::Foreign && tab_of(s, 3, mac).label == "AUR"@ + "  "@
            + decimal(s.count(View::Foreign)),
        tab_of(s, 4, mac).view == View::Orphans && tab_of(s, 4, mac).label == "Orphans"@ + "  "@
            + decimal(s.count(View::Orphans)),
        tab_of(s, 5, mac).view == View::Search && tab_of(s, 5, mac).label == "Search"@ + "  "@
            + decimal(s.search_results.len()),
        forall|i: int|
            0 <= i < 6 ==> {
                let t = #[trigger] tab_of(s, i, mac);
                &&& t.selected <==> s.view == t.view
                &&& t.shortcut == (if mac {
                    "CMD+"@
                } else {
                    "CTRL+"@
                }) + decimal((i + 1) as nat)
            },
        tab_of(s, 2, mac).dot <==> s.updates.len() > 0,
        tab_of(s, 4, mac).dot <==> s.count(View::Orphans) > 0,
        !tab_of(s, 0, mac).dot && !tab_of(s, 1, mac).dot && !tab_of(s, 3, mac).dot && !tab_of(
            s,
            5,
            mac,
        ).dot,
{
}

/// The button is offered, and can be pressed or not.
pub open spec fn offered(
    b: Seq<ButtonView>,
    label: Seq<char>,
    enabled: bool,
    action: ActionView,
) -> bool {
    exists|i: int|
        0 <= i < b.len() && (#[trigger] b[i]).label == label && b[i].enabled == enabled
            && b[i].action == action
}

/// The toolbar offers to refresh, to check and to upgrade everything, and in the search to search;
/// each only where it can be done now.
pub proof fn toolbar_offers_what_can_be_done(s: AppView)
    ensures
        offered(toolbar_of(s), "REFRESH"@, !s.backend.fetching, ActionView::Refresh),
        offered(toolbar_of(s), "CHECK"@, !s.backend.checking, ActionView::Check),
        offered(
            toolbar_of(s),
            "UPGRADE ALL  "@ + decimal(s.updates.len()),
            s.backend.running is None && s.updates.len() > 0,
            ActionView::UpgradeAll,
        ),
        s.view == View::Search ==> offered(
            toolbar_of(s),
            "SEARCH"@,
            s.backend.searching is None,
            ActionView::Search,
        ),
        toolbar_of(s).len() == 3 + once(s.view == View::Search),
        offered(
            system_buttons_of(s),
            "CLEAN CACHE"@,
            s.backend.running is None && s.system.cache_size is Some,
            ActionView::CleanCache,
        ),
        offered(
            system_buttons_of(s),
            "ORPHANS  "@ + decimal(s.count(View::Orphans)),
            s.backend.running is None && s.count(View::Orphans) > 0,
            ActionView::RemoveOrphans,
        ),
        system_buttons_of(s).len() == 2,
{
    let t = toolbar_of(s);
    assert(t[0].label == "REFRESH"@);
    assert(t[1].label == "CHECK"@);
    assert(t[2].action == ActionView::UpgradeAll);
    if s.view == View::Search {
        assert(t[3].label == "SEARCH"@);
    }
    let b = system_buttons_of(s);
    assert(b[0].label == "CLEAN CACHE"@);
    assert(b[1].action == ActionView::RemoveOrphans);
}

/// The inspector offers for a package what fits it: an installed one can be removed, and upgraded
/// where it is outdated (alone where it is from the AUR, else with everything); any other can be
/// installed. The homepage, the name, the PKGBUILD of an AUR package, and for one of the
/// repositories the other install reason.
pub proof fn inspector_offers_what_fits(p: PackageView, busy: bool)
    ensures
        ({
            let c = change_buttons(p, busy);
            let aur = p.repo == "aur"@;
            &&& c.len() == 1 + once(p.installed && p.latest is Some)
            &&& p.installed ==> offered(c, "REMOVE"@, !busy, ActionView::Remove(p.name))
            &&& p.installed && p.latest is Some && aur ==> offered(
                c,
                "UPGRADE"@,
                !busy,
                ActionView::UpgradeAur(p.name),
            )
            &&& p.installed && p.latest is Some && !aur ==> offered(
                c,
                "UPGRADE ALL"@,
                !busy,
                ActionView::UpgradeAll,
            )
            &&& !p.installed ==> offered(c, "INSTALL"@, !busy, ActionView::Install(p.name, aur))
        }),
        ({
            let i = info_buttons(p, busy);
            let aur = p.repo == "aur"@;
            &&& i.len() == 2 + once(aur || p.installed)
            &&& offered(i, "HOMEPAGE"@, p.url.len() > 0, ActionView::Homepage(p.url))
            &&& offered(i, "COPY"@, true, ActionView::CopyName(p.name))
            &&& aur ==> offered(i, "PKGBUILD"@, true, ActionView::Pkgbuild(p.name))
            &&& !aur && p.installed && p.reason == Reason::Explicit ==> offered(
                i,
                "AS DEP"@,
                !busy,
                ActionView::MarkExplicit(p.name, false),
            )
            &&& !aur && p.installed && p.reason != Reason::Explicit ==> offered(
                i,
                "EXPLICIT"@,
                !busy,
                ActionView::MarkExplicit(p.name, true),
            )
        }),
{
    let c = change_buttons(p, busy);
    if p.installed {
        if p.latest is Some {
            assert(c[1].label == "REMOVE"@);
            assert(c[0].enabled == !busy);
        } else {
            assert(c[0].label == "REMOVE"@);
        }
    } else {
        assert(c[0].label == "INSTALL"@);
    }
    let i = info_buttons(p, busy);
    assert(i[0].label == "HOMEPAGE"@);
    assert(i[1].label == "COPY"@);
    if p.repo == "aur"@ || p.installed {
        assert(i[2].enabled == !busy || i[2].enabled);
    }
}

/// The lists of a package are shown under their names, with how many entries they have; those
/// without entries are not shown.
pub proof fn lists_are_shown_under_their_names(p: PackageView)
    requires
        p.depends.len() <= 40 && p.required_by.len() <= 40 && p.optdepends.len() <= 40,
        p.provides.len() <= 40 && p.conflicts.len() <= 40,
    ensures
        ({
            let b = blocks_of(p);
            &&& b.len() == once(p.depends.len() > 0) + once(p.required_by.len() > 0) + once(
                p.optdepends.len() > 0,
            ) + once(p.provides.len() > 0) + once(p.conflicts.len() > 0)
            &&& p.depends.len() > 0 ==> b.contains(shown_list("DEPENDS"@, p.depends, Tone::Dim))
            &&& p.required_by.len() > 0 ==> b.contains(
                shown_list("REQUIRED BY"@, p.required_by, Tone::Dim),
            )
            &&& p.optdepends.len() > 0 ==> b.contains(
                shown_list("OPTIONAL"@, p.optdepends, Tone::Dim),
            )
            &&& p.provides.len() > 0 ==> b.contains(shown_list("PROVIDES"@, p.provides, Tone::Dim))
            &&& p.conflicts.len() > 0 ==> b.contains(
                shown_list("CONFLICTS"@, p.conflicts, Tone::Warn),
            )
        }),
{
    let b = blocks_of(p);
    let n1 = once(p.depends.len() > 0);
    let n2 = n1 + once(p.required_by.len() > 0);
    let n3 = n2 + once(p.optdepends.len() > 0);
    let n4 = n3 + once(p.provides.len() > 0);
    assert(p.depends.len() > 0 ==> b[0] == shown_list("DEPENDS"@, p.depends, Tone::Dim));
    assert(p.required_by.len() > 0 ==> b[n1] == shown_list("REQUIRED BY"@, p.required_by, Tone::Dim));
    assert(p.optdepends.len() > 0 ==> b[n2] == shown_list("OPTIONAL"@, p.optdepends, Tone::Dim));
    assert(p.provides.len() > 0 ==> b[n3] == shown_list("PROVIDES"@, p.provides, Tone::Dim));
    assert(p.conflicts.len() > 0 ==> b[n4] == shown_list("CONFLICTS"@, p.conflicts, Tone::Warn));
}

/// A list as it is shown.
pub open spec fn shown_list(title: Seq<char>, list: Seq<Seq<char>>, tone: Tone) -> BlockView {
    BlockView { title: title + " "@ + decimal(list.len()), text: joined(list, "  "@), tone }
}

/// The line is shown.
pub open spec fn told_as(r: Seq<ReadoutView>, label: Seq<char>, value: Seq<char>) -> bool {
    exists|i: int| 0 <= i < r.len() && (#[trigger] r[i]).label == label && r[i].value == value
}

/// One line more, or none.
proof fn lemma_more(r: Seq<ReadoutView>, b: bool, x: ReadoutView)
    ensures
        ({
            let more = r + crate::panels::given(b, x);
            &&& forall|l: Seq<char>, v: Seq<char>|
                told_as(r, l, v) ==> #[trigger] told_as(more, l, v)
            &&& b ==> told_as(more, x.label, x.value)
            &&& more.len() == r.len() + once(b)
        }),
{
    let more = r + crate::panels::given(b, x);
    assert forall|l: Seq<char>, v: Seq<char>| told_as(r, l, v) implies #[trigger] told_as(
        more,
        l,
        v,
    ) by {
        let i = choose|i: int|
            0 <= i < r.len() && (#[trigger] r[i]).label == l && r[i].value == v;
        assert(more[i] == r[i]);
    }
    if b {
        assert(more[r.len() as int] == x);
    }
}

/// The inspector shows of a package what it is, each thing under its name.
pub proof fn inspector_shows_what_a_package_is(p: PackageView, m: MeasuresView)
    ensures
        ({
            let r = identity_lines(p, m);
            &&& told_as(r, "version"@, p.version)
            &&& told_as(r, "repo"@, p.repo)
            &&& told_as(
                r,
                "status"@,
                if !p.installed {
                    "AVAILABLE"@
                } else if p.latest is Some {
                    "OUTDATED"@
                } else if p.orphan {
                    "ORPHAN"@
                } else if p.reason == Reason::Dependency {
                    "DEP"@
                } else {
                    "EXPLICIT"@
                },
            )
            &&& p.latest matches Some(v) ==> told_as(r, "latest"@, v)
            &&& m.installed_size matches Some(z) ==> told_as(r, "installed size"@, z)
            &&& m.download_size matches Some(z) ==> told_as(r, "download"@, z)
            &&& r.len() == 3 + once(p.latest is Some) + once(m.installed_size is Some) + once(
                m.download_size is Some,
            )
        }),
{
    let r = identity_lines(p, m);
    assert(r[0].label == "status"@);
    assert(r[1].label == "version"@);
    let n2 = 2 + once(p.latest is Some);
    let n4 = n2 + 1 + once(m.installed_size is Some);
    assert(p.latest is Some ==> r[2].label == "latest"@);
    assert(r[n2].label == "repo"@);
    assert(m.installed_size is Some ==> r[n2 + 1].label == "installed size"@);
    assert(m.download_size is Some ==> r[n4].label == "download"@);
}

/// The inspector shows of a package where it comes from, each thing under its name, and only what
/// is known.
pub proof fn inspector_shows_where_a_package_comes_from(p: PackageView, m: MeasuresView)
    ensures
        ({
            let r = origin_lines(p, m);
            &&& p.install_date.len() > 0 ==> told_as(r, "installed on"@, p.install_date)
            &&& p.build_date.len() > 0 ==> told_as(r, "built"@, p.build_date)
            &&& p.licenses.len() > 0 ==> told_as(r, "license"@, joined(p.licenses, ", "@))
            &&& p.groups.len() > 0 ==> told_as(r, "groups"@, joined(p.groups, ", "@))
            &&& p.maintainer.len() > 0 ==> told_as(r, "maintainer"@, p.maintainer)
            &&& p.votes matches Some(n) ==> told_as(
                r,
                "votes"@,
                decimal(n as nat) + " :: "@ + m.popularity,
            )
            &&& p.out_of_date ==> told_as(r, "aur flag"@, "OUT OF DATE"@)
            &&& p.validated.len() > 0 ==> told_as(r, "validated"@, p.validated)
            &&& r.len() == once(p.install_date.len() > 0) + once(p.build_date.len() > 0) + once(
                p.licenses.len() > 0,
            ) + once(p.groups.len() > 0) + once(p.packager.len() > 0) + once(
                p.maintainer.len() > 0,
            ) + once(p.votes is Some) + once(p.out_of_date) + once(p.validated.len() > 0)
        }),
{
    let x1 = crate::panels::line("installed on"@, p.install_date);
    let x2 = crate::panels::line("built"@, p.build_date);
    let x3 = crate::panels::line("license"@, joined(p.licenses, ", "@));
    let x4 = crate::panels::line("groups"@, joined(p.groups, ", "@));
    let x5 = crate::panels::line("packager"@, crate::panels::packager_name(p.packager));
    let x6 = crate::panels::line("maintainer"@, p.maintainer);
    let x7 = crate::panels::line("votes"@, crate::panels::votes_text(p.votes, m.popularity));
    let x8 = crate::panels::toned_line("aur flag"@, "OUT OF DATE"@, Tone::Danger);
    let x9 = crate::panels::line("validated"@, p.validated);
    let r0 = Seq::<ReadoutView>::empty();
    let r1 = crate::panels::given(p.install_date.len() > 0, x1);
    assert(r0 + r1 =~= r1);
    let r2 = r1 + crate::panels::given(p.build_date.len() > 0, x2);
    let r3 = r2 + crate::panels::given(p.licenses.len() > 0, x3);
    let r4 = r3 + crate::panels::given(p.groups.len() > 0, x4);
    let r5 = r4 + crate::panels::given(p.packager.len() > 0, x5);
    let r6 = r5 + crate::panels::given(p.maintainer.len() > 0, x6);
    let r7 = r6 + crate::panels::given(p.votes is Some, x7);
    let r8 = r7 + crate::panels::given(p.out_of_date, x8);
    let r9 = r8 + crate::panels::given(p.validated.len() > 0, x9);
    lemma_more(r0, p.install_date.len() > 0, x1);
    lemma_more(r1, p.build_date.len() > 0, x2);
    lemma_more(r2, p.licenses.len() > 0, x3);
    lemma_more(r3, p.groups.len() > 0, x4);
    lemma_more(r4, p.packager.len() > 0, x5);
    lemma_more(r5, p.maintainer.len() > 0, x6);
    lemma_more(r6, p.votes is Some, x7);
    lemma_more(r7, p.out_of_date, x8);
    lemma_more(r8, p.validated.len() > 0, x9);
    assert(origin_lines(p, m) == r9);
}

/// The system panel shows the machine, each fact under its name.
pub proof fn system_panel_shows_the_machine(
    s: AppView,
    size: Seq<char>,
    synced: Option<Seq<char>>,
    checked: Option<Seq<char>>,
)
    ensures
        ({
            let r = system_lines(s, size, synced, checked);
            &&& r.len() == 9
            &&& told_as(r, "installed"@, size)
            &&& told_as(r, "orphans"@, decimal(s.count(View::Orphans)))
            &&& synced matches Some(t) ==> told_as(r, "db synced"@, t)
            &&& checked matches Some(t) ==> told_as(r, "checked"@, t)
            &&& checked is None ==> told_as(r, "checked"@, "NEVER"@)
            &&& s.system.kernel.len() > 0 ==> told_as(r, "kernel"@, s.system.kernel)
            &&& s.system.aur_helper matches Some(h) ==> told_as(r, "aur helper"@, h)
            &&& s.system.aur_helper is None ==> told_as(r, "aur helper"@, "NONE"@)
            &&& s.system.privilege is None ==> told_as(r, "privilege"@, "NONE"@)
            &&& s.system.tray_running ==> told_as(r, "tray"@, "RUNNING"@)
            &&& !s.system.tray_running ==> told_as(r, "tray"@, "OFF"@)
            &&& s.system.cache_size is Some && (s.system.cache_candidates is None
                || s.system.cache_candidates == Some(0u32)) ==> told_as(
                r,
                "cache"@,
                s.system.cache_size->0,
            )
            &&& s.system.cache_size is Some && s.system.cache_candidates is Some
                && s.system.cache_candidates->0 > 0 ==> told_as(
                r,
                "cache"@,
                s.system.cache_size->0 + (" :: "@ + decimal(s.system.cache_candidates->0 as nat)
                    + " OLD"@),
            )
        }),
{
    let r = system_lines(s, size, synced, checked);
    if let Some(z) = s.system.cache_size {
        assert(z + Seq::<char>::empty() =~= z);
    }
    assert(r[0].label == "installed"@);
    assert(r[1].label == "cache"@);
    assert(r[2].label == "orphans"@);
    assert(r[3].label == "db synced"@);
    assert(r[4].label == "checked"@);
    assert(r[5].label == "kernel"@);
    assert(r[6].label == "aur helper"@);
    assert(r[7].label == "privilege"@);
    assert(r[8].label == "tray"@);
}

/// The columns of the listing: the name, the version, the newest one, the repo, the state, the
/// size.
pub proof fn columns_show_the_package(p: PackageView, size: Seq<char>)
    ensures
        cell_of(p, 0, size).text == p.name,
        cell_of(p, 1, size).text == p.version,
        p.latest matches Some(v) ==> cell_of(p, 2, size).text == v,
        p.latest is None ==> cell_of(p, 2, size).text == ""@,
        cell_of(p, 3, size).text == p.repo,
        p.installed && p.latest is Some ==> cell_of(p, 4, size).text == "OUTDATED"@,
        p.installed && p.latest is None && p.orphan ==> cell_of(p, 4, size).text == "ORPHAN"@,
        !p.installed ==> cell_of(p, 4, size).text == "AVAILABLE"@,
        p.installed && p.latest is None && !p.orphan && p.reason == Reason::Dependency ==> cell_of(
            p,
            4,
            size,
        ).text == "DEP"@,
        p.installed && p.latest is None && !p.orphan && p.reason != Reason::Dependency ==> cell_of(
            p,
            4,
            size,
        ).text == "EXPLICIT"@,
        cell_of(p, 5, size).text == size,
{
}

/// The colours of the columns: what is not installed is dim, a newer version and what needs
/// attention is a warning, and the AUR stands out among the repositories.
pub proof fn columns_are_coloured(p: PackageView, size: Seq<char>)
    ensures
        cell_of(p, 0, size).tone == Some(
            if p.installed {
                Tone::Text
            } else {
                Tone::Dim
            },
        ),
        cell_of(p, 2, size).tone == Some(Tone::Warn),
        cell_of(p, 3, size).tone == Some(
            if p.repo == "aur"@ {
                Tone::AccentDim
            } else {
                Tone::Dim
            },
        ),
        p.installed && (p.latest is Some || p.orphan) ==> cell_of(p, 4, size).tone == Some(
            Tone::Warn,
        ),
        p.installed && p.latest is None && !p.orphan && p.reason == Reason::Explicit ==> cell_of(
            p,
            4,
            size,
        ).tone == Some(Tone::GoodDim),
        !p.installed || (p.latest is None && !p.orphan && p.reason == Reason::Dependency)
            ==> cell_of(p, 4, size).tone == Some(Tone::Dim),
        cell_of(p, 1, size).tone is None && cell_of(p, 5, size).tone is None,
{
}

/// The buttons that change things have the colour of what they do.
pub proof fn changing_buttons_are_coloured(p: PackageView, busy: bool, i: int)
    requires
        0 <= i < change_buttons(p, busy).len(),
    ensures
        ({
            let b = change_buttons(p, busy)[i];
            &&& b.enabled == !busy
            &&& b.action is Remove ==> b.tone == Some(Tone::Danger)
            &&& b.action is UpgradeAur || b.action is UpgradeAll ==> b.tone == Some(Tone::Warn)
            &&& b.action is Install ==> b.tone is None
            &&& b.action is Remove || b.action is UpgradeAur || b.action is UpgradeAll || b.action
                is Install
        }),
{
}

/// Of a list with more than forty names the first forty are shown and the rest is counted.
pub proof fn long_lists_are_cut(title: Seq<char>, list: Seq<Seq<char>>, tone: Tone)
    ensures
        list.len() <= 40 ==> crate::panels::block_of(title, list, tone) == shown_list(
            title,
            list,
            tone,
        ),
        list.len() > 40 ==> crate::panels::block_of(title, list, tone) == (BlockView {
            title: title + " "@ + decimal(list.len()),
            text: joined(list.subrange(0, 40), "  "@) + ("  … +"@ + decimal(
                (list.len() - 40) as nat,
            )),
            tone,
        }),
{
    if list.len() > 40 {
        assert(list.take(40) =~= list.subrange(0, 40));
    }
}

// ------------------------------------------------------------------ more of the panels

/// The running command's lamp names it: the label up to the two slashes.
pub proof fn running_command_is_named(s: AppView, name: Seq<char>, rest: Seq<char>)
    requires
        s.backend.running is Some,
        s.backend.running->0.label == name + " //"@ + rest,
        !crate::text::includes(name + " /"@, " //"@),
    ensures
        lit(s, "RUNNING "@ + name, Tone::Warn, true),
{
    reveal_strlit(" //");
    reveal_strlit(" /");
    let p = " //"@;
    let label = name + p + rest;
    let k = name.len() as int;
    assert(label.subrange(k, k + 3) =~= p);
    assert forall|j: int| 0 <= j < k implies !crate::text::occurs_at(label, p, j) by {
        if crate::text::occurs_at(label, p, j) {
            let t = name + " /"@;
            assert(t.subrange(j, j + 3) =~= label.subrange(j, j + 3));
            assert(crate::text::occurs_at(t, p, j));
        }
    }
    assert(crate::text::is_first(label, p, k));
    crate::text::lemma_first_at(label, p, k);
    assert(label.take(k) =~= name);
    assert(crate::text::pieces_by(label, p)[0] == name);
    let l = lamps_of(s);
    let n = 1 + once(s.system.reboot_required) + once(s.updates.len() > 0) + once(
        s.backend.fetching,
    ) + once(s.backend.checking) + once(s.backend.searching is Some);
    assert(l[n].text == "RUNNING "@ + name);
}

/// The line under the name tells the tools and the kernel.
pub proof fn subtitle_tells_the_tools(s: AppView, helper: Seq<char>)
    requires
        s.system.kernel.len() > 0,
    ensures
        s.system.aur_helper is None ==> crate::panels::subtitle_of(s) == "pacman"@ + " :: "@
            + s.system.kernel,
        s.system.aur_helper == Some(helper) ==> crate::panels::subtitle_of(s) == "pacman + "@
            + helper + " :: "@ + s.system.kernel,
{
}

/// The gauge is red where a reboot is due or twenty updates and more are pending, green where none
/// is, and yellow between; what it stands beside are the counts.
pub proof fn gauge_shows_how_urgent_it_is(s: AppView)
    ensures
        s.system.reboot_required || s.updates.len() >= 20 ==> crate::panels::gauge_tone(s)
            == Tone::Danger,
        !s.system.reboot_required && s.updates.len() == 0 ==> crate::panels::gauge_tone(s)
            == Tone::Good,
        !s.system.reboot_required && 0 < s.updates.len() < 20 ==> crate::panels::gauge_tone(s)
            == Tone::Warn,
        ({
            let g = crate::panels::gauge_lines(s);
            &&& g.len() == 4
            &&& g[0].label == "packages"@ && g[0].value == decimal(s.packages.len())
            &&& g[1].label == "explicit"@ && g[1].value == decimal(s.count(View::Explicit))
            &&& g[2].label == "aur"@ && g[2].value == decimal(s.count(View::Foreign))
            &&& g[3].label == "outdated"@ && g[3].value == decimal(s.updates.len())
            &&& g[3].tone == Some(
                if s.updates.len() == 0 {
                    Tone::Good
                } else {
                    Tone::Warn
                },
            )
        }),
{
}

/// The cache is shown with its size and, where old files can go, how many.
pub proof fn cache_is_shown_with_what_is_old(size: Seq<char>, n: u32)
    ensures
        crate::panels::cache_text(Some(size), None) == size,
        crate::panels::cache_text(Some(size), Some(0)) == size,
        crate::panels::cache_text(None, None) == "--"@,
        n > 0 ==> crate::panels::cache_text(Some(size), Some(n)) == size + (" :: "@ + decimal(
            n as nat,
        ) + " OLD"@),
{
    assert(size + Seq::<char>::empty() =~= size);
    assert("--"@ + Seq::<char>::empty() =~= "--"@);
}

/// The toolbar tells what the view lists; for the updates, why the check failed or when it was.
pub proof fn toolbar_tells_the_view(s: AppView, t: Seq<char>, e: Seq<char>)
    ensures
        s.view == View::Installed ==> crate::panels::view_text(s, Some(t))
            == "ALL INSTALLED PACKAGES"@,
        s.view == View::Explicit ==> crate::panels::view_text(s, Some(t))
            == "PACKAGES YOU ASKED FOR (NOT DEPENDENCIES)"@,
        s.view == View::Foreign ==> crate::panels::view_text(s, Some(t))
            == "PACKAGES NOT FROM THE REPOSITORIES (AUR / LOCAL)"@,
        s.view == View::Orphans ==> crate::panels::view_text(s, Some(t))
            == "DEPENDENCIES NOTHING REQUIRES ANY MORE"@,
        s.view == View::Updates && s.check_error == Some(e) ==> crate::panels::view_text(s, Some(t))
            == "LAST CHECK FAILED :: "@ + e,
        s.view == View::Updates && s.check_error is None ==> crate::panels::view_text(s, Some(t))
            == "CHECKED "@ + t && crate::panels::view_text(s, None) == "NOT CHECKED YET"@,
{
}

/// A dialog's answer: only Enter or the second button confirms; Escape, a click beside it and the
/// first button do not.
pub proof fn only_a_clear_answer_confirms(s: AppView, a: crate::panels::Answer)
    ensures
        crate::panels::answer_action(s, a) == Some(ActionView::ConfirmDialog) ==> {
            &&& s.dialog is Some && !s.dialog->0.closing
            &&& s.dialog->0.state is Confirm
            &&& !a.close && a.clicked != Some(0usize)
            &&& a.enter || a.clicked == Some(1usize)
        },
        s.dialog is Some && !s.dialog->0.closing && s.dialog->0.state is Confirm && !a.close
            && a.clicked == Some(1usize) ==> crate::panels::answer_action(s, a) == Some(
            ActionView::ConfirmDialog,
        ),
        s.dialog is Some && !s.dialog->0.closing && a.close ==> crate::panels::answer_action(s, a)
            == Some(ActionView::CloseDialog),
        s.dialog is Some && !s.dialog->0.closing && a.clicked == Some(0usize)
            ==> crate::panels::answer_action(s, a) == Some(ActionView::CloseDialog),
        !a.close && !a.enter && a.clicked is None ==> crate::panels::answer_action(s, a) is None,
{
}

/// Who built a package is shown by name, without the address.
pub proof fn packagers_are_named(name: Seq<char>, address: Seq<char>)
    requires
        !name.contains('<'),
        name.len() > 0 && !crate::text::is_white(name[0]) && !crate::text::is_white(name.last()),
    ensures
        crate::panels::packager_name(name + " <"@ + address) == name,
        crate::panels::packager_name(name) == name,
{
    reveal_strlit(" <");
    crate::text::trimming_keeps_clean_text(name);
    crate::text::pieces_of_piece_and_rest(name, '<', Seq::empty());
    let a = name.push(' ');
    assert(!a.contains('<')) by {
        if a.contains('<') {
            let i = choose|i: int| 0 <= i < a.len() && a[i] == '<';
            assert(name[i] == '<');
        }
    }
    crate::text::pieces_of_piece_and_rest(a, '<', address);
    assert(a.push('<') + address =~= name + " <"@ + address);
    assert(a[0] == name[0]);
    assert(crate::text::trimmed_start(a) == a);
    assert(a.drop_last() =~= name);
    assert(crate::text::trimmed_end(name) == name);
    assert(crate::text::trimmed_end(a) == name);
}

/// Colours tell how things stand: what is outdated or not needed any more is a warning; an event
/// has the colour of its level.
pub proof fn colours_tell_how_things_stand()
    ensures
        crate::panels::inspector_tone(Status::Outdated) == Tone::Warn,
        crate::panels::inspector_tone(Status::Orphan) == Tone::Warn,
        crate::panels::inspector_tone(Status::Explicit) == Tone::Good,
        crate::panels::inspector_tone(Status::Dependency) == Tone::Dim,
        crate::panels::event_tone(Level::Info) == Tone::Text,
        crate::panels::event_tone(Level::Good) == Tone::Good,
        crate::panels::event_tone(Level::Warn) == Tone::Warn,
        crate::panels::event_tone(Level::Danger) == Tone::Danger,
{
}

/// The line on the keys names the command key of the machine.
pub proof fn keys_are_named_for_the_machine()
    ensures
        crate::panels::keys_text(true) == "CMD+R REFRESH :: CMD+U CHECK :: CMD+1..6 VIEWS"@,
        crate::panels::keys_text(false) == "CTRL+R REFRESH :: CTRL+U CHECK :: CTRL+1..6 VIEWS"@,
{
    reveal_strlit("CMD+");
    reveal_strlit("CTRL+");
    reveal_strlit("R REFRESH :: ");
    reveal_strlit("U CHECK :: ");
    reveal_strlit("1..6 VIEWS");
    reveal_strlit("CMD+R REFRESH :: CMD+U CHECK :: CMD+1..6 VIEWS");
    reveal_strlit("CTRL+R REFRESH :: CTRL+U CHECK :: CTRL+1..6 VIEWS");
    assert(crate::panels::keys_text(true)
        =~= "CMD+R REFRESH :: CMD+U CHECK :: CMD+1..6 VIEWS"@);
    assert(crate::panels::keys_text(false)
        =~= "CTRL+R REFRESH :: CTRL+U CHECK :: CTRL+1..6 VIEWS"@);
}

/// The status line counts the rows and the updates.
pub proof fn status_line_counts(s: AppView, uptime: Seq<char>, fps: Seq<char>, ms: Seq<char>)
    requires
        s.fetch_ms == Some(ms),
    ensures
        crate::panels::status_line(s, uptime, fps) == uptime + " :: "@ + decimal(s.rows.len())
            + " ROWS :: "@ + decimal(s.updates.len()) + " OUTDATED :: "@ + fps
            + " FPS :: INVENTORY "@ + ms + " MS"@,
{
}

// ------------------------------------------------------------------ the applet

/// The applet sums up the state: how many updates there are; where there are none, that all is up
/// to date, or why the check failed.
pub proof fn applet_sums_up_the_state(t: TrayView)
    ensures
        t.state.updates.len() == 1 ==> t.summary() == "1 update available"@,
        t.state.updates.len() > 1 ==> t.summary() == decimal(t.state.updates.len())
            + " updates available"@,
        t.state.updates.len() == 0 && t.state.error is None ==> t.summary()
            == "System is up to date"@,
        t.state.updates.len() == 0 && t.state.error is Some ==> t.summary() == "Check failed: "@
            + t.state.error->0,
        t.checking ==> t.icon_kind() == IconKind::Checking,
        !t.checking && t.state.updates.len() > 0 ==> t.icon_kind() == IconKind::Updates,
        !t.checking && t.state.updates.len() == 0 && t.state.error is Some ==> t.icon_kind()
            == IconKind::Error,
        !t.checking && t.state.updates.len() == 0 && t.state.error is None ==> t.icon_kind()
            == IconKind::Current,
{
}

/// The tool tip adds when the last check was, where there was one.
pub proof fn tool_tip_tells_the_last_check(t: TrayView, now: u64)
    ensures
        t.state.checked_at is None ==> t.tool_tip(now) == t.summary(),
        t.state.checked_at matches Some(at) ==> t.tool_tip(now) == t.summary() + ("\nLast check "@
            + crate::ago_text(at, now)),
{
}

/// The entry is in the menu.
pub open spec fn in_menu(
    m: Seq<MenuView>,
    label: Seq<char>,
    enabled: bool,
    action: TrayActionView,
) -> bool {
    m.contains(MenuView::Standard(EntryView { label, enabled, action }))
}

/// The menu opens the window, asks for the full upgrade where there is something to upgrade,
/// checks where no check is under way, and quits; it tells when the last check was and when the
/// next one is.
pub proof fn menu_offers_what_can_be_done(t: TrayView, now: u64, left: Option<u64>)
    ensures
        ({
            let m = t.menu(now, left);
            &&& in_menu(
                m,
                "Open FUIDE Arch-Update"@,
                true,
                TrayActionView::OpenGui(Seq::empty()),
            )
            &&& in_menu(
                m,
                "Upgrade now…"@,
                t.state.updates.len() > 0,
                TrayActionView::OpenGui(seq!["--upgrade"@]),
            )
            &&& in_menu(m, "Check for updates"@, !t.checking, TrayActionView::Check)
            &&& in_menu(m, "Quit"@, true, TrayActionView::Quit)
            &&& m.len() > 0 && m[0] == MenuView::Standard(
                EntryView {
                    label: t.summary(),
                    enabled: t.state.updates.len() > 0,
                    action: TrayActionView::OpenGui(Seq::empty()),
                },
            )
            &&& t.checking ==> in_menu(m, "Checking…"@, false, TrayActionView::Nothing)
            &&& t.state.checked_at matches Some(at) ==> in_menu(
                m,
                "Last check "@ + crate::ago_text(at, now),
                false,
                TrayActionView::Nothing,
            )
            &&& !t.checking && left is Some ==> in_menu(
                m,
                "Next check in "@ + crate::duration_text(left->0 as nat),
                false,
                TrayActionView::Nothing,
            )
        }),
{
    reveal_strlit("Open ");
    reveal_strlit("FUIDE Arch-Update");
    reveal_strlit("Open FUIDE Arch-Update");
    assert("Open FUIDE Arch-Update"@ =~= "Open "@ + crate::tray::APP_NAME@);
    let m = t.menu(now, left);
    let c = t.commands();
    let times = t.times(now, left);
    let k = (m.len() - c.len()) as int;
    assert(m[k + 1] == c[1]);
    assert(m[k + 2] == c[2]);
    assert(m[k + 3] == c[3]);
    assert(m[k + 5] == c[5]);
    let j = (k - times.len()) as int;
    assert(times.len() > 0 ==> m[j] == times[0]);
    assert(times.len() > 1 ==> m[j + 1] == times[1]);
}

/// The menu lists the updates of the repositories and those of the AUR, each in a list of its own
/// with how many they are; and there is no list without updates.
pub proof fn menu_lists_the_updates(t: TrayView, now: u64, left: Option<u64>)
    ensures
        ({
            let m = t.menu(now, left);
            let repo = crate::tray::part(t.state.updates, false);
            let aur = crate::tray::part(t.state.updates, true);
            &&& repo.len() > 0 ==> m[1] == MenuView::SubMenu {
                label: "Repositories"@ + " ("@ + decimal(repo.len()) + ")"@,
                items: crate::tray::list_entries(repo),
            }
            &&& aur.len() > 0 ==> m[1 + once(repo.len() > 0)] == MenuView::SubMenu {
                label: "AUR"@ + " ("@ + decimal(aur.len()) + ")"@,
                items: crate::tray::list_entries(aur),
            }
            &&& m[1 + once(repo.len() > 0) + once(aur.len() > 0)] == MenuView::Separator
        }),
{
}

/// The entry of an update shows the package with both versions and opens the window on it; of more
/// than twenty-five the rest is counted.
pub proof fn list_entries_open_their_packages(u: Seq<UpgradeView>, i: int)
    requires
        0 <= i < u.len(),
    ensures
        ({
            let e = crate::tray::list_entries(u);
            &&& i < 25 ==> e[i] == (EntryView {
                label: u[i].name + "  "@ + u[i].current + " → "@ + u[i].new,
                enabled: true,
                action: TrayActionView::OpenGui(seq!["--select"@, u[i].name]),
            })
            &&& u.len() <= 25 ==> e.len() == u.len()
            &&& u.len() > 25 ==> e.len() == 26 && e[25].label == "… "@ + decimal(
                (u.len() - 25) as nat,
            ) + " more"@ && !e[25].enabled
        }),
{
}

/// The lists keep the order of the updates: of two parts, those of the first before those of the
/// second.
pub proof fn lists_keep_the_order(a: Seq<UpgradeView>, b: Seq<UpgradeView>, u: UpgradeView)
    ensures
        crate::tray::part(a + b, false) == crate::tray::part(a, false) + crate::tray::part(b, false),
        crate::tray::part(a + b, true) == crate::tray::part(a, true) + crate::tray::part(b, true),
        crate::tray::part(seq![u], u.aur) == seq![u],
        crate::tray::part(seq![u], !u.aur) == Seq::<UpgradeView>::empty(),
    decreases b.len(),
{
    reveal_with_fuel(crate::tray::part, 2);
    assert(seq![u].drop_last() =~= Seq::empty());
    assert(crate::tray::part(seq![u], u.aur) =~= seq![u]);
    if b.len() == 0 {
        assert(a + b =~= a);
        assert(crate::tray::part(a, false) + crate::tray::part(b, false) =~= crate::tray::part(
            a,
            false,
        ));
        assert(crate::tray::part(a, true) + crate::tray::part(b, true) =~= crate::tray::part(
            a,
            true,
        ));
    } else {
        assert((a + b).drop_last() =~= a + b.drop_last());
        lists_keep_the_order(a, b.drop_last(), u);
        assert(crate::tray::part(a + b, false) =~= crate::tray::part(a, false) + crate::tray::part(
            b,
            false,
        ));
        assert(crate::tray::part(a + b, true) =~= crate::tray::part(a, true) + crate::tray::part(
            b,
            true,
        ));
    }
}

/// A notification announces the updates that were not there before, in their order, and no
/// others.
pub proof fn announced_names_keep_the_order(
    previous: Seq<UpgradeView>,
    a: Seq<UpgradeView>,
    u: UpgradeView,
)
    ensures
        (exists|i: int| 0 <= i < previous.len() && (#[trigger] previous[i]).name == u.name)
            ==> crate::tray::fresh_names(previous, a.push(u)) == crate::tray::fresh_names(
            previous,
            a,
        ),
        !(exists|i: int| 0 <= i < previous.len() && (#[trigger] previous[i]).name == u.name)
            ==> crate::tray::fresh_names(previous, a.push(u)) == crate::tray::fresh_names(
            previous,
            a,
        ).push(u.name),
        crate::tray::fresh_names(previous, Seq::empty()).len() == 0,
{
    assert(a.push(u).drop_last() =~= a);
}

/// A notification names up to six packages, and counts the rest.
pub proof fn notification_names_the_packages(fresh: Seq<Seq<char>>)
    ensures
        fresh.len() <= 6 ==> crate::tray::body_of(fresh) == joined(fresh, ", "@),
        fresh.len() > 6 ==> crate::tray::body_of(fresh) == joined(fresh.take(6), ", "@) + (" … (+"@
            + decimal((fresh.len() - 6) as nat) + ")"@),
{
}

/// A state file that changed is shown, but not in the middle of a check.
pub proof fn changed_state_is_shown(t: TrayView, s: StateView)
    ensures
        !t.checking ==> t.reloaded(s) == (TrayView { state: s, checking: false }),
        t.checking ==> t.reloaded(s) == t,
{
}

/// The applet's command line: the seconds between checks, at least a minute, an hour where no
/// number is given; no check at the start; the version; anything else is not known.
pub proof fn applet_arguments(n: u64, x: Seq<char>, s: TrayArgsView, rest: Seq<Seq<char>>)
    requires
        x != "--interval"@ && x != "--no-initial-check"@ && x != "--version"@ && x != "-V"@,
    ensures
        crate::tray::args_of(seq!["--interval"@, decimal(n as nat)] + rest, s)
            == crate::tray::args_of(
            rest,
            TrayArgsView {
                interval: if n < 60 {
                    60
                } else {
                    n
                },
                ..s
            },
        ),
        number(x, u64::MAX as nat) is None ==> crate::tray::args_of(
            seq!["--interval"@, x] + rest,
            s,
        ) == crate::tray::args_of(rest, TrayArgsView { interval: 3600, ..s }),
        crate::tray::args_of(seq!["--interval"@], s) == (TrayArgsView { interval: 3600, ..s }),
        crate::tray::args_of(seq!["--no-initial-check"@] + rest, s) == crate::tray::args_of(
            rest,
            TrayArgsView { initial_check: false, ..s },
        ),
        crate::tray::args_of(seq!["--version"@] + rest, s) == (TrayArgsView { version: true, ..s }),
        crate::tray::args_of(seq!["-V"@] + rest, s) == (TrayArgsView { version: true, ..s }),
        crate::tray::args_of(seq![x] + rest, s) == crate::tray::args_of(
            rest,
            TrayArgsView { unknown: s.unknown.push(x), ..s },
        ),
        crate::tray::args_of(Seq::empty(), s) == s,
{
    reveal_strlit("--interval");
    reveal_strlit("--no-initial-check");
    reveal_strlit("--version");
    reveal_strlit("-V");
    crate::num::decimal_is_read_back(n as nat, u64::MAX as nat);
    assert("--interval"@.len() == 10);
    assert("--no-initial-check"@.len() == 18);
    assert("--version"@.len() == 9);
    assert("-V"@.len() == 2);
    let a = seq!["--interval"@, decimal(n as nat)] + rest;
    assert(a[0] == "--interval"@ && a[1] == decimal(n as nat));
    assert(a.skip(2) =~= rest);
    let b = seq!["--interval"@, x] + rest;
    assert(b[0] == "--interval"@ && b[1] == x);
    assert(b.skip(2) =~= rest);
    let c = seq!["--no-initial-check"@] + rest;
    assert(c[0] == "--no-initial-check"@);
    assert(c.drop_first() =~= rest);
    assert((seq!["--version"@] + rest)[0] == "--version"@);
    assert((seq!["-V"@] + rest)[0] == "-V"@);
    let d = seq![x] + rest;
    assert(d[0] == x);
    assert(d.drop_first() =~= rest);
}

/// The window's command line: the upgrade, and the package to select; the rest is passed over.
pub proof fn window_arguments(
    n: Seq<char>,
    x: Seq<char>,
    s: crate::app::StartView,
    rest: Seq<Seq<char>>,
)
    requires
        x != "--upgrade"@ && x != "--select"@,
    ensures
        crate::app::start_of(seq!["--upgrade"@] + rest, s) == crate::app::start_of(
            rest,
            crate::app::StartView { upgrade: true, ..s },
        ),
        crate::app::start_of(seq!["--select"@, n] + rest, s) == crate::app::start_of(
            rest,
            crate::app::StartView { select: Some(n), ..s },
        ),
        crate::app::start_of(seq![x] + rest, s) == crate::app::start_of(rest, s),
        crate::app::start_of(Seq::empty(), s) == s,
{
    reveal_strlit("--upgrade");
    reveal_strlit("--select");
    assert("--upgrade"@.len() == 9);
    assert("--select"@.len() == 8);
    let a = seq!["--upgrade"@] + rest;
    assert(a[0] == "--upgrade"@);
    assert(a.drop_first() =~= rest);
    let b = seq!["--select"@, n] + rest;
    assert(b[0] == "--select"@ && b[1] == n);
    assert(b.skip(2) =~= rest);
    let c = seq![x] + rest;
    assert(c[0] == x);
    assert(c.drop_first() =~= rest);
}

/// After a check the shared state holds its updates and no error, or the old updates and the
/// error; and in both cases when it was.
pub proof fn check_is_saved(st: StateView, u: Seq<UpgradeView>, e: Seq<char>, now: u64)
    ensures
        crate::backend::state_after_check(st, Ok(u), now) == (StateView {
            updates: u,
            checked_at: Some(now),
            error: None,
        }),
        crate::backend::state_after_check(st, Err(e), now) == (StateView {
            updates: st.updates,
            checked_at: Some(now),
            error: Some(e),
        }),
{
}

/// The hits of the repositories come before those of the AUR; a failed search of the AUR leaves
/// the others, unless there are none.
pub proof fn searches_are_merged(
    r: Seq<crate::pacman::HitView>,
    a: Seq<crate::pacman::HitView>,
    e: Seq<char>,
)
    ensures
        crate::backend::merged_hits(Ok(r), Ok(a)) == Ok::<Seq<crate::pacman::HitView>, Seq<char>>(
            r + a,
        ),
        r.len() > 0 ==> crate::backend::merged_hits(Ok(r), Err(e)) == Ok::<
            Seq<crate::pacman::HitView>,
            Seq<char>,
        >(r),
        r.len() == 0 ==> crate::backend::merged_hits(Ok(r), Err(e)) == Err::<
            Seq<crate::pacman::HitView>,
            Seq<char>,
        >(e),
        crate::backend::merged_hits(Err(e), Ok(a)) == Err::<
            Seq<crate::pacman::HitView>,
            Seq<char>,
        >(e),
{
}

// ------------------------------------------------------------------ the desktop entries

/// The plan puts the entries, the start of the applet at login and the icon where the desktop
/// looks for them, under the user's directories.
pub proof fn entries_go_where_the_desktop_looks(
    gui: Seq<char>,
    tray: Seq<char>,
    data: Seq<char>,
    config: Seq<char>,
)
    requires
        data.len() > 0 && data.last() != '/',
        config.len() > 0 && config.last() != '/',
    ensures
        ({
            let p = crate::setup::planned(gui, tray, data, config);
            &&& p.gui_desktop.0 == data + "/applications/fuide-arch-update.desktop"@
            &&& p.tray_desktop.0 == data + "/applications/fuide-arch-update-tray.desktop"@
            &&& p.autostart.0 == config + "/autostart/fuide-arch-update-tray.desktop"@
            &&& p.icon.0 == data + "/icons/hicolor/scalable/apps/fuide-arch-update.svg"@
            &&& p.tray_bin == tray
            &&& p.data_home == data
        }),
{
    reveal_strlit("applications");
    reveal_strlit("fuide-arch-update.desktop");
    reveal_strlit("fuide-arch-update-tray.desktop");
    reveal_strlit("autostart/fuide-arch-update-tray.desktop");
    reveal_strlit("icons/hicolor/scalable/apps/fuide-arch-update.svg");
    reveal_strlit("/applications/fuide-arch-update.desktop");
    reveal_strlit("/applications/fuide-arch-update-tray.desktop");
    reveal_strlit("/autostart/fuide-arch-update-tray.desktop");
    reveal_strlit("/icons/hicolor/scalable/apps/fuide-arch-update.svg");
    let p = crate::setup::planned(gui, tray, data, config);
    assert(p.gui_desktop.0 =~= data + "/applications/fuide-arch-update.desktop"@);
    assert(p.tray_desktop.0 =~= data + "/applications/fuide-arch-update-tray.desktop"@);
    assert(p.autostart.0 =~= config + "/autostart/fuide-arch-update-tray.desktop"@);
    assert(p.icon.0 =~= data + "/icons/hicolor/scalable/apps/fuide-arch-update.svg"@);
}

/// A desktop entry keeps its lines but for the one that says what to run.
pub proof fn entries_run_the_program(
    a: Seq<Seq<char>>,
    l: Seq<char>,
    exec: Seq<char>,
    old: Seq<char>,
)
    requires
        !"Exec="@.is_prefix_of(l),
    ensures
        crate::setup::entry_of(a.push(l), exec) == crate::setup::entry_of(a, exec) + l.push('\n'),
        crate::setup::entry_of(a.push("Exec="@ + old), exec) == crate::setup::entry_of(a, exec) + (
        "Exec="@ + exec).push('\n'),
        crate::setup::entry_of(Seq::empty(), exec) == Seq::<char>::empty(),
{
    assert(a.push(l).drop_last() =~= a);
    let x = "Exec="@ + old;
    assert(a.push(x).drop_last() =~= a);
    assert(x.subrange(0, "Exec="@.len() as int) =~= "Exec="@);
}

/// A program's path stands in an entry as it is where it holds nothing that the entry format could
/// take for something else; else it stands in quotes, and taking off the quotes and the
/// backslashes gives it again.
pub proof fn paths_are_quoted_where_needed(s: Seq<char>, i: int)
    ensures
        crate::setup::quoted(s) == s && 0 <= i < s.len() ==> s[i] != ' ' && s[i] != '"' && s[i]
            != '$' && s[i] != '`' && s[i] != '\\' && s[i] != '\'' && s[i] != ';' && s[i] != '&',
        crate::setup::quoted(s) != s ==> {
            let q = crate::setup::quoted(s);
            &&& q.len() >= 2 && q[0] == '"' && q.last() == '"'
            &&& crate::setup::unescaped(q.subrange(1, q.len() - 1)) == s
        },
{
    reveal_strlit("/._-+@:,");
    reveal_strlit("\"");
    crate::setup::escaping_loses_nothing(s);
    let q = crate::setup::quoted(s);
    let all = forall|i: int| 0 <= i < s.len() ==> crate::setup::is_plain(#[trigger] s[i]);
    if all {
        if 0 <= i < s.len() {
            assert(crate::setup::is_plain(s[i]));
        }
    } else {
        let e = crate::setup::escaped(s);
        assert(q.subrange(1, q.len() - 1) =~= e);
        lemma_escaped_len(s);
        assert(q.len() == e.len() + 2);
    }
}

proof fn lemma_escaped_len(s: Seq<char>)
    ensures
        crate::setup::escaped(s).len() >= s.len(),
    decreases s.len(),
{
    if s.len() > 0 {
        lemma_escaped_len(s.drop_last());
    }
}

} // verus!
