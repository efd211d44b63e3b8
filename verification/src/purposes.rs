//! What the operations of the package console are for: laws that say of each what is asked for,
//! shown or changed, in terms of the packages and the programs themselves.

use crate::app::{
    ActionView, AppView, ConfirmView, DialogStateView, DialogView, EffectView, EventView, Level,
    StartView, TableState, ToolsView, View,
};
use crate::backend::{JobView, MsgView};
use crate::instance::RequestView;
use crate::laws::{asked, listing_is_complete_and_sorted};
use crate::order::text_less;
use crate::pacman::{HitView, PackageView, Reason, UpgradeView};
use crate::text::{lowercase, uppercase};
use vstd::prelude::*;
use vstd::view::View as _;

verus! {

// ------------------------------------------------------------------ the listing

/// `p` stands in `s`, something before it and something after it.
pub open spec fn holds(s: Seq<char>, p: Seq<char>) -> bool {
    exists|a: Seq<char>, b: Seq<char>| s == #[trigger] (a + p + b)
}

proof fn lemma_holds(s: Seq<char>, p: Seq<char>)
    ensures
        holds(s, p) == crate::text::includes(s, p),
{
    if holds(s, p) {
        let (a, b) = choose|a: Seq<char>, b: Seq<char>| s == #[trigger] (a + p + b);
        let n = a.len() as int;
        assert(s.subrange(n, n + p.len()) =~= p);
        assert(crate::text::occurs_at(s, p, n));
    }
    if crate::text::includes(s, p) {
        let i = choose|i: int| crate::text::occurs_at(s, p, i);
        let (a, b) = (s.take(i), s.skip(i + p.len()));
        assert(s =~= a + s.subrange(i, i + p.len()) + b);
        assert(s == a + p + b);
    }
}

/// The packages that a view is made of: the results of the search, or the inventory.
pub open spec fn looked_at(a: AppView) -> Seq<PackageView> {
    match a.view {
        View::Search => a.search_results,
        View::Installed => a.packages,
        View::Explicit => a.packages,
        View::Updates => a.packages,
        View::Foreign => a.packages,
        View::Orphans => a.packages,
    }
}

/// The package belongs to the view: of the installed ones all, those that were asked for, those
/// with a newer version, those of no repository, those that nothing needs; of the results all.
pub open spec fn of_view(v: View, p: PackageView) -> bool {
    match v {
        View::Installed => true,
        View::Explicit => p.reason == Reason::Explicit,
        View::Updates => p.latest is Some,
        View::Foreign => p.repo == "aur"@ || p.repo == "local"@,
        View::Orphans => p.orphan,
        View::Search => true,
    }
}

/// A package is listed just when it is of the view and the filter is empty or stands, in lower
/// case, in its name or in its description.
pub proof fn listed_is_what_view_and_filter_ask_for(a: AppView, i: int)
    ensures
        a.rebuilt().rows.contains(i) <==> {
            &&& 0 <= i < looked_at(a).len()
            &&& of_view(a.view, looked_at(a)[i])
            &&& lowercase(a.filter).len() == 0 || holds(
                lowercase(looked_at(a)[i].name),
                lowercase(a.filter),
            ) || holds(lowercase(looked_at(a)[i].desc), lowercase(a.filter))
        },
{
    listing_is_complete_and_sorted(a);
    assert(looked_at(a) == a.source());
    if 0 <= i < looked_at(a).len() {
        lemma_holds(lowercase(looked_at(a)[i].name), lowercase(a.filter));
        lemma_holds(lowercase(looked_at(a)[i].desc), lowercase(a.filter));
    }
}

/// A description that holds the filter is enough, whatever the name is; and so is a name, whatever
/// the description is.
pub proof fn name_or_description_is_enough(a: AppView, i: int)
    requires
        0 <= i < looked_at(a).len(),
        of_view(a.view, looked_at(a)[i]),
    ensures
        holds(lowercase(looked_at(a)[i].desc), lowercase(a.filter)) ==> a.rebuilt().rows.contains(i),
        holds(lowercase(looked_at(a)[i].name), lowercase(a.filter)) ==> a.rebuilt().rows.contains(i),
        lowercase(a.filter).len() == 0 ==> a.rebuilt().rows.contains(i),
{
    listed_is_what_view_and_filter_ask_for(a, i);
}

/// What comes first of two packages when a column is sorted upwards: names by their letters in
/// lower case; versions, newest versions (none before any), repos by their letters; states as they
/// matter; sizes by their ranks. What is equal there goes by the names.
pub open spec fn sorts_before(col: usize, x: PackageView, y: PackageView) -> bool {
    let names = text_less(lowercase(x.name), lowercase(y.name));
    if col == 1 {
        text_less(x.version, y.version) || (x.version == y.version && names)
    } else if col == 2 {
        match (x.latest, y.latest) {
            (None, Some(_)) => true,
            (Some(_), None) => false,
            (None, None) => names,
            (Some(v), Some(w)) => text_less(v, w) || (v == w && names),
        }
    } else if col == 3 {
        text_less(x.repo, y.repo) || (x.repo == y.repo && names)
    } else if col == 4 {
        state_rank(x) < state_rank(y) || (state_rank(x) == state_rank(y) && names)
    } else if col == 5 {
        x.size_rank < y.size_rank || (x.size_rank == y.size_rank && names)
    } else {
        names
    }
}

/// The state of a package as a number: outdated, orphan, asked for, dependency, not installed.
pub open spec fn state_rank(p: PackageView) -> int {
    if !p.installed {
        4
    } else if p.latest is Some {
        0
    } else if p.orphan {
        1
    } else if p.reason == Reason::Dependency {
        3
    } else {
        2
    }
}

/// The rows follow the chosen column, the other way round when it is sorted downwards, and each
/// package has one row.
pub proof fn rows_follow_the_column(a: AppView, k: int, l: int)
    requires
        0 <= k < l < a.rebuilt().rows.len(),
    ensures
        ({
            let rows = a.rebuilt().rows;
            let (x, y) = (looked_at(a)[rows[k]], looked_at(a)[rows[l]]);
            &&& rows[k] != rows[l]
            &&& if a.table.sort_desc {
                !sorts_before(a.table.sort_col, x, y)
            } else {
                !sorts_before(a.table.sort_col, y, x)
            }
        }),
{
    listing_is_complete_and_sorted(a);
    let rows = a.rebuilt().rows;
    let col = a.table.sort_col;
    let keys = crate::app::row_keys(a.source(), col, crate::app::lower_names(a.source()));
    assert(looked_at(a) == a.source());
    let (i, j) = (rows[k], rows[l]);
    assert(crate::order::precedes(keys, a.table.sort_desc, i, j));
    crate::order::precedes_is_total(keys, a.table.sort_desc, i, j);
    crate::order::precedes_is_total(keys, a.table.sort_desc, i, i);
    let (x, y) = (looked_at(a)[i], looked_at(a)[j]);
    assert(keys[i].name == lowercase(x.name));
    assert(keys[j].name == lowercase(y.name));
    lemma_sorts_before(keys[i], keys[j], x, y, col);
    lemma_sorts_before(keys[j], keys[i], y, x, col);
    lemma_key_asymmetric(keys[i], keys[j]);
}

proof fn lemma_key_asymmetric(a: crate::order::KeyView, b: crate::order::KeyView)
    ensures
        !(crate::order::key_less(a, b) && crate::order::key_less(b, a)),
        !crate::order::key_less(a, a),
{
    crate::order::text_order_is_total(a.text, b.text);
    crate::order::text_order_is_total(a.name, b.name);
    crate::order::text_order_is_total(a.text, a.text);
    crate::order::text_order_is_total(a.name, a.name);
}

proof fn lemma_sorts_before(
    kx: crate::order::KeyView,
    ky: crate::order::KeyView,
    x: PackageView,
    y: PackageView,
    col: usize,
)
    requires
        kx.name == lowercase(x.name),
        ky.name == lowercase(y.name),
        kx.rank == crate::app::column_rank(x, col),
        ky.rank == crate::app::column_rank(y, col),
        kx.text == crate::app::column_text(x, col),
        ky.text == crate::app::column_text(y, col),
    ensures
        sorts_before(col, x, y) == crate::order::key_less(kx, ky),
{
    crate::order::text_order_is_total(kx.text, ky.text);
    crate::order::text_order_is_total(kx.text, kx.text);
}

/// The order of texts goes by the first letter in which they differ, and a text comes before what
/// goes on from it.
pub proof fn texts_are_ordered_by_the_first_difference(
    p: Seq<char>,
    c: char,
    d: char,
    x: Seq<char>,
    y: Seq<char>,
)
    requires
        c < d,
    ensures
        text_less(p + seq![c] + x, p + seq![d] + y),
        text_less(p, p + seq![c] + x),
        !text_less(p + seq![d] + y, p + seq![c] + x),
        !text_less(p + seq![c] + x, p),
    decreases p.len(),
{
    let s = p + seq![c] + x;
    let t = p + seq![d] + y;
    if p.len() > 0 {
        let q = p.drop_first();
        texts_are_ordered_by_the_first_difference(q, c, d, x, y);
        assert(s.drop_first() =~= q + seq![c] + x);
        assert(t.drop_first() =~= q + seq![d] + y);
        assert(s[0] == p[0] && t[0] == p[0]);
    } else {
        assert(s[0] == c && t[0] == d);
    }
}

/// How many packages a view counts: the inventory, the updates that are pending, the results; and
/// of the others just those of the view.
pub proof fn counts_are_those_of_the_views(a: AppView, v: View, p: PackageView)
    ensures
        a.count(View::Installed) == a.packages.len(),
        a.count(View::Updates) == a.updates.len(),
        a.count(View::Search) == a.search_results.len(),
        v == View::Explicit || v == View::Foreign || v == View::Orphans ==> {
            let more = AppView { packages: a.packages.push(p), ..a };
            &&& (AppView { packages: Seq::empty(), ..a }).count(v) == 0
            &&& of_view(v, p) ==> more.count(v) == a.count(v) + 1
            &&& !of_view(v, p) ==> more.count(v) == a.count(v)
        },
{
    assert(a.packages.push(p).drop_last() =~= a.packages);
}

/// Another view shows nothing selected and is built anew; the view that is already open stays as
/// it is. Nothing else changes.
pub proof fn views_are_changed(a: AppView, v: View, stamp: Seq<char>, tools: ToolsView)
    ensures
        ({
            let (b, fx) = a.applies(ActionView::SetView(v), stamp, tools);
            &&& fx == Seq::<EffectView>::empty()
            &&& a.view == v ==> b == a
            &&& a.view != v ==> b.view == v && b.table.selected is None && b.dirty && b == (AppView {
                view: v,
                table: TableState { selected: None, ..a.table },
                dirty: true,
                ..a
            })
        }),
{
}

// ------------------------------------------------------------------ commands

/// The dialog that is open asks whether to run `program` with `args`.
pub open spec fn asks_to_run(a: AppView, program: Seq<char>, args: Seq<Seq<char>>) -> bool {
    asked(a) matches Some(job) && job.program == program && job.args == args
}

/// Nothing but the dialog has changed.
pub open spec fn only_asks(before: AppView, after: AppView) -> bool {
    after == (AppView { dialog: after.dialog, ..before })
}

/// The helper's file name is `name`: it stands after a slash, or alone.
pub open spec fn named_file(path: Seq<char>, name: Seq<char>) -> bool {
    &&& name.len() > 0 && !name.contains('/') && name != "."@ && name != ".."@
    &&& path == name || exists|dir: Seq<char>| path == #[trigger] (dir + "/"@ + name)
}

proof fn lemma_last_piece(dir: Seq<char>, name: Seq<char>)
    requires
        !name.contains('/'),
    ensures
        crate::text::pieces(dir + "/"@ + name, '/').last() == name,
        crate::text::pieces(dir + "/"@ + name, '/').len() > 0,
    decreases dir.len(),
{
    reveal_strlit("/");
    let s = dir + "/"@ + name;
    let k = crate::text::upto(s, '/') as int;
    crate::text::lemma_upto(s, '/');
    assert(s[dir.len() as int] == '/');
    assert(k <= dir.len());
    let rest = s.skip(k + 1);
    if k == dir.len() {
        assert(rest =~= name);
        crate::text::pieces_of_piece_and_rest(name, '/', Seq::empty());
        assert(crate::text::pieces(s, '/') =~= seq![s.take(k)] + seq![name]);
    } else {
        let d = dir.skip(k + 1);
        assert(rest =~= d + "/"@ + name);
        lemma_last_piece(d, name);
        let more = crate::text::pieces(rest, '/');
        assert((seq![s.take(k)] + more).last() == more.last());
    }
}

proof fn lemma_file_name(path: Seq<char>, name: Seq<char>)
    requires
        named_file(path, name),
    ensures
        crate::text::file_name_of(path) == Some(name),
{
    if path == name {
        crate::text::pieces_of_piece_and_rest(name, '/', Seq::empty());
        assert(crate::text::pieces(path, '/').last() == name);
    } else {
        let dir = choose|dir: Seq<char>| path == #[trigger] (dir + "/"@ + name);
        lemma_last_piece(dir, name);
    }
}

/// What the helper is told behind the rest: to ask nothing; and yay and paru, whatever the case of
/// their names, to become root by `su`.
pub open spec fn told_helper(args: Seq<Seq<char>>, name: Seq<char>, su: Seq<char>) -> Seq<Seq<char>> {
    if holds(lowercase(name), "yay"@) || holds(lowercase(name), "paru"@) {
        args + seq!["--noconfirm"@, "--sudo"@, su]
    } else {
        args + seq!["--noconfirm"@]
    }
}

proof fn lemma_told_helper(h: Seq<char>, name: Seq<char>, su: Seq<char>, args: Seq<Seq<char>>)
    requires
        named_file(h, name),
    ensures
        args.push("--noconfirm"@) + crate::pacman::helper_sudo(h, su) == told_helper(args, name, su),
{
    lemma_file_name(h, name);
    lemma_holds(lowercase(name), "yay"@);
    lemma_holds(lowercase(name), "paru"@);
    assert(args.push("--noconfirm"@) + crate::pacman::helper_sudo(h, su) =~= told_helper(
        args,
        name,
        su,
    ));
}

/// What each request for a change asks to run, where there is a way to become root (`su`).
/// An installation from the repositories, a removal and the cleaning of the cache are run as root.
pub proof fn pacman_is_asked_for(
    a: AppView,
    n: Seq<char>,
    stamp: Seq<char>,
    tools: ToolsView,
    su: Seq<char>,
)
    requires
        tools.privilege == Some(su),
    ensures
        ({
            let b = a.applies(ActionView::Install(n, false), stamp, tools).0;
            &&& asks_to_run(
                b,
                su,
                seq![tools.pacman, "-S"@, "--needed"@, "--noconfirm"@, "--ask"@, "4"@, n],
            )
            &&& only_asks(a, b)
        }),
        ({
            let b = a.applies(ActionView::Remove(n), stamp, tools).0;
            &&& asks_to_run(b, su, seq![tools.pacman, "-Rns"@, "--noconfirm"@, n])
            &&& only_asks(a, b)
        }),
        ({
            let b = a.applies(ActionView::CleanCache, stamp, tools).0;
            &&& asks_to_run(b, su, seq![tools.paccache, "-rk2"@])
            &&& only_asks(a, b)
        }),
        tools.helper is None ==> {
            let b = a.applies(ActionView::UpgradeAll, stamp, tools).0;
            &&& asks_to_run(
                b,
                su,
                seq![tools.pacman, "-Syu"@, "--noconfirm"@, "--ask"@, "4"@],
            )
            &&& only_asks(a, b)
        },
        a.applies(ActionView::Install(n, false), stamp, tools).1.len() == 0,
        a.applies(ActionView::Remove(n), stamp, tools).1.len() == 0,
        a.applies(ActionView::CleanCache, stamp, tools).1.len() == 0,
        a.applies(ActionView::UpgradeAll, stamp, tools).1.len() == 0,
{
    assert(seq![tools.pacman] + seq!["-S"@, "--needed"@, "--noconfirm"@, "--ask"@, "4"@, n] =~= seq![
        tools.pacman,
        "-S"@,
        "--needed"@,
        "--noconfirm"@,
        "--ask"@,
        "4"@,
        n,
    ]);
    assert(seq![tools.pacman] + seq!["-Rns"@, "--noconfirm"@, n] =~= seq![
        tools.pacman,
        "-Rns"@,
        "--noconfirm"@,
        n,
    ]);
    assert(seq![tools.paccache] + seq!["-rk2"@] =~= seq![tools.paccache, "-rk2"@]);
    assert(seq![tools.pacman] + seq!["-Syu"@, "--noconfirm"@, "--ask"@, "4"@] =~= seq![
        tools.pacman,
        "-Syu"@,
        "--noconfirm"@,
        "--ask"@,
        "4"@,
    ]);
}

/// What is asked of the AUR helper, as the user: to install or upgrade the one package, or to
/// upgrade everything.
pub proof fn helper_is_asked_for(
    a: AppView,
    n: Seq<char>,
    stamp: Seq<char>,
    tools: ToolsView,
    h: Seq<char>,
    name: Seq<char>,
    su: Seq<char>,
)
    requires
        tools.helper == Some(h),
        tools.privilege == Some(su),
        named_file(h, name),
    ensures
        ({
            let b = a.applies(ActionView::UpgradeAur(n), stamp, tools).0;
            asks_to_run(b, h, told_helper(seq!["-S"@, n], name, su)) && only_asks(a, b)
        }),
        ({
            let b = a.applies(ActionView::Install(n, true), stamp, tools).0;
            asks_to_run(b, h, told_helper(seq!["-S"@, n], name, su)) && only_asks(a, b)
        }),
        ({
            let b = a.applies(ActionView::UpgradeAll, stamp, tools).0;
            asks_to_run(b, h, told_helper(seq!["-Syu"@], name, su)) && only_asks(a, b)
        }),
        a.applies(ActionView::UpgradeAur(n), stamp, tools).1.len() == 0,
        a.applies(ActionView::Install(n, true), stamp, tools).1.len() == 0,
{
    lemma_told_helper(h, name, su, seq!["-S"@, n]);
    lemma_told_helper(h, name, su, seq!["-Syu"@]);
}

/// `arg` is an option that removes packages.
pub open spec fn is_removal(arg: Seq<char>) -> bool {
    arg.len() >= 2 && arg[0] == '-' && arg[1] == 'R'
}

/// Whatever an installation or an upgrade asks to run, none of its options removes anything: of
/// the arguments that this program chooses (all but the package's name and the programs) none
/// begins with `-R`, and it does install: one of them begins with `-S`.
pub proof fn upgrades_and_installations_never_remove(
    a: AppView,
    action: ActionView,
    stamp: Seq<char>,
    tools: ToolsView,
    i: int,
)
    requires
        a.dialog is None,
        tools.privilege is Some,
        action == ActionView::UpgradeAll || action is UpgradeAur || action is Install,
        asked(a.applies(action, stamp, tools).0) is Some,
    ensures
        ({
            let args = asked(a.applies(action, stamp, tools).0)->0.args;
            let n = match action {
                ActionView::UpgradeAur(n) => n,
                ActionView::Install(n, _) => n,
                _ => "-Syu"@,
            };
            &&& 0 <= i < args.len() && is_removal(args[i]) ==> args[i] == n || args[i]
                == tools.pacman || args[i] == tools.privilege->0
            &&& args.contains("-S"@) || args.contains("-Syu"@)
            &&& action == ActionView::UpgradeAll || args.contains(n)
        }),
{
    reveal_strlit("-S");
    reveal_strlit("-Syu");
    reveal_strlit("--needed");
    reveal_strlit("--noconfirm");
    reveal_strlit("--ask");
    reveal_strlit("4");
    reveal_strlit("--sudo");
    let job = asked(a.applies(action, stamp, tools).0)->0;
    match action {
        ActionView::UpgradeAll => {
            if tools.helper is Some {
                assert(job.args[0] == "-Syu"@);
            } else {
                assert(job.args[1] == "-Syu"@);
            }
        },
        ActionView::UpgradeAur(n) => {
            assert(job.args[0] == "-S"@ && job.args[1] == n);
        },
        ActionView::Install(n, aur) => {
            if aur {
                assert(job.args[0] == "-S"@ && job.args[1] == n);
            } else {
                assert(job.args[1] == "-S"@ && job.args[6] == n);
            }
        },
        _ => {},
    }
}

/// Without a helper, or without a way to become root, no dialog opens: what was asked for fails
/// with a notice, and nothing is run.
pub proof fn what_cannot_be_run_fails(
    a: AppView,
    n: Seq<char>,
    stamp: Seq<char>,
    tools: ToolsView,
)
    ensures
        tools.helper is None || tools.privilege is None ==> {
            let b = a.applies(ActionView::UpgradeAur(n), stamp, tools).0;
            b.dialog == a.dialog && b.notices == a.notices.push(
                (false, "UPGRADE"@ + " // "@ + uppercase(n)),
            )
        },
        tools.helper is None || tools.privilege is None ==> {
            let b = a.applies(ActionView::Install(n, true), stamp, tools).0;
            b.dialog == a.dialog && b.notices == a.notices.push(
                (false, "INSTALL"@ + " // "@ + uppercase(n)),
            )
        },
        tools.privilege is None ==> {
            let b = a.applies(ActionView::Install(n, false), stamp, tools).0;
            b.dialog == a.dialog && b.notices == a.notices.push(
                (false, "INSTALL"@ + " // "@ + uppercase(n)),
            )
        },
        tools.privilege is None ==> {
            let b = a.applies(ActionView::Remove(n), stamp, tools).0;
            b.dialog == a.dialog && b.notices == a.notices.push(
                (false, "REMOVE"@ + " // "@ + uppercase(n)),
            )
        },
        tools.privilege is None ==> {
            let b = a.applies(ActionView::CleanCache, stamp, tools).0;
            b.dialog == a.dialog && b.notices == a.notices.push((false, "CLEAN // CACHE"@))
        },
        tools.privilege is None ==> {
            let b = a.applies(ActionView::UpgradeAll, stamp, tools).0;
            b.dialog == a.dialog && b.notices == a.notices.push((false, "UPGRADE // ALL"@))
        },
        tools.privilege is None ==> {
            let (b, fx) = a.applies(ActionView::MarkExplicit(n, true), stamp, tools);
            fx.len() == 0 && b.backend == a.backend && b.notices == a.notices.push(
                (false, "MARK"@ + " // "@ + uppercase(n)),
            )
        },
{
}

/// The confirmation says what it is about: a removal is marked as dangerous and names the package,
/// an installation or an upgrade is not and names it too; the buttons say what they do.
pub proof fn questions_name_what_they_are_about(
    a: AppView,
    n: Seq<char>,
    stamp: Seq<char>,
    tools: ToolsView,
)
    requires
        tools.privilege is Some,
    ensures
        question(a.applies(ActionView::Remove(n), stamp, tools).0) matches Some(c) && c.danger
            && c.line == n && c.title == "Remove"@ && c.verb == "REMOVE"@ && c.job.label
            == "remove"@ + " // "@ + n,
        question(a.applies(ActionView::Install(n, false), stamp, tools).0) matches Some(c)
            && !c.danger && c.line == n && c.title == "Install"@ && c.verb == "INSTALL"@
            && c.job.label == "install"@ + " // "@ + n,
        tools.helper is Some ==> (question(
            a.applies(ActionView::Install(n, true), stamp, tools).0,
        ) matches Some(c) && !c.danger && c.line == n && c.title == "Install"@ && c.verb
            == "INSTALL"@ && c.job.label == "install"@ + " // "@ + n),
        tools.helper is Some ==> (question(
            a.applies(ActionView::UpgradeAur(n), stamp, tools).0,
        ) matches Some(c) && !c.danger && c.line == n && c.title == "Upgrade"@ && c.verb
            == "UPGRADE"@ && c.job.label == "upgrade"@ + " // "@ + n),
        question(a.applies(ActionView::UpgradeAll, stamp, tools).0) matches Some(c) && !c.danger
            && c.title == "Full upgrade"@ && c.verb == "UPGRADE ALL"@ && c.job.label
            == "upgrade // all"@,
        question(a.applies(ActionView::CleanCache, stamp, tools).0) matches Some(c) && !c.danger
            && c.title == "Clean cache"@ && c.verb == "CLEAN"@ && c.job.label == "clean // cache"@
            && (a.system.cache_size matches Some(z) ==> c.line == z
            + " in /var/cache/pacman/pkg"@) && (a.system.cache_size is None ==> c.line
            == "package cache"@),
{
}

/// The question of the dialog that is open.
pub open spec fn question(a: AppView) -> Option<ConfirmView> {
    match a.dialog {
        Some(DialogView { state: DialogStateView::Confirm(c), closing: false }) => Some(c),
        _ => None,
    }
}

/// The full upgrade says how many updates there are, and how many of them are from the
/// repositories and how many from the AUR.
pub proof fn full_upgrade_counts_the_updates(a: AppView, stamp: Seq<char>, tools: ToolsView)
    requires
        tools.privilege is Some,
    ensures
        ({
            let aur = crate::app::aur_updates(a.updates);
            question(a.applies(ActionView::UpgradeAll, stamp, tools).0)->0.line == counted(
                a.updates.len(),
                (a.updates.len() - aur) as nat,
                aur,
            )
        }),
{
}

/// `12 packages (10 repo, 2 aur)`.
pub open spec fn counted(n: nat, repo: nat, aur: nat) -> Seq<char> {
    crate::num::decimal(n) + " packages ("@ + crate::num::decimal(repo) + " repo, "@
        + crate::num::decimal(aur) + " aur)"@
}

/// How many of some updates are from the AUR: of two parts the sum, of one update one or none.
pub proof fn aur_updates_are_counted(a: Seq<UpgradeView>, b: Seq<UpgradeView>, u: UpgradeView)
    ensures
        crate::app::aur_updates(a + b) == crate::app::aur_updates(a) + crate::app::aur_updates(b),
        crate::app::aur_updates(seq![u]) == if u.aur {
            1nat
        } else {
            0
        },
        crate::app::aur_updates(a) <= a.len(),
    decreases a.len() + b.len(),
{
    reveal_with_fuel(crate::app::aur_updates, 2);
    assert(seq![u].drop_last() =~= Seq::empty());
    if a.len() > 0 {
        aur_updates_are_counted(a.drop_last(), Seq::empty(), u);
    }
    if b.len() == 0 {
        assert(a + b =~= a);
    } else {
        assert((a + b).drop_last() =~= a + b.drop_last());
        aur_updates_are_counted(a, b.drop_last(), u);
    }
}

// ------------------------------------------------------------------ orphans

proof fn lemma_orphan_names(pkgs: Seq<PackageView>, i: int)
    ensures
        0 <= i < pkgs.len() && pkgs[i].orphan ==> crate::app::orphan_names(pkgs).contains(
            pkgs[i].name,
        ),
        0 <= i < crate::app::orphan_names(pkgs).len() ==> exists|k: int|
            0 <= k < pkgs.len() && (#[trigger] pkgs[k]).orphan && pkgs[k].name
                == crate::app::orphan_names(pkgs)[i],
        crate::app::orphan_names(pkgs).len() == crate::app::tally(pkgs, View::Orphans),
    decreases pkgs.len(),
{
    let names = crate::app::orphan_names(pkgs);
    if pkgs.len() > 0 {
        let before = crate::app::orphan_names(pkgs.drop_last());
        lemma_orphan_names(pkgs.drop_last(), i);
        if 0 <= i < pkgs.len() - 1 && pkgs[i].orphan {
            let k = choose|k: int| 0 <= k < before.len() && before[k] == pkgs[i].name;
            assert(names[k] == pkgs[i].name);
        } else if i == pkgs.len() - 1 && pkgs[i].orphan {
            assert(names[before.len() as int] == pkgs[i].name);
        }
        if 0 <= i < before.len() {
            let k = choose|k: int|
                0 <= k < pkgs.drop_last().len() && (#[trigger] pkgs.drop_last()[k]).orphan
                    && pkgs.drop_last()[k].name == before[i];
            assert(pkgs[k].orphan && pkgs[k].name == names[i]);
        } else if i == before.len() && pkgs.last().orphan {
            assert(pkgs[pkgs.len() - 1].orphan);
        }
    }
}

/// Removing the orphans asks to remove every package that is marked as one, and no other, as many
/// as the view of the orphans counts; where there is none, nothing is asked.
pub proof fn every_orphan_is_removed_and_no_other(
    a: AppView,
    stamp: Seq<char>,
    tools: ToolsView,
    su: Seq<char>,
    i: int,
)
    requires
        tools.privilege == Some(su),
    ensures
        ({
            let (b, fx) = a.applies(ActionView::RemoveOrphans, stamp, tools);
            &&& fx.len() == 0
            &&& a.count(View::Orphans) == 0 ==> b == a
            &&& a.count(View::Orphans) > 0 ==> {
                let job = asked(b)->0;
                let named = job.args.skip(3);
                &&& asked(b) is Some
                &&& only_asks(a, b)
                &&& job.program == su
                &&& job.args.take(3) == seq![tools.pacman, "-Rns"@, "--noconfirm"@]
                &&& named.len() == a.count(View::Orphans)
                &&& 0 <= i < a.packages.len() && a.packages[i].orphan ==> named.contains(
                    a.packages[i].name,
                )
                &&& 0 <= i < named.len() ==> exists|k: int|
                    0 <= k < a.packages.len() && (#[trigger] a.packages[k]).orphan
                        && a.packages[k].name == named[i]
                &&& question(b)->0.danger
                &&& question(b)->0.line == crate::num::decimal(a.count(View::Orphans))
                    + " packages"@
            }
        }),
{
    let names = crate::app::orphan_names(a.packages);
    lemma_orphan_names(a.packages, i);
    let (b, fx) = a.applies(ActionView::RemoveOrphans, stamp, tools);
    if names.len() > 0 {
        let args = seq![tools.pacman] + (seq!["-Rns"@, "--noconfirm"@] + names);
        assert(asked(b)->0.args == args);
        assert(args.skip(3) =~= names);
        assert(args.take(3) =~= seq![tools.pacman, "-Rns"@, "--noconfirm"@]);
    }
}

// ------------------------------------------------------------------ running commands

/// The last event of the log.
pub open spec fn last_event(a: AppView) -> EventView {
    a.log.last()
}

/// A command that is confirmed starts just as the dialog showed it, the dialog closes, and the log
/// opens and shows it; while another is running it does not start.
pub proof fn confirmed_command_starts(a: AppView, stamp: Seq<char>, tools: ToolsView, job: JobView)
    requires
        asked(a) == Some(job),
    ensures
        ({
            let (b, fx) = a.applies(ActionView::ConfirmDialog, stamp, tools);
            &&& b.dialog matches Some(d) && d.closing
            &&& a.backend.running is None ==> {
                &&& fx == seq![EffectView::Spawn(job)]
                &&& b.backend.running == Some(job)
                &&& b.log_open
                &&& last_event(b).text == "$ "@ + job.command_line()
                &&& b.notices == a.notices
            }
            &&& a.backend.running is Some ==> {
                &&& fx.len() == 0
                &&& b.backend.running == a.backend.running
                &&& b.notices == a.notices.push((false, uppercase(job.label)))
            }
            &&& b.packages == a.packages && b.updates == a.updates && b.view == a.view && b.rows
                == a.rows && b.table == a.table && b.filter == a.filter && b.search_results
                == a.search_results
        }),
{
}

/// A change of the install reason runs at once: `-D --asexplicit` or `-D --asdeps` and the name.
pub proof fn install_reason_is_set(
    a: AppView,
    n: Seq<char>,
    explicit: bool,
    stamp: Seq<char>,
    tools: ToolsView,
    su: Seq<char>,
)
    requires
        tools.privilege == Some(su),
        a.backend.running is None,
    ensures
        ({
            let (b, fx) = a.applies(ActionView::MarkExplicit(n, explicit), stamp, tools);
            &&& fx.len() == 1
            &&& b.backend.running matches Some(job) && fx[0] == EffectView::Spawn(job)
                && job.program == su && job.args == seq![
                tools.pacman,
                "-D"@,
                if explicit {
                    "--asexplicit"@
                } else {
                    "--asdeps"@
                },
                n,
            ]
            &&& b.dialog == a.dialog
        }),
{
    let flag = if explicit {
        "--asexplicit"@
    } else {
        "--asdeps"@
    };
    assert(seq![tools.pacman] + seq!["-D"@, flag, n] =~= seq![tools.pacman, "-D"@, flag, n]);
}

/// Refreshing reads the inventory, unless it is being read, and probes the machine; checking
/// checks for updates, unless that is under way.
pub proof fn refresh_and_check_are_done(a: AppView, stamp: Seq<char>, tools: ToolsView)
    ensures
        ({
            let (b, fx) = a.applies(ActionView::Refresh, stamp, tools);
            &&& b.backend.fetching
            &&& fx.contains(EffectView::FetchSystem)
            &&& fx.contains(EffectView::FetchInventory) <==> !a.backend.fetching
            &&& fx.len() <= 2
            &&& !fx.contains(EffectView::Check)
        }),
        ({
            let (b, fx) = a.applies(ActionView::Check, stamp, tools);
            &&& b.backend.checking
            &&& a.backend.checking ==> fx.len() == 0
            &&& !a.backend.checking ==> fx == seq![EffectView::Check]
        }),
{
    let (b, fx) = a.applies(ActionView::Refresh, stamp, tools);
    if a.backend.fetching {
        assert(fx[0] == EffectView::FetchSystem);
        if fx.contains(EffectView::FetchInventory) {
            let k = choose|k: int| 0 <= k < fx.len() && fx[k] == EffectView::FetchInventory;
            assert(k == 0);
        }
    } else {
        assert(fx[0] == EffectView::FetchInventory);
        assert(fx[1] == EffectView::FetchSystem);
    }
}

/// A search looks for what was typed, without the space around it; less than two bytes of it are
/// not looked for.
pub proof fn search_looks_for_what_was_typed(
    a: AppView,
    q: Seq<char>,
    stamp: Seq<char>,
    tools: ToolsView,
)
    requires
        crate::readings::neat(q),
        a.search_query == " "@ + q + " "@ || a.search_query == q,
    ensures
        ({
            let (b, fx) = a.applies(ActionView::Search, stamp, tools);
            &&& vstd::utf8::encode_utf8(q).len() >= 2 ==> fx == seq![EffectView::Search(q)]
                && b.backend.searching == Some(q)
            &&& vstd::utf8::encode_utf8(q).len() < 2 ==> b == a && fx.len() == 0
        }),
{
    reveal_strlit(" ");
    crate::text::trimming_keeps_clean_text(q);
    if a.search_query == " "@ + q + " "@ && a.search_query != q {
        let s = a.search_query;
        assert(s.drop_first() =~= q + " "@);
        let t = q + " "@;
        if q.len() > 0 {
            assert(t[0] == q[0]);
            assert(crate::text::trimmed_start(s) == crate::text::trimmed_start(t));
            assert(crate::text::trimmed_start(t) == t);
            assert(t.drop_last() =~= q);
            assert(crate::text::trimmed_end(t) == crate::text::trimmed_end(q));
            assert(crate::text::trimmed_end(q) == q);
        } else {
            reveal_with_fuel(crate::text::trimmed_start, 4);
            assert(t.drop_first() =~= Seq::empty());
            assert(crate::text::trimmed(s) =~= q);
        }
    }
}

/// Pages open in the browser and names go to the clipboard as they are; the PKGBUILD is that of
/// the package on aur.archlinux.org; the settings are shown.
pub proof fn pages_and_names_are_handed_over(
    a: AppView,
    x: Seq<char>,
    stamp: Seq<char>,
    tools: ToolsView,
)
    ensures
        a.applies(ActionView::Homepage(x), stamp, tools).1 == seq![EffectView::OpenUrl(x)],
        a.applies(ActionView::Pkgbuild(x), stamp, tools).1 == seq![
            EffectView::OpenUrl("https://aur.archlinux.org/cgit/aur.git/tree/PKGBUILD?h="@ + x),
        ],
        a.applies(ActionView::CopyName(x), stamp, tools).1 == seq![EffectView::CopyText(x)],
        a.applies(ActionView::OpenSettings, stamp, tools) == (a, seq![EffectView::OpenSettings]),
{
}

/// Selecting a row selects it. The first time a package is selected that is not installed and of
/// which no details are known, they are asked for: of the AUR where it is from there, else of the
/// repositories.
pub proof fn details_are_asked_for_once(
    a: AppView,
    r: usize,
    p: PackageView,
    stamp: Seq<char>,
    tools: ToolsView,
)
    requires
        r < a.rows.len(),
        0 <= a.rows[r as int] < looked_at(a).len(),
        looked_at(a)[a.rows[r as int]] == p,
    ensures
        ({
            let (b, fx) = a.applies(ActionView::Select(Some(r)), stamp, tools);
            &&& b.table.selected == Some(r) && b.table.scroll_to_selected
            &&& b.selected_package() == Some(p)
            &&& p.installed || p.url.len() > 0 || a.details_requested.contains(p.name) ==> fx.len()
                == 0 && b.details_requested == a.details_requested
            &&& !p.installed && p.url.len() == 0 && !a.details_requested.contains(p.name) ==> {
                &&& b.details_requested.contains(p.name)
                &&& p.repo == "aur"@ ==> fx == seq![
                    EffectView::Details { repo: Seq::empty(), aur: seq![p.name] },
                ]
                &&& p.repo != "aur"@ ==> fx == seq![
                    EffectView::Details { repo: seq![p.name], aur: Seq::empty() },
                ]
            }
        }),
{
    let (b, fx) = a.applies(ActionView::Select(Some(r)), stamp, tools);
    assert(looked_at(a) == a.source());
    if !p.installed && p.url.len() == 0 && !a.details_requested.contains(p.name) {
        assert(b.details_requested[a.details_requested.len() as int] == p.name);
    }
}

// ------------------------------------------------------------------ what comes in

/// An inventory that comes in is the list of the packages, each with the newest version that is
/// known of it; one that fails changes no package and is told.
pub proof fn inventory_is_taken_over(
    a: AppView,
    pkgs: Seq<PackageView>,
    ms: Seq<char>,
    e: Seq<char>,
    stamp: Seq<char>,
    now: u64,
    tools: ToolsView,
    i: int,
)
    requires
        a.start.select is None,
        !a.start.upgrade,
    ensures
        ({
            let (b, fx) = a.handles(MsgView::Inventory(Ok(pkgs), ms), stamp, now, tools);
            &&& fx.len() == 0
            &&& b.packages.len() == pkgs.len()
            &&& 0 <= i < pkgs.len() ==> b.packages[i] == (PackageView {
                latest: b.packages[i].latest,
                ..pkgs[i]
            })
            &&& 0 <= i < pkgs.len() ==> (b.packages[i].latest is Some <==> exists|j: int|
                0 <= j < a.updates.len() && (#[trigger] a.updates[j]).name == pkgs[i].name)
            &&& b.dirty && b.fetch_ms == Some(ms) && b.updates == a.updates && b.notices == a.notices
        }),
        ({
            let b = a.handles(MsgView::Inventory(Err(e), ms), stamp, now, tools).0;
            &&& b.packages == a.packages
            &&& b.notices == a.notices.push((false, "INVENTORY // PACMAN"@))
        }),
{
    if 0 <= i < pkgs.len() {
        crate::backend::merged_package_is_outdated_when_named(pkgs[i], a.updates);
    }
}

/// The newest version of a package is the one that an update of its name states; with several of
/// them the last one counts.
pub proof fn newest_version_is_that_of_the_update(
    before: Seq<UpgradeView>,
    u: UpgradeView,
    after: Seq<UpgradeView>,
    p: PackageView,
)
    requires
        u.name == p.name,
        forall|j: int| 0 <= j < after.len() ==> (#[trigger] after[j]).name != p.name,
    ensures
        crate::backend::updated(seq![p], before.push(u) + after) == seq![
            PackageView { latest: Some(u.new), ..p },
        ],
    decreases after.len(),
{
    lemma_latest(before, u, after);
    assert(crate::backend::updated(seq![p], before.push(u) + after) =~= seq![
        PackageView { latest: Some(u.new), ..p },
    ]);
}

proof fn lemma_latest(before: Seq<UpgradeView>, u: UpgradeView, after: Seq<UpgradeView>)
    requires
        forall|j: int| 0 <= j < after.len() ==> (#[trigger] after[j]).name != u.name,
    ensures
        crate::backend::latest_of(before.push(u) + after, u.name) == Some(u.new),
    decreases after.len(),
{
    let all = before.push(u) + after;
    if after.len() == 0 {
        assert(all =~= before.push(u));
    } else {
        assert(all.last() == after[after.len() - 1]);
        assert(all.drop_last() =~= before.push(u) + after.drop_last());
        assert forall|j: int| 0 <= j < after.drop_last().len() implies (
        #[trigger] after.drop_last()[j]).name != u.name by {
            assert(after.drop_last()[j] == after[j]);
        }
        lemma_latest(before, u, after.drop_last());
    }
}

/// A check that comes in replaces the updates, at that time and without an error; one that fails
/// leaves them and is told.
pub proof fn check_is_taken_over(
    a: AppView,
    u: Seq<UpgradeView>,
    e: Seq<char>,
    stamp: Seq<char>,
    now: u64,
    tools: ToolsView,
)
    ensures
        ({
            let b = a.handles(MsgView::Check(Ok(u)), stamp, now, tools).0;
            &&& b.updates == u && b.checked_at == Some(now) && b.check_error is None && b.dirty
            &&& b.packages.len() == a.packages.len()
            &&& b.notices == a.notices
            &&& u.len() == 0 ==> last_event(b).level == Level::Good
            &&& u.len() > 0 ==> last_event(b).level == Level::Warn
        }),
        ({
            let b = a.handles(MsgView::Check(Err(e)), stamp, now, tools).0;
            &&& b.updates == a.updates && b.packages == a.packages && b.check_error == Some(e)
            &&& b.notices == a.notices.push((false, "CHECK // UPDATES"@))
            &&& last_event(b).text == "CHECK // UPDATES"@ + " :: failed :: "@ + e
            &&& last_event(b).level == Level::Danger
        }),
{
}

/// The results of a search are its hits, each as a package that is not installed with what the
/// search said of it, where the inventory does not have it.
pub proof fn hits_become_results(
    a: AppView,
    q: Seq<char>,
    h: HitView,
    e: Seq<char>,
    stamp: Seq<char>,
    now: u64,
    tools: ToolsView,
)
    requires
        forall|i: int| 0 <= i < a.packages.len() ==> (#[trigger] a.packages[i]).name != h.name,
    ensures
        ({
            let b = a.handles(
                MsgView::Search { query: q, result: Ok(seq![h]) },
                stamp,
                now,
                tools,
            ).0;
            &&& b.search_results.len() == 1
            &&& ({
                let p = b.search_results[0];
                &&& p.name == h.name && p.version == h.version && p.desc == h.desc
                &&& p.repo == h.repo && p.votes == h.votes && p.popularity == h.popularity
                &&& p.out_of_date == h.out_of_date && !p.installed && p.url.len() == 0
                &&& p.latest is None && !p.orphan && p.reason == Reason::Unknown
            })
            &&& b.details_requested.len() == 0 && b.dirty && b.packages == a.packages
        }),
        ({
            let b = a.handles(MsgView::Search { query: q, result: Err(e) }, stamp, now, tools).0;
            &&& b.search_results == a.search_results
            &&& b.notices == a.notices.push((false, "SEARCH"@ + " // "@ + uppercase(q)))
        }),
{
    reveal_with_fuel(crate::app::hit_packages, 2);
    let hs = seq![h];
    assert(hs.drop_last() =~= Seq::empty());
    lemma_not_there(a.packages, h.name);
}

proof fn lemma_not_there(pkgs: Seq<PackageView>, name: Seq<char>)
    requires
        forall|i: int| 0 <= i < pkgs.len() ==> (#[trigger] pkgs[i]).name != name,
    ensures
        crate::app::package_at(pkgs, name) == pkgs.len(),
    decreases pkgs.len(),
{
    if pkgs.len() > 0 {
        assert(pkgs[0].name != name);
        assert forall|i: int| 0 <= i < pkgs.drop_first().len() implies (
        #[trigger] pkgs.drop_first()[i]).name != name by {
            assert(pkgs.drop_first()[i] == pkgs[i + 1]);
        }
        lemma_not_there(pkgs.drop_first(), name);
    }
}

/// Details fill in the result they are about, the first of that name and repo, and no other; they
/// change neither whether it is installed nor its newest version.
pub proof fn details_fill_in_their_result(
    a: AppView,
    d: PackageView,
    k: int,
    i: int,
    stamp: Seq<char>,
    now: u64,
    tools: ToolsView,
)
    requires
        0 <= k < a.search_results.len(),
        a.search_results[k].name == d.name,
        a.search_results[k].repo == d.repo || a.search_results[k].repo.len() == 0,
        forall|j: int| 0 <= j < k ==> (#[trigger] a.search_results[j]).name != d.name,
        0 <= i < a.search_results.len(),
    ensures
        ({
            let b = a.handles(MsgView::Details(Ok(seq![d])), stamp, now, tools).0;
            &&& b.search_results.len() == a.search_results.len()
            &&& b.search_results[k] == (PackageView {
                installed: a.search_results[k].installed,
                latest: a.search_results[k].latest,
                ..d
            })
            &&& i != k ==> b.search_results[i] == a.search_results[i]
            &&& b == (AppView { search_results: b.search_results, ..a })
        }),
{
    reveal_with_fuel(crate::app::with_all_details, 2);
    let ds = seq![d];
    assert(ds.drop_last() =~= Seq::empty());
    lemma_details_place(a.search_results, d, k);
}

proof fn lemma_details_place(r: Seq<PackageView>, d: PackageView, k: int)
    requires
        0 <= k < r.len(),
        r[k].name == d.name,
        r[k].repo == d.repo || r[k].repo.len() == 0,
        forall|j: int| 0 <= j < k ==> (#[trigger] r[j]).name != d.name,
    ensures
        crate::app::details_at(r, d) == k,
    decreases k,
{
    if k > 0 {
        assert(r[0].name != d.name);
        let t = r.drop_first();
        assert(t[k - 1] == r[k]);
        assert forall|j: int| 0 <= j < k - 1 implies (#[trigger] t[j]).name != d.name by {
            assert(t[j] == r[j + 1]);
        }
        lemma_details_place(t, d, k - 1);
    }
}

/// A command that ended well is told as a success, with how long it took; one that failed with the
/// reason: a dismissed or refused authentication, the exit code, or that it was ended.
pub proof fn end_of_a_command_is_told(
    a: AppView,
    label: Seq<char>,
    ok: bool,
    code: Option<i32>,
    elapsed: Seq<char>,
    stamp: Seq<char>,
    now: u64,
    tools: ToolsView,
)
    ensures
        ({
            let b = a.handles(MsgView::Exit { label, ok, code, elapsed }, stamp, now, tools).0;
            let name = uppercase(label);
            &&& b.notices == a.notices.push((ok, name))
            &&& ok ==> last_event(b).text == name + " :: "@ + ("done in "@ + elapsed + " s"@)
                && last_event(b).level == Level::Good
            &&& !ok ==> last_event(b).level == Level::Danger
            &&& !ok && code == Some(126i32) ==> last_event(b).text == name + " :: failed :: "@
                + "authentication dismissed"@
            &&& !ok && code == Some(127i32) ==> last_event(b).text == name + " :: failed :: "@
                + "not authorised (polkit) or command not found"@
            &&& !ok && code is None ==> last_event(b).text == name + " :: failed :: "@
                + "terminated"@
            &&& !ok && code is Some && code != Some(126i32) && code != Some(127i32)
                && code->0 >= 0 ==> last_event(b).text == name + " :: failed :: "@ + (
            "exit code "@ + crate::num::decimal(code->0 as nat))
            &&& b.packages == a.packages && b.updates == a.updates && b.dialog == a.dialog
        }),
{
}

/// What a command prints goes to the log line by line; what begins with or holds an error or a
/// warning is marked as one, pacman's own headlines as good news.
pub proof fn output_goes_to_the_log(
    a: AppView,
    text: Seq<char>,
    stderr: bool,
    stamp: Seq<char>,
    now: u64,
    tools: ToolsView,
)
    ensures
        ({
            let (b, fx) = a.handles(MsgView::Line { text, stderr }, stamp, now, tools);
            let lower = lowercase(text);
            let bad = "error"@.is_prefix_of(lower) || holds(lower, "error:"@);
            let odd = "warning"@.is_prefix_of(lower) || holds(lower, "warning:"@);
            let news = "::"@.is_prefix_of(text) || "==>"@.is_prefix_of(text);
            &&& fx.len() == 0
            &&& last_event(b).text == text && last_event(b).time == "["@ + stamp + "]"@
            &&& last_event(b).level == Level::Danger <==> bad
            &&& last_event(b).level == Level::Warn <==> !bad && odd
            &&& last_event(b).level == Level::Good <==> !bad && !odd && news
            &&& b == (AppView { log: b.log, ..a })
        }),
{
    lemma_holds(lowercase(text), "error:"@);
    lemma_holds(lowercase(text), "warning:"@);
}

/// The log keeps every event in order, newest last, until it is too long; then the oldest thousand
/// go.
pub proof fn log_keeps_events_in_order(
    a: AppView,
    stamp: Seq<char>,
    text: Seq<char>,
    level: Level,
)
    ensures
        ({
            let b = a.logs(stamp, text, level);
            let e = EventView { time: "["@ + stamp + "]"@, text, level };
            &&& a.log.len() < 3000 ==> b.log == a.log.push(e)
            &&& a.log.len() >= 3000 ==> b.log == a.log.push(e).skip(1000)
            &&& b == (AppView { log: b.log, ..a })
        }),
{
}

/// What a later launch asks for is done once the inventory is in: the package is selected, in the
/// updates where it is among them, else among all that are installed; and the full upgrade is
/// asked for.
pub proof fn upgrade_request_asks_for_the_upgrade(a: AppView, stamp: Seq<char>, tools: ToolsView)
    requires
        a.packages.len() > 0,
        a.dialog is None,
        a.backend.running is None,
        a.start.select is None,
    ensures
        ({
            let (b, fx) = a.poll_instance(seq![RequestView::Upgrade], tools);
            &&& fx == seq![EffectView::FocusWindow]
            &&& !b.start.upgrade
            &&& b.dialog == a.applies(ActionView::UpgradeAll, stamp, tools).0.dialog
            &&& b.packages == a.packages && b.view == a.view
        }),
{
    reveal_with_fuel(AppView::notes_requests, 2);
    let r = seq![RequestView::Upgrade];
    assert(r.drop_last() =~= Seq::empty());
    assert(a.notes_requests(r) == a.notes_request(RequestView::Upgrade));
}

proof fn lemma_named_row(rows: Seq<int>, src: Seq<PackageView>, name: Seq<char>)
    ensures
        crate::app::named_row(rows, src, name) <= rows.len(),
        crate::app::named_row(rows, src, name) < rows.len() ==> src[rows[crate::app::named_row(
            rows,
            src,
            name,
        ) as int]].name == name,
        forall|j: int|
            0 <= j < crate::app::named_row(rows, src, name) ==> src[#[trigger] rows[j]].name != name,
    decreases rows.len(),
{
    if rows.len() > 0 && src[rows[0]].name != name {
        let t = rows.drop_first();
        lemma_named_row(t, src, name);
        assert forall|j: int|
            0 <= j < crate::app::named_row(rows, src, name) implies src[#[trigger] rows[j]].name
            != name by {
            if j > 0 {
                assert(t[j - 1] == rows[j]);
            }
        }
    }
}

/// A package that a later launch asks to see is then the selected one, whatever the filter was: in
/// the list of the updates where it has one, else in that of all installed packages.
pub proof fn select_request_selects_the_package(a: AppView, tools: ToolsView, k: int)
    requires
        0 <= k < a.packages.len(),
        a.packages.len() <= usize::MAX,
        !a.start.upgrade,
        forall|j: int|
            0 <= j < a.packages.len() && j != k ==> (#[trigger] a.packages[j]).name
                != a.packages[k].name,
        a.goes_to(a.packages[k].name).rows.len() <= usize::MAX,
    ensures
        lowercase(Seq::empty()).len() == 0 ==> ({
            let p = a.packages[k];
            let (b, fx) = a.poll_instance(seq![RequestView::Select(p.name)], tools);
            &&& fx == seq![EffectView::FocusWindow]
            &&& b.filter.len() == 0
            &&& b.start.select is None
            &&& p.latest is Some ==> b.view == View::Updates
            &&& p.latest is None ==> b.view == View::Installed
            &&& b.selected_package() == Some(p)
            &&& b.table.scroll_to_selected
        }),
{
    let p = a.packages[k];
    reveal_with_fuel(AppView::notes_requests, 2);
    let r = seq![RequestView::Select(p.name)];
    assert(r.drop_last() =~= Seq::empty());
    let n = a.notes_request(RequestView::Select(p.name));
    assert(a.notes_requests(r) == n);
    let m = AppView { start: StartView { select: None, ..n.start }, ..n };
    let c = AppView { filter: Seq::empty(), ..m };
    let u = AppView { view: View::Updates, ..c };
    listed_is_what_view_and_filter_ask_for(u, k);
    let ur = u.rebuilt();
    lemma_named_row(ur.rows, ur.packages, p.name);
    lemma_selected(u, k);
    let i = AppView { view: View::Installed, ..ur };
    listed_is_what_view_and_filter_ask_for(i, k);
    lemma_named_row(i.rebuilt().rows, i.rebuilt().packages, p.name);
    lemma_selected(i, k);
    assert(m.goes_to(p.name).rows == a.goes_to(p.name).rows);
}

proof fn lemma_selected(v: AppView, k: int)
    requires
        v.view == View::Updates || v.view == View::Installed,
        0 <= k < v.packages.len(),
        forall|j: int|
            0 <= j < v.packages.len() && j != k ==> (#[trigger] v.packages[j]).name
                != v.packages[k].name,
    ensures
        ({
            let b = v.rebuilt();
            let at = crate::app::named_row(b.rows, b.packages, v.packages[k].name) as int;
            &&& at < b.rows.len() <==> b.rows.contains(k)
            &&& at < b.rows.len() ==> b.rows[at] == k
        }),
{
    let b = v.rebuilt();
    let name = v.packages[k].name;
    lemma_named_row(b.rows, b.packages, name);
    let at = crate::app::named_row(b.rows, b.packages, name) as int;
    if at < b.rows.len() {
        crate::laws::listed_packages_belong_to_the_view(v, at);
        assert(b.rows[at] == k);
    }
    if b.rows.contains(k) {
        let x = choose|x: int| 0 <= x < b.rows.len() && b.rows[x] == k;
        if at >= b.rows.len() {
            assert(b.packages[b.rows[x]].name != name);
        }
    }
}

// ------------------------------------------------------------------ notices, saved checks, the agent

/// Notices are shown one at a time, the oldest first, and none over an open dialog.
pub proof fn notices_are_shown_in_turn(a: AppView, success: bool, line: Seq<char>)
    ensures
        a.dialog is Some ==> a.next_notice() == a,
        a.notices.len() == 0 ==> a.next_notice() == a,
        a.dialog is None && a.notices.len() > 0 && a.notices[0] == (success, line)
            ==> a.next_notice() == (AppView {
            dialog: Some(
                DialogView { state: DialogStateView::Notice { success, line }, closing: false },
            ),
            notices: a.notices.subrange(1, a.notices.len() as int),
            ..a
        }),
{
    if a.notices.len() > 0 {
        assert(a.notices.drop_first() =~= a.notices.subrange(1, a.notices.len() as int));
    }
}

/// A saved check is taken over as a fresh one would be: the updates, when it was, and why it
/// failed.
pub proof fn saved_check_is_taken_over(a: AppView, st: crate::state::StateView)
    ensures
        ({
            let b = a.loads_check(st);
            &&& b.updates == st.updates && b.checked_at == st.checked_at && b.check_error
                == st.error
            &&& b.packages.len() == a.packages.len()
            &&& b == (AppView {
                updates: b.updates,
                checked_at: b.checked_at,
                check_error: b.check_error,
                packages: b.packages,
                dirty: true,
                ..a
            })
        }),
{
}

/// The agent is told the view, the selected package, what runs, what is asked, and the latest eight
/// events.
pub proof fn agent_is_told_what_is_shown(
    a: AppView,
    view: Seq<char>,
    filter: Seq<char>,
    title: Seq<char>,
)
    ensures
        a.selected_package() is None && a.backend.running is None && a.dialog is None
            && a.log.len() == 0 ==> a.agent_text(view, filter, title) == "view: "@ + view
            + " :: rows: "@ + crate::num::decimal(a.rows.len()) + " :: filter: "@ + filter
            + " :: pending updates: "@ + crate::num::decimal(a.updates.len()) + "\n"@
            + "selected: none\n"@ + "log (latest last):\n"@,
        a.backend.running is Some ==> a.running_line() == "running: "@ + a.backend.running->0.label
            + " ("@ + a.backend.running->0.command_line() + ")\n"@,
        a.selected_package() is Some ==> {
            let p = a.selected_package()->0;
            a.selected_line() == "selected: "@ + p.name + " "@ + p.version + " ("@ + p.repo
                + ") :: "@ + crate::app::status(p).word() + (if p.latest is Some {
                " -> "@ + p.latest->0
            } else {
                Seq::empty()
            }) + "\n"@
        },
        a.dialog is Some && a.dialog->0.closing ==> a.dialog_line(title) == Seq::<char>::empty(),
{
    let e = Seq::<char>::empty();
    if a.selected_package() is None && a.backend.running is None && a.dialog is None && a.log.len()
        == 0 {
        let head = "view: "@ + view + " :: rows: "@ + crate::num::decimal(a.rows.len())
            + " :: filter: "@ + filter + " :: pending updates: "@ + crate::num::decimal(
            a.updates.len(),
        ) + "\n"@ + "selected: none\n"@;
        assert(head + e =~= head);
        let all = head + "log (latest last):\n"@;
        assert(all + e =~= all);
    }
}

/// The agent's log has a line for each event, in order.
pub proof fn agent_log_has_every_event(log: Seq<EventView>, e: EventView)
    ensures
        crate::app::log_lines(log.push(e)) == crate::app::log_lines(log) + ("  "@ + e.time + " "@
            + e.text + "\n"@),
        crate::app::log_lines(Seq::empty()) == Seq::<char>::empty(),
{
    assert(log.push(e).drop_last() =~= log);
}

// ------------------------------------------------------------------ start and frames

/// The console starts with nothing read, nothing asked and nothing in flight, on the list of what is
/// installed, and says so in its log; what else was to be said comes after that.
pub proof fn console_starts_with_nothing(
    stamp: Seq<char>,
    log_open: bool,
    agent: bool,
    extra: Seq<char>,
)
    ensures
        ({
            let a = AppView::started(stamp, log_open, agent, None);
            let b = AppView::started(stamp, log_open, agent, Some(extra));
            let time = "["@ + stamp + "]"@;
            &&& a.packages.len() == 0 && a.updates.len() == 0 && a.search_results.len() == 0
            &&& a.view == View::Installed && a.rows.len() == 0 && a.filter.len() == 0
            &&& a.dialog is None && a.notices.len() == 0 && !a.backend.busy()
            &&& a.checked_at is None && a.check_error is None && a.fetch_ms is None
            &&& !a.start.upgrade && a.start.select is None
            &&& a.table.selected is None && a.dirty && a.log_open == log_open
            &&& a.log.len() > 0 && a.log[0] == (EventView {
                time,
                text: "package console online :: reading inventory"@,
                level: Level::Good,
            })
            &&& !agent ==> a.log.len() == 1
            &&& agent ==> a.log.len() == 2 && a.log[1] == (EventView {
                time,
                text: "agent // interface on :: waiting for a client"@,
                level: Level::Warn,
            })
            &&& b.log == a.log.push(EventView { time, text: extra, level: Level::Danger })
        }),
{
}

/// The messages of a frame are handled in order, and what each asks for is asked in that order.
pub proof fn messages_are_handled_in_turn(
    a: AppView,
    m: Seq<MsgView>,
    x: MsgView,
    stamp: Seq<char>,
    now: u64,
    tools: ToolsView,
)
    ensures
        a.handles_all(Seq::empty(), stamp, now, tools) == (a, Seq::<EffectView>::empty()),
        ({
            let (b, fx) = a.handles_all(m, stamp, now, tools);
            let (c, more) = b.handles(x, stamp, now, tools);
            a.handles_all(m.push(x), stamp, now, tools) == (c, fx + more)
        }),
        a.polls(Seq::empty(), stamp, now, tools) == (a, Seq::<EffectView>::empty()),
{
    assert(m.push(x).drop_last() =~= m);
}

/// A frame without requests and messages asks for nothing; it rebuilds the list where that is due
/// and shows a notice that waits.
pub proof fn quiet_frame_asks_for_nothing(a: AppView, stamp: Seq<char>, now: u64, tools: ToolsView)
    ensures
        ({
            let (b, fx) = a.begins_frame(Seq::empty(), Seq::empty(), stamp, now, tools);
            &&& fx.len() == 0
            &&& b.packages == a.packages && b.updates == a.updates && b.log == a.log
            &&& b.backend == a.backend && b.filter == a.filter && b.view == a.view
            &&& !a.dirty ==> b.rows == a.rows && b.table == a.table
            &&& !a.dirty && (a.dialog is Some || a.notices.len() == 0) ==> b == a
            &&& a.dialog is None && a.notices.len() > 0 ==> b.dialog is Some
        }),
{
}

/// Of the requests of later launches the last package counts, and an upgrade asked for once is
/// asked for.
pub proof fn later_requests_add_up(a: AppView, r: Seq<RequestView>, x: RequestView)
    ensures
        a.notes_requests(Seq::empty()) == a,
        x == RequestView::Show ==> a.notes_requests(r.push(x)) == a.notes_requests(r),
        x == RequestView::Upgrade ==> a.notes_requests(r.push(x)).start == (StartView {
            upgrade: true,
            ..a.notes_requests(r).start
        }),
        x is Select ==> a.notes_requests(r.push(x)).start == (StartView {
            select: Some(x->Select_0),
            ..a.notes_requests(r).start
        }),
        a.notes_requests(r.push(x)) == (AppView {
            start: a.notes_requests(r.push(x)).start,
            ..a.notes_requests(r)
        }),
{
    assert(r.push(x).drop_last() =~= r);
}

/// Why a command failed is told by its exit code.
pub proof fn exit_codes_are_explained(c: i32)
    ensures
        crate::app::exit_reason(Some(126)) == "authentication dismissed"@,
        crate::app::exit_reason(Some(127)) == "not authorised (polkit) or command not found"@,
        crate::app::exit_reason(None) == "terminated"@,
        0 <= c && c != 126 && c != 127 ==> crate::app::exit_reason(Some(c)) == "exit code "@
            + crate::num::decimal(c as nat),
        c < 0 ==> crate::app::exit_reason(Some(c)) == "exit code "@ + ("-"@
            + crate::num::decimal((-c) as nat)),
{
}

/// The words for a status, and their order from what needs attention to what does not.
pub proof fn statuses_have_words_and_order()
    ensures
        crate::app::Status::Outdated.word() == "OUTDATED"@,
        crate::app::Status::Orphan.word() == "ORPHAN"@,
        crate::app::Status::Explicit.word() == "EXPLICIT"@,
        crate::app::Status::Dependency.word() == "DEP"@,
        crate::app::Status::Available.word() == "AVAILABLE"@,
        crate::app::Status::Outdated.rank() < crate::app::Status::Orphan.rank()
            < crate::app::Status::Explicit.rank() < crate::app::Status::Dependency.rank()
            < crate::app::Status::Available.rank(),
{
}

/// A font query prints the file and, on the next line, the face; without it the face is the first.
pub proof fn fonts_are_read(file: Seq<char>, n: u32, more: Seq<Seq<char>>)
    requires
        file.len() > 0 && !crate::text::is_white(file[0]) && !crate::text::is_white(file.last()),
    ensures
        crate::app::named_font(seq![file, crate::num::decimal(n as nat)] + more) == Some((file, n)),
        crate::app::named_font(seq![file]) == Some((file, 0u32)),
        crate::app::named_font(Seq::empty()) is None,
{
    let d = crate::num::decimal(n as nat);
    crate::num::lemma_decimal(n as nat);
    crate::num::decimal_is_read_back(n as nat, u32::MAX as nat);
    assert(crate::num::is_digit(d[0]) && crate::num::is_digit(d[d.len() - 1]));
    crate::text::trimming_keeps_clean_text(d);
    crate::text::trimming_keeps_clean_text(file);
    let l = seq![file, d] + more;
    assert(l[0] == file && l[1] == d);
}

// ------------------------------------------------------------------ what the log says

/// Details of a package that is not among the results change nothing.
pub proof fn details_of_others_change_nothing(r: Seq<PackageView>, d: PackageView)
    requires
        forall|j: int|
            0 <= j < r.len() ==> (#[trigger] r[j]).name != d.name || (r[j].repo != d.repo
                && r[j].repo.len() > 0),
    ensures
        crate::app::with_details(r, d) == r,
        crate::app::details_at(r, d) == r.len(),
    decreases r.len(),
{
    if r.len() > 0 {
        assert(r[0].name != d.name || (r[0].repo != d.repo && r[0].repo.len() > 0));
        let rest = r.drop_first();
        assert forall|j: int| 0 <= j < rest.len() implies (#[trigger] rest[j]).name != d.name || (
        rest[j].repo != d.repo && rest[j].repo.len() > 0) by {
            assert(r[j + 1].name != d.name || (r[j + 1].repo != d.repo && r[j + 1].repo.len() > 0));
        }
        details_of_others_change_nothing(rest, d);
    }
}

/// The log says how many packages an inventory found, how many of them were asked for, are in no
/// repository and are orphans, and warns of orphans.
pub proof fn log_tells_the_inventory(
    a: AppView,
    pkgs: Seq<PackageView>,
    ms: Seq<char>,
    stamp: Seq<char>,
    now: u64,
    tools: ToolsView,
)
    requires
        a.start.select is None,
        !a.start.upgrade,
    ensures
        ({
            let b = a.handles(MsgView::Inventory(Ok(pkgs), ms), stamp, now, tools).0;
            let e = last_event(b);
            &&& e.text == "inventory :: "@ + crate::num::decimal(pkgs.len()) + " packages, "@
                + crate::num::decimal(b.count(View::Explicit)) + " explicit, "@
                + crate::num::decimal(b.count(View::Foreign)) + " foreign, "@
                + crate::num::decimal(b.count(View::Orphans)) + " orphans in "@ + ms + " ms"@
            &&& b.count(View::Orphans) > 0 ==> e.level == Level::Warn
            &&& b.count(View::Orphans) == 0 ==> e.level == Level::Good
        }),
{
}

/// The log says how many updates a check found, in the repositories and in the AUR, and warns of
/// them.
pub proof fn log_tells_the_check(
    a: AppView,
    u: Seq<UpgradeView>,
    e: Seq<char>,
    stamp: Seq<char>,
    now: u64,
    tools: ToolsView,
)
    ensures
        ({
            let b = a.handles(MsgView::Check(Ok(u)), stamp, now, tools).0;
            let n = crate::app::aur_updates(u);
            &&& last_event(b).text == "check :: "@ + crate::num::decimal(u.len()) + " updates ("@
                + crate::num::decimal((u.len() - n) as nat) + " repo, "@ + crate::num::decimal(n)
                + " aur)"@
            &&& u.len() == 0 ==> last_event(b).level == Level::Good
            &&& u.len() > 0 ==> last_event(b).level == Level::Warn
        }),
        ({
            let b = a.handles(MsgView::Check(Err(e)), stamp, now, tools).0;
            &&& last_event(b).text == "CHECK // UPDATES"@ + " :: failed :: "@ + e
            &&& last_event(b).level == Level::Danger
        }),
{
}

/// The log says how many hits a search had, and why one or the reading of details failed; only a
/// failed search opens a dialog.
pub proof fn log_tells_the_searches(
    a: AppView,
    q: Seq<char>,
    h: Seq<HitView>,
    e: Seq<char>,
    stamp: Seq<char>,
    now: u64,
    tools: ToolsView,
)
    ensures
        ({
            let b = a.handles(MsgView::Search { query: q, result: Ok(h) }, stamp, now, tools).0;
            &&& last_event(b).text == "search // "@ + q + " :: "@ + crate::num::decimal(
                b.search_results.len(),
            ) + " hits"@
            &&& last_event(b).level == Level::Good
            &&& b.notices == a.notices
        }),
        ({
            let b = a.handles(MsgView::Search { query: q, result: Err(e) }, stamp, now, tools).0;
            &&& last_event(b).text == "SEARCH"@ + " // "@ + uppercase(q) + " :: failed :: "@ + e
            &&& last_event(b).level == Level::Danger
        }),
        ({
            let b = a.handles(MsgView::Details(Err(e)), stamp, now, tools).0;
            &&& last_event(b).text == "details :: failed :: "@ + e
            &&& last_event(b).level == Level::Warn
            &&& b == (AppView { log: b.log, ..a })
        }),
{
}

/// The log says which page was opened; nothing else changes.
pub proof fn log_tells_the_pages(a: AppView, url: Seq<char>, stamp: Seq<char>, tools: ToolsView)
    ensures
        ({
            let b = a.applies(ActionView::Homepage(url), stamp, tools).0;
            &&& last_event(b).text == "open // "@ + url
            &&& last_event(b).level == Level::Info
            &&& b == (AppView { log: b.log, ..a })
        }),
{
}

/// What is known of the machine is taken over as it comes.
pub proof fn machine_is_taken_over(
    a: AppView,
    m: crate::backend::SystemView,
    stamp: Seq<char>,
    now: u64,
    tools: ToolsView,
)
    ensures
        a.handles(MsgView::System(m), stamp, now, tools) == (
            AppView { system: m, ..a },
            Seq::<EffectView>::empty(),
        ),
{
}

/// A question warns of what will happen: of what a removal takes with it, of AUR packages that
/// nobody has read, of packages that are replaced, of what the cache keeps, and that the upgrade
/// asks no more.
pub proof fn questions_warn_of_what_happens(
    a: AppView,
    n: Seq<char>,
    stamp: Seq<char>,
    tools: ToolsView,
)
    requires
        tools.privilege is Some,
        tools.helper is Some,
    ensures
        question(a.applies(ActionView::Remove(n), stamp, tools).0)->0.note
            == "REMOVES THE PACKAGE, ITS CONFIG AND UNNEEDED DEPENDENCIES (-Rns)"@,
        question(a.applies(ActionView::Install(n, true), stamp, tools).0)->0.note
            == "BUILT FROM THE AUR WITHOUT REVIEW :: READ THE PKGBUILD FIRST (BUTTON IN THE INSPECTOR)"@,
        question(a.applies(ActionView::Install(n, false), stamp, tools).0)->0.note
            == "DEPENDENCIES ARE INSTALLED AS NEEDED :: A CONFLICTING PACKAGE IS REPLACED"@,
        question(a.applies(ActionView::UpgradeAur(n), stamp, tools).0)->0.note
            == "REBUILT FROM THE AUR WITHOUT REVIEW :: READ THE PKGBUILD FIRST"@,
        question(a.applies(ActionView::CleanCache, stamp, tools).0)->0.note
            == "KEEPS THE LAST 2 VERSIONS OF EACH PACKAGE (paccache -rk2)"@,
        question(a.applies(ActionView::UpgradeAll, stamp, tools).0)->0.note
            == "SYNCS THE DATABASES AND UPGRADES EVERYTHING :: NO QUESTIONS ARE ASKED (--noconfirm)"@,
{
}

/// Asking a question changes nothing but the dialog.
pub proof fn questions_change_only_the_dialog(
    a: AppView,
    n: Seq<char>,
    aur: bool,
    stamp: Seq<char>,
    tools: ToolsView,
)
    requires
        tools.privilege is Some,
        tools.helper is Some,
    ensures
        ({
            let b = a.applies(ActionView::Remove(n), stamp, tools).0;
            b == (AppView { dialog: b.dialog, ..a })
        }),
        ({
            let b = a.applies(ActionView::Install(n, aur), stamp, tools).0;
            b == (AppView { dialog: b.dialog, ..a })
        }),
        ({
            let b = a.applies(ActionView::UpgradeAur(n), stamp, tools).0;
            b == (AppView { dialog: b.dialog, ..a })
        }),
        ({
            let b = a.applies(ActionView::UpgradeAll, stamp, tools).0;
            b == (AppView { dialog: b.dialog, ..a })
        }),
        ({
            let b = a.applies(ActionView::CleanCache, stamp, tools).0;
            b == (AppView { dialog: b.dialog, ..a })
        }),
        ({
            let b = a.applies(ActionView::RemoveOrphans, stamp, tools).0;
            b == (AppView { dialog: b.dialog, ..a })
        }),
{
}

/// The log says what was asked for: to read again, to check, to search, and which command runs; and
/// nothing but what is in flight changes with it.
pub proof fn log_tells_what_was_asked_for(a: AppView, stamp: Seq<char>, tools: ToolsView)
    ensures
        ({
            let b = a.applies(ActionView::Refresh, stamp, tools).0;
            &&& last_event(b).text == "refresh // inventory"@ && last_event(b).level == Level::Info
            &&& b == (AppView { log: b.log, backend: b.backend, ..a })
        }),
        ({
            let b = a.applies(ActionView::Check, stamp, tools).0;
            &&& last_event(b).text == "check // checkupdates + aur"@ && last_event(b).level
                == Level::Info
            &&& b == (AppView { log: b.log, backend: b.backend, ..a })
        }),
        ({
            let (b, fx) = a.applies(ActionView::Search, stamp, tools);
            &&& fx.len() == 0 ==> b == a
            &&& fx.len() > 0 ==> fx.len() == 1 && fx[0] is Search && last_event(b).text
                == "search // "@ + fx[0]->Search_0 && last_event(b).level == Level::Info
                && b.backend.searching == Some(fx[0]->Search_0)
            &&& b == (AppView { log: b.log, backend: b.backend, ..a })
        }),
{
}

} // verus!
