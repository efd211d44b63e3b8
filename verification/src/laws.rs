//! What holds of the package console whatever happens: laws that relate its transitions.

use crate::app::{
    exit_reason, hit_packages, lower_descs, lower_names, package_at, row_keys, row_of, row_shown,
    with_all_details, with_details, ActionView, AppView, DialogStateView, DialogView, EffectView,
    Level, StartView, ToolsView, View,
};
use crate::backend::{JobView, MsgView};
use crate::instance::RequestView;
use crate::order::{arranged_is_an_arrangement, is_arrangement};
use crate::pacman::{HitView, PackageView, UpgradeView};
use crate::text::{lowercase, uppercase};
use vstd::prelude::*;
use vstd::view::View as _;

verus! {

// ------------------------------------------------------------------ the listing

proof fn lemma_row_of(rows: Seq<int>, x: int)
    ensures
        row_of(rows, x) <= rows.len(),
        row_of(rows, x) < rows.len() ==> rows[row_of(rows, x) as int] == x,
        rows.contains(x) ==> row_of(rows, x) < rows.len(),
    decreases rows.len(),
{
    if rows.len() > 0 && rows[0] != x {
        lemma_row_of(rows.drop_first(), x);
        if rows.contains(x) {
            let k = choose|k: int| 0 <= k < rows.len() && rows[k] == x;
            assert(rows.drop_first()[k - 1] == x);
        }
    }
}

/// The rows are just the packages of the view that the filter lets through, each once and in the
/// order of the chosen column, then of the names.
pub proof fn listing_is_complete_and_sorted(a: AppView)
    ensures
        is_arrangement(
            a.rebuilt().rows,
            row_keys(a.source(), a.table.sort_col, lower_names(a.source())),
            row_shown(
                a.source(),
                a.view,
                lowercase(a.filter),
                lower_names(a.source()),
                lower_descs(a.source()),
            ),
            a.table.sort_desc,
        ),
        !a.rebuilt().dirty,
{
    arranged_is_an_arrangement(
        row_keys(a.source(), a.table.sort_col, lower_names(a.source())),
        row_shown(
            a.source(),
            a.view,
            lowercase(a.filter),
            lower_names(a.source()),
            lower_descs(a.source()),
        ),
        a.table.sort_desc,
    );
}

/// Rebuilding the rows keeps the selection on its package, or drops it where the package is no
/// longer listed.
pub proof fn selection_stays_on_its_package(a: AppView)
    requires
        a.rows.len() <= usize::MAX,
        a.rebuilt().rows.len() <= usize::MAX,
    ensures
        a.rebuilt().selected_package() is Some ==> a.rebuilt().selected_package()
            == a.selected_package(),
        a.selected_package() is Some && a.rebuilt().rows.contains(
            a.rows[a.table.selected->0 as int],
        ) ==> a.rebuilt().selected_package() == a.selected_package(),
{
    let b = a.rebuilt();
    assert(b.source() == a.source());
    if let Some(r) = a.table.selected {
        if r < a.rows.len() {
            lemma_row_of(b.rows, a.rows[r as int]);
        }
    }
}

/// Rebuilding the rows twice is rebuilding them once.
pub proof fn rebuilding_is_idempotent(a: AppView)
    requires
        a.rebuilt().rows.len() <= usize::MAX,
    ensures
        a.rebuilt().rebuilt() == a.rebuilt(),
{
    let b = a.rebuilt();
    assert(b.source() == a.source());
    assert(b.rebuilt().rows == b.rows);
    if let Some(r) = a.table.selected {
        if r < a.rows.len() {
            let x = a.rows[r as int];
            lemma_row_of(b.rows, x);
            if row_of(b.rows, x) < b.rows.len() {
                lemma_row_of(b.rows, b.rows[row_of(b.rows, x) as int]);
            }
        }
    }
    assert(b.rebuilt() =~= b);
}

/// A package of the listing is one of the view.
pub proof fn listed_packages_belong_to_the_view(a: AppView, i: int)
    requires
        0 <= i < a.rebuilt().rows.len(),
    ensures
        0 <= a.rebuilt().rows[i] < a.source().len(),
        a.view.lists(a.source()[a.rebuilt().rows[i]]),
{
    listing_is_complete_and_sorted(a);
    assert(a.rebuilt().rows.contains(a.rebuilt().rows[i]));
}

/// Every row stands for a package, or the rows are due to be rebuilt before they are shown.
pub open spec fn listing_fits(a: AppView) -> bool {
    a.dirty || forall|i: int|
        0 <= i < a.rows.len() ==> 0 <= (#[trigger] a.rows[i]) < a.source().len()
}

/// Once the rows are rebuilt, every row stands for a package.
pub proof fn rebuilt_listing_fits(a: AppView)
    ensures
        listing_fits(a.rebuilt()),
{
    let b = a.rebuilt();
    assert(b.source() == a.source());
    assert forall|i: int| 0 <= i < b.rows.len() implies 0 <= (#[trigger] b.rows[i])
        < b.source().len() by {
        listed_packages_belong_to_the_view(a, i);
    }
}

/// No action leaves a row behind that stands for no package.
pub proof fn actions_keep_the_listing(
    a: AppView,
    action: ActionView,
    stamp: Seq<char>,
    tools: ToolsView,
)
    requires
        listing_fits(a),
    ensures
        listing_fits(a.applies(action, stamp, tools).0),
{
}

proof fn lemma_details_keep_the_length(results: Seq<PackageView>, d: Seq<PackageView>)
    ensures
        with_all_details(results, d).len() == results.len(),
    decreases d.len(),
{
    if d.len() > 0 {
        lemma_details_keep_the_length(results, d.drop_last());
    }
}

proof fn lemma_message_keeps_the_listing(
    a: AppView,
    m: MsgView,
    stamp: Seq<char>,
    now: u64,
    tools: ToolsView,
)
    requires
        listing_fits(a),
    ensures
        listing_fits(a.handles(m, stamp, now, tools).0),
{
    let b = a.handles(m, stamp, now, tools).0;
    match m {
        MsgView::Inventory(..) => {
            assert(b.dirty);
        },
        MsgView::Details(Ok(d)) => {
            lemma_details_keep_the_length(a.search_results, d);
            assert(b.rows == a.rows && b.source().len() == a.source().len());
        },
        _ => {},
    }
}

proof fn lemma_messages_keep_the_listing(
    a: AppView,
    m: Seq<MsgView>,
    stamp: Seq<char>,
    now: u64,
    tools: ToolsView,
)
    requires
        listing_fits(a),
    ensures
        listing_fits(a.handles_all(m, stamp, now, tools).0),
    decreases m.len(),
{
    if m.len() > 0 {
        let b = a.handles_all(m.drop_last(), stamp, now, tools).0;
        lemma_messages_keep_the_listing(a, m.drop_last(), stamp, now, tools);
        lemma_message_keeps_the_listing(b, m.last(), stamp, now, tools);
    }
}

/// Nothing that the workers report leaves a row behind that stands for no package.
pub proof fn messages_keep_the_listing(
    a: AppView,
    m: Seq<MsgView>,
    stamp: Seq<char>,
    now: u64,
    tools: ToolsView,
)
    requires
        listing_fits(a),
    ensures
        listing_fits(a.polls(m, stamp, now, tools).0),
{
    let b = AppView { backend: a.backend.settled_all(m), ..a };
    assert(b.source() == a.source());
    lemma_messages_keep_the_listing(b, m, stamp, now, tools);
}

/// Nothing that a later launch asks for leaves a row behind that stands for no package.
pub proof fn requests_keep_the_listing(a: AppView, r: Seq<RequestView>, tools: ToolsView)
    requires
        listing_fits(a),
    ensures
        listing_fits(a.poll_instance(r, tools).0),
{
    if r.len() > 0 {
        lemma_requests_are_noted(a, r);
        let n = a.notes_requests(r);
        assert(n.source() == a.source());
        let b = a.poll_instance(r, tools).0;
        assert(listing_fits(b)) by {
            lemma_after_inventory_fits(n, tools);
            lemma_after_inventory_fits(
                AppView { start: StartView { upgrade: false, ..n.start }, ..n },
                tools,
            );
        }
    }
}

proof fn lemma_goes_to_fits(a: AppView, name: Seq<char>)
    ensures
        listing_fits(a.goes_to(name)),
{
    let c = AppView { filter: Seq::empty(), ..a };
    let u = AppView { view: View::Updates, ..c };
    rebuilt_listing_fits(u);
    let i = AppView { view: View::Installed, ..u.rebuilt() };
    rebuilt_listing_fits(i);
    let g = a.goes_to(name);
    assert(g.rows == u.rebuilt().rows && g.source() == u.rebuilt().source() || g.rows
        == i.rebuilt().rows && g.source() == i.rebuilt().source());
}

proof fn lemma_after_inventory_fits(a: AppView, tools: ToolsView)
    requires
        listing_fits(a),
    ensures
        listing_fits(a.after_inventory(tools)),
{
    let b = match a.start.select {
        Some(name) => AppView {
            start: StartView { select: None, ..a.start },
            ..a
        }.goes_to(name),
        None => a,
    };
    if let Some(name) = a.start.select {
        lemma_goes_to_fits(
            AppView { start: StartView { select: None, ..a.start }, ..a },
            name,
        );
    }
    assert(listing_fits(b));
    let c = a.after_inventory(tools);
    assert(c.rows == b.rows && c.source() == b.source() && c.dirty == b.dirty);
}

/// Whatever has come in before a frame, what is painted is up to date and every row of it stands
/// for a package.
pub proof fn painted_rows_stand_for_packages(
    a: AppView,
    r: Seq<RequestView>,
    m: Seq<MsgView>,
    stamp: Seq<char>,
    now: u64,
    tools: ToolsView,
)
    requires
        listing_fits(a),
    ensures
        ({
            let b = a.begins_frame(r, m, stamp, now, tools).0;
            &&& !b.dirty
            &&& forall|i: int|
                0 <= i < b.rows.len() ==> 0 <= (#[trigger] b.rows[i]) < b.source().len()
        }),
{
    let c = a.poll_instance(r, tools).0;
    requests_keep_the_listing(a, r, tools);
    messages_keep_the_listing(c, m, stamp, now, tools);
    let d = c.polls(m, stamp, now, tools).0;
    rebuilt_listing_fits(d);
    let b = a.begins_frame(r, m, stamp, now, tools).0;
    assert(b.rows == d.refreshed().rows && b.source() == d.refreshed().source());
}

// ------------------------------------------------------------------ commands

/// The effect starts a command.
pub open spec fn starts(fx: Seq<EffectView>, job: JobView) -> bool {
    fx.contains(EffectView::Spawn(job))
}

/// No command starts without being asked for: an action that starts one is a confirmation (and
/// the command is the one that the dialog showed), a direct request to run it, or a change of an
/// install reason.
pub proof fn only_confirmed_commands_start(
    a: AppView,
    action: ActionView,
    stamp: Seq<char>,
    tools: ToolsView,
    job: JobView,
)
    requires
        starts(a.applies(action, stamp, tools).1, job),
    ensures
        match action {
            ActionView::ConfirmDialog => a.dialog matches Some(
                DialogView { state: DialogStateView::Confirm(c), closing: false },
            ) && c.job == job,
            ActionView::Run(j) => j == job,
            ActionView::MarkExplicit(n, explicit) => {
                &&& tools.privilege == Some(job.program)
                &&& job.args == seq![
                    tools.pacman,
                    "-D"@,
                    if explicit {
                        "--asexplicit"@
                    } else {
                        "--asdeps"@
                    },
                    n,
                ]
            },
            _ => false,
        },
{
    let fx = a.applies(action, stamp, tools).1;
    let k = choose|k: int| 0 <= k < fx.len() && fx[k] == EffectView::Spawn(job);
    match action {
        ActionView::Select(s) => {
            assert(fx.len() <= 1);
        },
        ActionView::Refresh => {
            assert(fx.len() <= 2);
        },
        _ => {},
    }
}

proof fn lemma_message_starts_nothing(
    a: AppView,
    m: MsgView,
    stamp: Seq<char>,
    now: u64,
    tools: ToolsView,
    job: JobView,
)
    ensures
        !starts(a.handles(m, stamp, now, tools).1, job),
{
    let fx = a.handles(m, stamp, now, tools).1;
    if starts(fx, job) {
        let k = choose|k: int| 0 <= k < fx.len() && fx[k] == EffectView::Spawn(job);
        match m {
            MsgView::Exit { label, ok, code, elapsed } => {
                let b = if ok {
                    a.succeeds(stamp, uppercase(label), "done in "@ + elapsed + " s"@)
                } else {
                    a.fails(stamp, uppercase(label), exit_reason(code))
                };
                assert(fx == b.rereads().1);
                assert(fx.len() <= 3);
            },
            _ => {},
        }
    }
}

proof fn lemma_messages_start_nothing(
    a: AppView,
    m: Seq<MsgView>,
    stamp: Seq<char>,
    now: u64,
    tools: ToolsView,
    job: JobView,
)
    ensures
        !starts(a.handles_all(m, stamp, now, tools).1, job),
    decreases m.len(),
{
    if m.len() > 0 {
        let (b, fx) = a.handles_all(m.drop_last(), stamp, now, tools);
        lemma_messages_start_nothing(a, m.drop_last(), stamp, now, tools, job);
        lemma_message_starts_nothing(b, m.last(), stamp, now, tools, job);
        let more = b.handles(m.last(), stamp, now, tools).1;
        let all = fx + more;
        if all.contains(EffectView::Spawn(job)) {
            let k = choose|k: int| 0 <= k < all.len() && all[k] == EffectView::Spawn(job);
            if k < fx.len() {
                assert(fx[k] == EffectView::Spawn(job));
            } else {
                assert(more[k - fx.len()] == EffectView::Spawn(job));
            }
        }
    }
}

/// Nothing that the workers report starts a command.
pub proof fn messages_start_no_command(
    a: AppView,
    m: Seq<MsgView>,
    stamp: Seq<char>,
    now: u64,
    tools: ToolsView,
    job: JobView,
)
    ensures
        !starts(a.polls(m, stamp, now, tools).1, job),
{
    lemma_messages_start_nothing(
        AppView { backend: a.backend.settled_all(m), ..a },
        m,
        stamp,
        now,
        tools,
        job,
    );
}

/// Nothing that a later launch asks for starts a command.
pub proof fn requests_start_no_command(
    a: AppView,
    r: Seq<RequestView>,
    tools: ToolsView,
    job: JobView,
)
    ensures
        !starts(a.poll_instance(r, tools).1, job),
{
}

/// One command at a time: while one is running another is refused with a notice, and the running
/// one stays.
pub proof fn second_command_is_refused(a: AppView, job: JobView, stamp: Seq<char>)
    requires
        a.backend.running is Some,
    ensures
        a.run_job(job, stamp).1.len() == 0,
        a.run_job(job, stamp).0.backend == a.backend,
        a.run_job(job, stamp).0.notices == a.notices.push(
            (false, uppercase(job.label)),
        ),
{
}

/// A confirmation is carried out once: confirming again, while the dialog is closing, does nothing.
pub proof fn confirmation_counts_once(a: AppView, stamp: Seq<char>)
    requires
        a.dialog matches Some(DialogView { state: DialogStateView::Confirm(_), closing: false }),
    ensures
        ({
            let b = a.confirms_dialog(stamp).0;
            b.confirms_dialog(stamp) == (b, Seq::<EffectView>::empty())
        }),
{
}

/// A dismissed question does nothing, even if it is confirmed while it is closing.
pub proof fn dismissed_question_does_nothing(a: AppView, stamp: Seq<char>)
    ensures
        a.closes_dialog().confirms_dialog(stamp) == (
            a.closes_dialog(),
            Seq::<EffectView>::empty(),
        ),
{
}

/// The command of the dialog that is open.
pub open spec fn asked(a: AppView) -> Option<JobView> {
    match a.dialog {
        Some(DialogView { state: DialogStateView::Confirm(c), closing: false }) => Some(c.job),
        _ => None,
    }
}

/// Commands ask no questions: whatever installs, removes or upgrades is run with `--noconfirm`.
pub proof fn commands_ask_no_questions(
    a: AppView,
    action: ActionView,
    stamp: Seq<char>,
    tools: ToolsView,
)
    requires
        a.dialog is None,
        match action {
            ActionView::UpgradeAll
            | ActionView::Install(..)
            | ActionView::Remove(_)
            | ActionView::UpgradeAur(_)
            | ActionView::RemoveOrphans => true,
            _ => false,
        },
    ensures
        asked(a.applies(action, stamp, tools).0) matches Some(job) ==> job.args.contains(
            "--noconfirm"@,
        ),
{
    if let Some(job) = asked(a.applies(action, stamp, tools).0) {
        match action {
            ActionView::UpgradeAll => {
                if tools.helper is Some {
                    assert(job.args[1] == "--noconfirm"@);
                } else {
                    assert(job.args[2] == "--noconfirm"@);
                }
            },
            ActionView::Install(n, aur) => {
                if aur {
                    assert(job.args[2] == "--noconfirm"@);
                } else {
                    assert(job.args[3] == "--noconfirm"@);
                }
            },
            ActionView::Remove(_) => {
                assert(job.args[2] == "--noconfirm"@);
            },
            ActionView::UpgradeAur(_) => {
                assert(job.args[2] == "--noconfirm"@);
            },
            ActionView::RemoveOrphans => {
                assert(job.args[2] == "--noconfirm"@);
            },
            _ => {},
        }
    }
}

/// Upgrading everything is always a full upgrade (`-Syu`), by the helper where there is one.
pub proof fn upgrade_all_is_a_full_upgrade(a: AppView, tools: ToolsView)
    requires
        a.dialog is None,
    ensures
        asked(a.upgrade_all(tools)) matches Some(job) ==> {
            &&& job.args.contains("-Syu"@)
            &&& tools.helper matches Some(h) ==> job.program == h
            &&& tools.helper is None ==> tools.privilege == Some(job.program)
        },
{
    if let Some(job) = asked(a.upgrade_all(tools)) {
        if tools.helper is Some {
            assert(job.args[0] == "-Syu"@);
        } else {
            assert(job.args[1] == "-Syu"@);
        }
    }
}

/// Without a way to become root nothing that needs it is even asked: it fails with a notice.
pub proof fn nothing_is_asked_without_privilege(
    a: AppView,
    action: ActionView,
    stamp: Seq<char>,
    tools: ToolsView,
)
    requires
        tools.privilege is None,
        a.dialog is None,
    ensures
        asked(a.applies(action, stamp, tools).0) is None,
{
}

/// After a command ended, everything is read and checked again, and it is no longer running.
pub proof fn exit_rereads_everything(
    a: AppView,
    label: Seq<char>,
    ok: bool,
    code: Option<i32>,
    elapsed: Seq<char>,
    stamp: Seq<char>,
)
    ensures
        ({
            let (b, fx) = a.has_exit(label, ok, code, elapsed, stamp);
            &&& b.backend.fetching && b.backend.checking
            &&& fx.contains(EffectView::FetchSystem)
            &&& a.backend.fetching || fx.contains(EffectView::FetchInventory)
            &&& a.backend.checking || fx.contains(EffectView::Check)
            &&& b.notices.len() == a.notices.len() + 1
            &&& b.notices.last().0 == ok
        }),
{
    let (b, fx) = a.has_exit(label, ok, code, elapsed, stamp);
    let p: Seq<EffectView> = if a.backend.fetching {
        Seq::empty()
    } else {
        seq![EffectView::FetchInventory]
    };
    assert(fx[p.len() as int] == EffectView::FetchSystem);
    if !a.backend.fetching {
        assert(fx[0] == EffectView::FetchInventory);
    }
    if !a.backend.checking {
        assert(fx[p.len() as int + 1] == EffectView::Check);
    }
}

// ------------------------------------------------------------------ the log, checks and requests

/// The log never grows past 3000 events, and what was just logged is its last event.
pub proof fn log_is_bounded(a: AppView, stamp: Seq<char>, text: Seq<char>, level: Level)
    requires
        a.log.len() <= 3000,
    ensures
        a.logs(stamp, text, level).log.len() <= 3000,
        a.logs(stamp, text, level).log.last().text == text,
{
}

/// No action makes the log grow past 3000 events.
pub proof fn actions_keep_the_log_bounded(
    a: AppView,
    action: ActionView,
    stamp: Seq<char>,
    tools: ToolsView,
)
    requires
        a.log.len() <= 3000,
    ensures
        a.applies(action, stamp, tools).0.log.len() <= 3000,
{
}

proof fn lemma_message_keeps_the_log_bounded(
    a: AppView,
    m: MsgView,
    stamp: Seq<char>,
    now: u64,
    tools: ToolsView,
)
    requires
        a.log.len() <= 3000,
    ensures
        a.handles(m, stamp, now, tools).0.log.len() <= 3000,
{
}

proof fn lemma_messages_keep_the_log_bounded(
    a: AppView,
    m: Seq<MsgView>,
    stamp: Seq<char>,
    now: u64,
    tools: ToolsView,
)
    requires
        a.log.len() <= 3000,
    ensures
        a.handles_all(m, stamp, now, tools).0.log.len() <= 3000,
    decreases m.len(),
{
    if m.len() > 0 {
        let b = a.handles_all(m.drop_last(), stamp, now, tools).0;
        lemma_messages_keep_the_log_bounded(a, m.drop_last(), stamp, now, tools);
        lemma_message_keeps_the_log_bounded(b, m.last(), stamp, now, tools);
    }
}

/// Nothing that the workers report makes the log grow past 3000 events.
pub proof fn messages_keep_the_log_bounded(
    a: AppView,
    m: Seq<MsgView>,
    stamp: Seq<char>,
    now: u64,
    tools: ToolsView,
)
    requires
        a.log.len() <= 3000,
    ensures
        a.polls(m, stamp, now, tools).0.log.len() <= 3000,
{
    lemma_messages_keep_the_log_bounded(
        AppView { backend: a.backend.settled_all(m), ..a },
        m,
        stamp,
        now,
        tools,
    );
}

/// A failed check keeps the updates and the packages as they were, and says why it failed.
pub proof fn failed_check_changes_no_updates(
    a: AppView,
    e: Seq<char>,
    stamp: Seq<char>,
    now: u64,
)
    ensures
        ({
            let b = a.has_check(Err(e), stamp, now);
            b.updates == a.updates && b.packages == a.packages && b.check_error == Some(e)
                && b.checked_at == Some(now)
        }),
{
}

/// After a good check just the packages that it names are outdated.
pub proof fn good_check_marks_the_named_packages(
    a: AppView,
    u: Seq<UpgradeView>,
    stamp: Seq<char>,
    now: u64,
    i: int,
)
    requires
        0 <= i < a.packages.len(),
    ensures
        ({
            let b = a.has_check(Ok(u), stamp, now);
            &&& b.packages.len() == a.packages.len()
            &&& b.packages[i].name == a.packages[i].name
            &&& b.packages[i].outdated() <==> exists|j: int|
                0 <= j < u.len() && (#[trigger] u[j]).name == a.packages[i].name
        }),
{
    crate::backend::merged_package_is_outdated_when_named(a.packages[i], u);
}

proof fn lemma_requests_are_noted(a: AppView, r: Seq<RequestView>)
    ensures
        a.notes_requests(r) == (AppView { start: a.notes_requests(r).start, ..a }),
        (forall|i: int| 0 <= i < r.len() ==> (#[trigger] r[i]) == RequestView::Show)
            ==> a.notes_requests(r) == a,
    decreases r.len(),
{
    if r.len() > 0 {
        lemma_requests_are_noted(a, r.drop_last());
        if forall|i: int| 0 <= i < r.len() ==> (#[trigger] r[i]) == RequestView::Show {
            assert(r[r.len() - 1] == RequestView::Show);
            assert forall|i: int| 0 <= i < r.drop_last().len() implies (
            #[trigger] r.drop_last()[i]) == RequestView::Show by {
                assert(r[i] == RequestView::Show);
            }
        }
    }
}

/// The requests of later launches, once the inventory is in, never interrupt a running command or
/// an open dialog: both stay as they are.
pub proof fn requests_do_not_interrupt(a: AppView, r: Seq<RequestView>, tools: ToolsView)
    requires
        a.packages.len() > 0,
        a.dialog is Some || a.backend.running is Some,
    ensures
        a.poll_instance(r, tools).0.dialog == a.dialog,
        a.poll_instance(r, tools).0.backend == a.backend,
{
    lemma_requests_are_noted(a, r);
}

/// Requests that only ask to show the window change nothing in the state.
pub proof fn show_requests_change_nothing(a: AppView, r: Seq<RequestView>, tools: ToolsView)
    requires
        a.start.select is None,
        !a.start.upgrade,
        r.len() > 0,
        forall|i: int| 0 <= i < r.len() ==> (#[trigger] r[i]) == RequestView::Show,
    ensures
        a.poll_instance(r, tools) == (a, seq![EffectView::FocusWindow]),
{
    lemma_requests_are_noted(a, r);
}

// ------------------------------------------------------------------ search

proof fn lemma_package_at(pkgs: Seq<PackageView>, name: Seq<char>)
    ensures
        package_at(pkgs, name) <= pkgs.len(),
        package_at(pkgs, name) < pkgs.len() ==> pkgs[package_at(pkgs, name) as int].name == name,
        forall|i: int| 0 <= i < package_at(pkgs, name) ==> (#[trigger] pkgs[i]).name != name,
    decreases pkgs.len(),
{
    if pkgs.len() > 0 && pkgs[0].name != name {
        lemma_package_at(pkgs.drop_first(), name);
        assert forall|i: int| 0 <= i < package_at(pkgs, name) implies (#[trigger] pkgs[i]).name
            != name by {
            if i > 0 {
                assert(pkgs.drop_first()[i - 1] == pkgs[i]);
            }
        }
    }
}

/// Each name stands once among the search results.
pub proof fn search_results_are_unique(h: Seq<HitView>, inventory: Seq<PackageView>)
    ensures
        forall|i: int, j: int|
            0 <= i < j < hit_packages(h, inventory).len() ==> (
            #[trigger] hit_packages(h, inventory)[i]).name != (
            #[trigger] hit_packages(h, inventory)[j]).name,
    decreases h.len(),
{
    if h.len() > 0 {
        let before = hit_packages(h.drop_last(), inventory);
        let name = h.last().name;
        search_results_are_unique(h.drop_last(), inventory);
        lemma_package_at(before, name);
        lemma_package_at(inventory, name);
    }
}

/// A result that is in the inventory is shown with the inventory's record; any other is not
/// installed.
pub proof fn installed_results_carry_their_record(
    h: Seq<HitView>,
    inventory: Seq<PackageView>,
    i: int,
)
    requires
        0 <= i < hit_packages(h, inventory).len(),
    ensures
        ({
            let p = hit_packages(h, inventory)[i];
            if package_at(inventory, p.name) < inventory.len() {
                p == inventory[package_at(inventory, p.name) as int]
            } else {
                !p.installed
            }
        }),
    decreases h.len(),
{
    if h.len() > 0 {
        let before = hit_packages(h.drop_last(), inventory);
        lemma_package_at(inventory, h.last().name);
        if i < before.len() {
            installed_results_carry_their_record(h.drop_last(), inventory, i);
            assert(hit_packages(h, inventory)[i] == before[i]);
        }
    }
}

/// Every hit is found among the results by its name.
pub proof fn every_hit_is_a_result(h: Seq<HitView>, inventory: Seq<PackageView>, i: int)
    requires
        0 <= i < h.len(),
    ensures
        exists|k: int|
            0 <= k < hit_packages(h, inventory).len() && (
            #[trigger] hit_packages(h, inventory)[k]).name == h[i].name,
    decreases h.len(),
{
    let before = hit_packages(h.drop_last(), inventory);
    let all = hit_packages(h, inventory);
    let name = h.last().name;
    lemma_package_at(before, name);
    lemma_package_at(inventory, name);
    if i < h.len() - 1 {
        every_hit_is_a_result(h.drop_last(), inventory, i);
        let k = choose|k: int| 0 <= k < before.len() && (#[trigger] before[k]).name == h[i].name;
        assert(all[k] == before[k]);
    } else {
        if package_at(before, name) < before.len() {
            assert(all[package_at(before, name) as int].name == name);
        } else {
            assert(all[before.len() as int].name == name);
        }
    }
}

/// Details never change which results there are, whether they are installed, and what their
/// newest version is.
pub proof fn details_keep_the_results(results: Seq<PackageView>, d: PackageView, i: int)
    requires
        0 <= i < results.len(),
    ensures
        with_details(results, d).len() == results.len(),
        with_details(results, d)[i].name == results[i].name,
        with_details(results, d)[i].installed == results[i].installed,
        with_details(results, d)[i].latest == results[i].latest,
{
    lemma_details_at(results, d);
}

proof fn lemma_details_at(results: Seq<PackageView>, d: PackageView)
    ensures
        crate::app::details_at(results, d) < results.len() ==> results[crate::app::details_at(
            results,
            d,
        ) as int].name == d.name,
    decreases results.len(),
{
    if results.len() > 0 && !(results[0].name == d.name && (results[0].repo == d.repo
        || results[0].repo.len() == 0)) {
        lemma_details_at(results.drop_first(), d);
    }
}

} // verus!
