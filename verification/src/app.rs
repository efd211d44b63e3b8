//! FUIDE Arch-Update — the state of the package console and everything that changes it.
//!
//! [`PkgApp`] holds the inventory, the listing, the dialogs and the event log. What the user does
//! comes in as an [`Action`], what the workers report as a [`Msg`]; what is to be done outside the
//! state goes out as an [`Effect`]. Times are given as the texts that the log shows.
//!
//! Commands that change the system run non-interactively through polkit (`pkexec`, the desktop's
//! own password dialog) and stream their output into the log.

use crate::backend::{
    apply_updates, messages, one_more, updated, Backend, BackendView, Job, JobView, Msg, MsgView,
    SystemInfo, SystemView,
};
use crate::instance::{requests, Request, RequestView};
use crate::num::{decimal, to_decimal};
use crate::order::{arrange, arranged, indices, key_views, Key, KeyView};
use crate::pacman::{
    helper_sudo, helper_sudo_args, hits, packages, upgrades, HitView, Package, PackageView, Reason,
    SearchHit, Upgrade, UpgradeView,
};
use crate::state::{CheckState, StateView};
use crate::text::{
    chars_of, contains, copies, copy, copy_opt, debug_text, includes, join, joined, lines, lines_of,
    lowercase, opt, push_copy, same_str, slices, starts_with, string_of, texts, to_debug,
    to_lowercase, to_uppercase, trim, trimmed, uppercase,
};
use crate::utf8::{from_utf8_lossy, lossy};
use vstd::prelude::*;
use vstd::utf8::encode_utf8;
use vstd::view::View as _;

verus! {

/// The application's id, for its settings.
pub const APP_ID: &'static str = "arch-update";

/// The application's name.
pub const APP_NAME: &'static str = "FUIDE Arch-Update";

/// Command-line start-up requests (from the tray applet).
#[derive(Debug, PartialEq, Eq)]
pub struct StartUp {
    pub upgrade: bool,
    pub select: Option<String>,
}

/// The model of a [`StartUp`].
#[verifier::ext_equal]
pub struct StartView {
    pub upgrade: bool,
    pub select: Option<Seq<char>>,
}

impl vstd::view::View for StartUp {
    type V = StartView;

    open spec fn view(&self) -> StartView {
        StartView { upgrade: self.upgrade, select: opt(self.select) }
    }
}

impl Clone for StartUp {
    fn clone(&self) -> (r: Self)
        ensures
            r@ == self@,
    {
        StartUp { upgrade: self.upgrade, select: copy_opt(&self.select) }
    }
}

impl Default for StartUp {
    fn default() -> (r: Self)
        ensures
            r@ == (StartView { upgrade: false, select: None }),
    {
        StartUp { upgrade: false, select: None }
    }
}

/// The start-up requests among some command-line arguments: `--upgrade`, and `--select` with the
/// argument after it. The last of each counts; other arguments are passed over.
pub open spec fn start_of(args: Seq<Seq<char>>, s: StartView) -> StartView
    decreases args.len(),
{
    if args.len() == 0 {
        s
    } else if args[0] == "--upgrade"@ {
        start_of(args.drop_first(), StartView { upgrade: true, ..s })
    } else if args[0] == "--select"@ {
        if args.len() > 1 {
            start_of(args.skip(2), StartView { select: Some(args[1]), ..s })
        } else {
            StartView { select: None, ..s }
        }
    } else {
        start_of(args.drop_first(), s)
    }
}

impl StartUp {
    /// The start-up requests among the command-line arguments (without the program's name).
    pub fn from_args(args: &[String]) -> (r: Self)
        ensures
            r@ == start_of(texts(args@), StartView { upgrade: false, select: None }),
    {
        let mut s = StartUp::default();
        let ghost first = s@;
        let ghost all = texts(args@);
        let mut i: usize = 0;
        assert(all.skip(0) =~= all);
        while i < args.len()
            invariant
                i <= args.len(),
                all == texts(args@),
                start_of(all, first) == start_of(all.skip(i as int), s@),
            decreases args.len() - i,
        {
            let ghost rest = all.skip(i as int);
            assert(rest[0] == args@[i as int]@);
            assert(rest.drop_first() =~= all.skip(i + 1));
            if same_str(args[i].as_str(), "--upgrade") {
                s.upgrade = true;
            } else if same_str(args[i].as_str(), "--select") {
                if i + 1 < args.len() {
                    assert(rest[1] == args@[i + 1]@);
                    assert(rest.skip(2) =~= all.skip(i + 2));
                    s.select = Some(args[i + 1].clone());
                    i += 1;
                } else {
                    s.select = None;
                }
            }
            i += 1;
        }
        s
    }
}

/// The six lists of packages.
#[derive(Clone, Copy, Debug, PartialEq, Eq, Structural)]
pub enum View {
    Installed,
    Explicit,
    Updates,
    Foreign,
    Orphans,
    Search,
}

impl View {
    /// All views, in the order in which they are offered.
    pub const ALL: [View; 6] = [
        View::Installed,
        View::Explicit,
        View::Updates,
        View::Foreign,
        View::Orphans,
        View::Search,
    ];

    /// The name under which a view is offered.
    pub open spec fn name(self) -> Seq<char> {
        match self {
            View::Installed => "Installed"@,
            View::Explicit => "Explicit"@,
            View::Updates => "Updates"@,
            View::Foreign => "AUR"@,
            View::Orphans => "Orphans"@,
            View::Search => "Search"@,
        }
    }

    /// The name under which a view is offered.
    pub fn label(self) -> (r: &'static str)
        ensures
            r@ == self.name(),
    {
        match self {
            View::Installed => "Installed",
            View::Explicit => "Explicit",
            View::Updates => "Updates",
            View::Foreign => "AUR",
            View::Orphans => "Orphans",
            View::Search => "Search",
        }
    }

    /// The view at place `n`; the last one for any place after it.
    pub open spec fn nth(n: int) -> View {
        if n == 0 {
            View::Installed
        } else if n == 1 {
            View::Explicit
        } else if n == 2 {
            View::Updates
        } else if n == 3 {
            View::Foreign
        } else if n == 4 {
            View::Orphans
        } else {
            View::Search
        }
    }

    /// The package belongs to the view.
    pub open spec fn lists(self, p: PackageView) -> bool {
        match self {
            View::Installed | View::Search => true,
            View::Explicit => p.reason == Reason::Explicit,
            View::Updates => p.outdated(),
            View::Foreign => p.is_foreign(),
            View::Orphans => p.orphan,
        }
    }

    /// Whether the package belongs to the view.
    pub fn shows(self, p: &Package) -> (r: bool)
        ensures
            r == self.lists(p@),
    {
        match self {
            View::Installed | View::Search => true,
            View::Explicit => p.reason == Reason::Explicit,
            View::Updates => p.outdated(),
            View::Foreign => p.is_foreign(),
            View::Orphans => p.orphan,
        }
    }
}

/// How much an event in the log matters.
#[derive(Clone, Copy, Debug, PartialEq, Eq, Structural)]
pub enum Level {
    Info,
    Good,
    Warn,
    Danger,
}

/// A line of the event log.
#[derive(Debug, PartialEq, Eq)]
pub struct Event {
    pub time: String,
    pub text: String,
    pub level: Level,
}

/// The model of an [`Event`].
#[verifier::ext_equal]
pub struct EventView {
    pub time: Seq<char>,
    pub text: Seq<char>,
    pub level: Level,
}

impl vstd::view::View for Event {
    type V = EventView;

    open spec fn view(&self) -> EventView {
        EventView { time: self.time@, text: self.text@, level: self.level }
    }
}

/// The views of some events.
pub open spec fn events(v: Seq<Event>) -> Seq<EventView> {
    v.map_values(|e: Event| e@)
}

/// The state of a package as the listing shows it.
#[derive(Clone, Copy, Debug, PartialEq, Eq, Structural, PartialOrd, Ord)]
pub enum Status {
    Outdated,
    Orphan,
    Explicit,
    Dependency,
    Available,
}

impl Status {
    /// The word for it.
    pub open spec fn word(self) -> Seq<char> {
        match self {
            Status::Outdated => "OUTDATED"@,
            Status::Orphan => "ORPHAN"@,
            Status::Explicit => "EXPLICIT"@,
            Status::Dependency => "DEP"@,
            Status::Available => "AVAILABLE"@,
        }
    }

    /// The word for it.
    pub fn tag(self) -> (r: &'static str)
        ensures
            r@ == self.word(),
    {
        match self {
            Status::Outdated => "OUTDATED",
            Status::Orphan => "ORPHAN",
            Status::Explicit => "EXPLICIT",
            Status::Dependency => "DEP",
            Status::Available => "AVAILABLE",
        }
    }

    /// Where it stands when rows are ordered by status.
    pub open spec fn rank(self) -> int {
        match self {
            Status::Outdated => 0,
            Status::Orphan => 1,
            Status::Explicit => 2,
            Status::Dependency => 3,
            Status::Available => 4,
        }
    }
}

/// The status of a package: what is not installed is available; of what is, a pending update
/// counts before the orphan mark, and that before the install reason.
pub open spec fn status(p: PackageView) -> Status {
    if !p.installed {
        Status::Available
    } else if p.outdated() {
        Status::Outdated
    } else if p.orphan {
        Status::Orphan
    } else if p.reason == Reason::Dependency {
        Status::Dependency
    } else {
        Status::Explicit
    }
}

/// The status of a package.
pub fn status_of(p: &Package) -> (r: Status)
    ensures
        r == status(p@),
{
    if !p.installed {
        Status::Available
    } else if p.outdated() {
        Status::Outdated
    } else if p.orphan {
        Status::Orphan
    } else if p.reason == Reason::Dependency {
        Status::Dependency
    } else {
        Status::Explicit
    }
}

/// A confirmation before running a mutating command.
#[derive(Debug, PartialEq, Eq)]
pub struct Confirm {
    pub title: String,
    pub line: String,
    pub note: String,
    pub verb: String,
    pub danger: bool,
    pub job: Job,
}

/// The model of a [`Confirm`].
#[verifier::ext_equal]
pub struct ConfirmView {
    pub title: Seq<char>,
    pub line: Seq<char>,
    pub note: Seq<char>,
    pub verb: Seq<char>,
    pub danger: bool,
    pub job: JobView,
}

impl vstd::view::View for Confirm {
    type V = ConfirmView;

    open spec fn view(&self) -> ConfirmView {
        ConfirmView {
            title: self.title@,
            line: self.line@,
            note: self.note@,
            verb: self.verb@,
            danger: self.danger,
            job: self.job@,
        }
    }
}

/// What a dialog shows.
#[derive(Debug, PartialEq, Eq)]
pub enum DialogState {
    Confirm(Confirm),
    /// Big `ERROR` / `SUCCESS` card; details live in the event log.
    Notice { success: bool, line: String },
}

/// The model of a [`DialogState`].
#[verifier::ext_equal]
pub enum DialogStateView {
    Confirm(ConfirmView),
    Notice { success: bool, line: Seq<char> },
}

impl vstd::view::View for DialogState {
    type V = DialogStateView;

    open spec fn view(&self) -> DialogStateView {
        match self {
            DialogState::Confirm(c) => DialogStateView::Confirm(c@),
            DialogState::Notice { success, line } => DialogStateView::Notice {
                success: *success,
                line: line@,
            },
        }
    }
}

/// The dialog on the screen.
#[derive(Debug, PartialEq, Eq)]
pub struct OpenDialog {
    pub state: DialogState,
    pub closing: bool,
}

/// The model of an [`OpenDialog`].
#[verifier::ext_equal]
pub struct DialogView {
    pub state: DialogStateView,
    pub closing: bool,
}

impl vstd::view::View for OpenDialog {
    type V = DialogView;

    open spec fn view(&self) -> DialogView {
        DialogView { state: self.state@, closing: self.closing }
    }
}

/// The view of a dialog that may be absent.
pub open spec fn dialog_view(d: Option<OpenDialog>) -> Option<DialogView> {
    match d {
        Some(d) => Some(d@),
        None => None,
    }
}

/// What the user asks for.
#[derive(Debug, PartialEq, Eq)]
pub enum Action {
    SetView(View),
    Select(Option<usize>),
    Refresh,
    Check,
    Search,
    UpgradeAll,
    Install(String, bool),
    Remove(String),
    /// Rebuild / reinstall an AUR package through the helper (its upgrade path).
    UpgradeAur(String),
    MarkExplicit(String, bool),
    RemoveOrphans,
    CleanCache,
    Homepage(String),
    /// Open the package's PKGBUILD on aur.archlinux.org (review before building).
    Pkgbuild(String),
    CopyName(String),
    Run(Job),
    CloseDialog,
    ConfirmDialog,
    OpenSettings,
}

/// The model of an [`Action`].
#[verifier::ext_equal]
pub enum ActionView {
    SetView(View),
    Select(Option<usize>),
    Refresh,
    Check,
    Search,
    UpgradeAll,
    Install(Seq<char>, bool),
    Remove(Seq<char>),
    UpgradeAur(Seq<char>),
    MarkExplicit(Seq<char>, bool),
    RemoveOrphans,
    CleanCache,
    Homepage(Seq<char>),
    Pkgbuild(Seq<char>),
    CopyName(Seq<char>),
    Run(JobView),
    CloseDialog,
    ConfirmDialog,
    OpenSettings,
}

impl vstd::view::View for Action {
    type V = ActionView;

    open spec fn view(&self) -> ActionView {
        match self {
            Action::SetView(v) => ActionView::SetView(*v),
            Action::Select(s) => ActionView::Select(*s),
            Action::Refresh => ActionView::Refresh,
            Action::Check => ActionView::Check,
            Action::Search => ActionView::Search,
            Action::UpgradeAll => ActionView::UpgradeAll,
            Action::Install(n, aur) => ActionView::Install(n@, *aur),
            Action::Remove(n) => ActionView::Remove(n@),
            Action::UpgradeAur(n) => ActionView::UpgradeAur(n@),
            Action::MarkExplicit(n, e) => ActionView::MarkExplicit(n@, *e),
            Action::RemoveOrphans => ActionView::RemoveOrphans,
            Action::CleanCache => ActionView::CleanCache,
            Action::Homepage(u) => ActionView::Homepage(u@),
            Action::Pkgbuild(n) => ActionView::Pkgbuild(n@),
            Action::CopyName(n) => ActionView::CopyName(n@),
            Action::Run(j) => ActionView::Run(j@),
            Action::CloseDialog => ActionView::CloseDialog,
            Action::ConfirmDialog => ActionView::ConfirmDialog,
            Action::OpenSettings => ActionView::OpenSettings,
        }
    }
}

/// The views of some actions.
pub open spec fn actions(v: Seq<Action>) -> Seq<ActionView> {
    v.map_values(|a: Action| a@)
}

/// What is to be done outside the state.
#[derive(Debug, PartialEq, Eq)]
pub enum Effect {
    /// Read the installed packages.
    FetchInventory,
    /// Probe the machine.
    FetchSystem,
    /// Check for updates and write the shared state.
    Check,
    /// Search the repos and the AUR.
    Search(String),
    /// Look up packages that are not installed.
    Details { repo: Vec<String>, aur: Vec<String> },
    /// Start the command and stream its output.
    Spawn(Job),
    /// Open the page in the browser.
    OpenUrl(String),
    /// Put the text on the clipboard.
    CopyText(String),
    /// Show the settings window.
    OpenSettings,
    /// Bring the window to the front.
    FocusWindow,
}

/// The model of an [`Effect`].
#[verifier::ext_equal]
pub enum EffectView {
    FetchInventory,
    FetchSystem,
    Check,
    Search(Seq<char>),
    Details { repo: Seq<Seq<char>>, aur: Seq<Seq<char>> },
    Spawn(JobView),
    OpenUrl(Seq<char>),
    CopyText(Seq<char>),
    OpenSettings,
    FocusWindow,
}

impl vstd::view::View for Effect {
    type V = EffectView;

    open spec fn view(&self) -> EffectView {
        match self {
            Effect::FetchInventory => EffectView::FetchInventory,
            Effect::FetchSystem => EffectView::FetchSystem,
            Effect::Check => EffectView::Check,
            Effect::Search(q) => EffectView::Search(q@),
            Effect::Details { repo, aur } => EffectView::Details {
                repo: texts(repo@),
                aur: texts(aur@),
            },
            Effect::Spawn(j) => EffectView::Spawn(j@),
            Effect::OpenUrl(u) => EffectView::OpenUrl(u@),
            Effect::CopyText(t) => EffectView::CopyText(t@),
            Effect::OpenSettings => EffectView::OpenSettings,
            Effect::FocusWindow => EffectView::FocusWindow,
        }
    }
}

/// The views of some effects.
pub open spec fn effects(v: Seq<Effect>) -> Seq<EffectView> {
    v.map_values(|e: Effect| e@)
}

/// The programs that commands are made of.
#[derive(Debug, PartialEq, Eq)]
pub struct Tools {
    pub pacman: String,
    pub paccache: String,
    pub helper: Option<String>,
    /// What gives root: `pkexec`.
    pub privilege: Option<String>,
}

/// The model of [`Tools`].
#[verifier::ext_equal]
pub struct ToolsView {
    pub pacman: Seq<char>,
    pub paccache: Seq<char>,
    pub helper: Option<Seq<char>>,
    pub privilege: Option<Seq<char>>,
}

impl vstd::view::View for Tools {
    type V = ToolsView;

    open spec fn view(&self) -> ToolsView {
        ToolsView {
            pacman: self.pacman@,
            paccache: self.paccache@,
            helper: opt(self.helper),
            privilege: opt(self.privilege),
        }
    }
}

/// The listing's selection and order.
#[derive(Clone, Copy, Debug, PartialEq, Eq, Structural)]
pub struct TableState {
    /// The selected row.
    pub selected: Option<usize>,
    pub sort_col: usize,
    pub sort_desc: bool,
    pub scroll_to_selected: bool,
}

impl Default for TableState {
    fn default() -> (r: Self)
        ensures
            r == (TableState {
                selected: None,
                sort_col: 0,
                sort_desc: false,
                scroll_to_selected: false,
            }),
    {
        TableState { selected: None, sort_col: 0, sort_desc: false, scroll_to_selected: false }
    }
}

/// The state of the package console.
#[derive(Debug)]
pub struct PkgApp {
    pub backend: Backend,
    pub packages: Vec<Package>,
    pub updates: Vec<Upgrade>,
    pub checked_at: Option<u64>,
    pub check_error: Option<String>,
    pub search_results: Vec<Package>,
    pub search_query: String,
    pub system: SystemInfo,
    pub view: View,
    /// The rows of the listing: indices into [`PkgApp::source`].
    pub rows: Vec<usize>,
    pub table: TableState,
    /// The rows have to be rebuilt.
    pub dirty: bool,
    pub filter: String,
    pub log: Vec<Event>,
    pub dialog: Option<OpenDialog>,
    /// Notices that wait for the dialog to be free: whether of success, and the line.
    pub notice_queue: Vec<(bool, String)>,
    /// How long the last inventory took, in ms; `None` before the first.
    pub fetch_ms: Option<String>,
    /// Names whose `-Si` details were requested (search results).
    pub details_requested: Vec<String>,
    pub start: StartUp,
    /// The log panel is open.
    pub log_open: bool,
    /// The time of the start as the log shows it, without the brackets.
    pub start_stamp: String,
}

/// The model of the package console.
#[verifier::ext_equal]
pub struct AppView {
    pub backend: BackendView,
    pub packages: Seq<PackageView>,
    pub updates: Seq<UpgradeView>,
    pub checked_at: Option<u64>,
    pub check_error: Option<Seq<char>>,
    pub search_results: Seq<PackageView>,
    pub search_query: Seq<char>,
    pub system: SystemView,
    pub view: View,
    pub rows: Seq<int>,
    pub table: TableState,
    pub dirty: bool,
    pub filter: Seq<char>,
    pub log: Seq<EventView>,
    pub dialog: Option<DialogView>,
    pub notices: Seq<(bool, Seq<char>)>,
    pub fetch_ms: Option<Seq<char>>,
    pub details_requested: Seq<Seq<char>>,
    pub start: StartView,
    pub log_open: bool,
    pub start_stamp: Seq<char>,
}

/// The views of some notices.
pub open spec fn notices(v: Seq<(bool, String)>) -> Seq<(bool, Seq<char>)> {
    v.map_values(|n: (bool, String)| (n.0, n.1@))
}

impl vstd::view::View for PkgApp {
    type V = AppView;

    open spec fn view(&self) -> AppView {
        AppView {
            backend: self.backend@,
            packages: packages(self.packages@),
            updates: upgrades(self.updates@),
            checked_at: self.checked_at,
            check_error: opt(self.check_error),
            search_results: packages(self.search_results@),
            search_query: self.search_query@,
            system: self.system@,
            view: self.view,
            rows: indices(self.rows@),
            table: self.table,
            dirty: self.dirty,
            filter: self.filter@,
            log: events(self.log@),
            dialog: dialog_view(self.dialog),
            notices: notices(self.notice_queue@),
            fetch_ms: opt(self.fetch_ms),
            details_requested: texts(self.details_requested@),
            start: self.start@,
            log_open: self.log_open,
            start_stamp: self.start_stamp@,
        }
    }
}

// ------------------------------------------------------------------ the log and the notices

/// A log with one more event; when it grows past 3000, the oldest 1000 go.
pub open spec fn logged(log: Seq<EventView>, e: EventView) -> Seq<EventView> {
    let l = log.push(e);
    if l.len() > 3000 {
        l.skip(1000)
    } else {
        l
    }
}

impl AppView {
    /// One more event in the log.
    pub open spec fn logs(self, stamp: Seq<char>, text: Seq<char>, level: Level) -> AppView {
        AppView {
            log: logged(self.log, EventView { time: "["@ + stamp + "]"@, text, level }),
            ..self
        }
    }

    /// A failure: in the log, and as a notice.
    pub open spec fn fails(self, stamp: Seq<char>, line: Seq<char>, detail: Seq<char>) -> AppView {
        let a = self.logs(stamp, line + " :: failed :: "@ + detail, Level::Danger);
        AppView { notices: a.notices.push((false, line)), ..a }
    }

    /// A success: in the log, and as a notice.
    pub open spec fn succeeds(
        self,
        stamp: Seq<char>,
        line: Seq<char>,
        detail: Seq<char>,
    ) -> AppView {
        let a = self.logs(stamp, line + " :: "@ + detail, Level::Good);
        AppView { notices: a.notices.push((true, line)), ..a }
    }

    /// The packages that the listing is made of.
    pub open spec fn source(self) -> Seq<PackageView> {
        if self.view == View::Search {
            self.search_results
        } else {
            self.packages
        }
    }

    /// The package of the selected row.
    pub open spec fn selected_package(self) -> Option<PackageView> {
        match self.table.selected {
            Some(r) => if r < self.rows.len() && 0 <= self.rows[r as int] < self.source().len() {
                Some(self.source()[self.rows[r as int]])
            } else {
                None
            },
            None => None,
        }
    }

    /// The number of packages in a view.
    pub open spec fn count(self, v: View) -> nat {
        match v {
            View::Installed => self.packages.len(),
            View::Updates => self.updates.len(),
            View::Search => self.search_results.len(),
            _ => tally(self.packages, v),
        }
    }
}

/// How many of some packages belong to a view.
pub open spec fn tally(pkgs: Seq<PackageView>, v: View) -> nat
    decreases pkgs.len(),
{
    if pkgs.len() == 0 {
        0
    } else {
        tally(pkgs.drop_last(), v) + (if v.lists(pkgs.last()) {
            1nat
        } else {
            0nat
        })
    }
}

/// How many of some packages belong to a view.
pub fn count_listed(pkgs: &Vec<Package>, v: View) -> (r: usize)
    ensures
        r == tally(packages(pkgs@), v),
        r <= pkgs.len(),
{
    let ghost all = packages(pkgs@);
    let mut n: usize = 0;
    let mut i: usize = 0;
    while i < pkgs.len()
        invariant
            i <= pkgs.len(),
            n <= i,
            all == packages(pkgs@),
            n == tally(all.take(i as int), v),
        decreases pkgs.len() - i,
    {
        assert(all.take(i + 1).drop_last() =~= all.take(i as int));
        assert(all.take(i + 1).last() == pkgs@[i as int]@);
        if v.shows(&pkgs[i]) {
            n += 1;
        }
        i += 1;
    }
    assert(all.take(all.len() as int) =~= all);
    n
}

/// How many of some updates are from the AUR.
pub open spec fn aur_updates(u: Seq<UpgradeView>) -> nat
    decreases u.len(),
{
    if u.len() == 0 {
        0
    } else {
        aur_updates(u.drop_last()) + (if u.last().aur {
            1nat
        } else {
            0nat
        })
    }
}

/// How many of some updates are from the AUR.
pub fn count_aur(u: &Vec<Upgrade>) -> (r: usize)
    ensures
        r == aur_updates(upgrades(u@)),
        r <= u.len(),
{
    let ghost all = upgrades(u@);
    let mut n: usize = 0;
    let mut i: usize = 0;
    while i < u.len()
        invariant
            i <= u.len(),
            n <= i,
            all == upgrades(u@),
            n == aur_updates(all.take(i as int)),
        decreases u.len() - i,
    {
        assert(all.take(i + 1).drop_last() =~= all.take(i as int));
        assert(all.take(i + 1).last() == u@[i as int]@);
        if u[i].aur {
            n += 1;
        }
        i += 1;
    }
    assert(all.take(all.len() as int) =~= all);
    n
}

impl PkgApp {
    /// One more event in the log.
    pub fn push_log(&mut self, stamp: &str, text: String, level: Level)
        ensures
            final(self)@ == old(self)@.logs(stamp@, text@, level),
    {
        let mut time = copy("[");
        time.push_str(stamp);
        time.push_str("]");
        let e = Event { time, text, level };
        let ghost ev = e@;
        let ghost before = events(self.log@);
        self.log.push(e);
        assert(events(self.log@) =~= before.push(ev));
        if self.log.len() > 3000 {
            let ghost whole = self.log@;
            let kept = self.log.split_off(1000);
            self.log = kept;
            assert(events(self.log@) =~= before.push(ev).skip(1000));
        }
        assert(self@ =~= old(self)@.logs(stamp@, text@, level));
    }

    /// A notice that waits for the dialog to be free.
    fn notify(&mut self, success: bool, line: String)
        ensures
            final(self)@ == (AppView {
                notices: old(self)@.notices.push((success, line@)),
                ..old(self)@
            }),
    {
        let ghost before = notices(self.notice_queue@);
        self.notice_queue.push((success, line));
        assert(notices(self.notice_queue@) =~= before.push((success, line@)));
    }

    /// A failure: in the log, and as a notice.
    pub fn fail(&mut self, stamp: &str, line: String, detail: &str)
        ensures
            final(self)@ == old(self)@.fails(stamp@, line@, detail@),
    {
        let mut text = line.clone();
        text.push_str(" :: failed :: ");
        text.push_str(detail);
        self.push_log(stamp, text, Level::Danger);
        self.notify(false, line);
    }

    /// A success: in the log, and as a notice.
    pub fn succeed(&mut self, stamp: &str, line: String, detail: &str)
        ensures
            final(self)@ == old(self)@.succeeds(stamp@, line@, detail@),
    {
        let mut text = line.clone();
        text.push_str(" :: ");
        text.push_str(detail);
        self.push_log(stamp, text, Level::Good);
        self.notify(true, line);
    }

    /// The packages that the listing is made of.
    pub fn source(&self) -> (r: &[Package])
        ensures
            packages(r@) == self@.source(),
    {
        if self.view == View::Search {
            self.search_results.as_slice()
        } else {
            self.packages.as_slice()
        }
    }

    /// The package of the selected row.
    pub fn selected_package(&self) -> (r: Option<&Package>)
        ensures
            match r {
                Some(p) => self@.selected_package() == Some(p@),
                None => self@.selected_package() is None,
            },
    {
        let src = self.source();
        assert(packages(src@).len() == src@.len());
        match self.table.selected {
            Some(r) => if r < self.rows.len() {
                let i: usize = self.rows[r];
                assert(indices(self.rows@)[r as int] == i);
                if i < src.len() {
                    assert(packages(src@)[i as int] == src@[i as int]@);
                    Some(&src[i])
                } else {
                    None
                }
            } else {
                None
            },
            None => None,
        }
    }

    /// The number of pending updates.
    pub fn outdated_count(&self) -> (r: usize)
        ensures
            r == self@.updates.len(),
    {
        self.updates.len()
    }

    /// The number of packages in a view.
    pub fn count(&self, v: View) -> (r: usize)
        ensures
            r == self@.count(v),
    {
        match v {
            View::Installed => self.packages.len(),
            View::Updates => self.updates.len(),
            View::Search => self.search_results.len(),
            _ => count_listed(&self.packages, v),
        }
    }
}

// ------------------------------------------------------------------ the rows of the listing

/// The number by which column `col` orders a package.
pub open spec fn column_rank(p: PackageView, col: usize) -> int {
    if col == 2 {
        if p.latest is Some {
            1
        } else {
            0
        }
    } else if col == 4 {
        status(p).rank()
    } else if col == 5 {
        p.size_rank as int
    } else {
        0
    }
}

/// The text by which column `col` orders a package.
pub open spec fn column_text(p: PackageView, col: usize) -> Seq<char> {
    if col == 1 {
        p.version
    } else if col == 2 && p.latest is Some {
        p.latest->0
    } else if col == 3 {
        p.repo
    } else {
        Seq::empty()
    }
}

/// What the packages are ordered by: the column, then the name in lower case (`names`).
pub open spec fn row_keys(
    src: Seq<PackageView>,
    col: usize,
    names: Seq<Seq<char>>,
) -> Seq<KeyView> {
    Seq::new(
        src.len(),
        |i: int|
            KeyView {
                rank: column_rank(src[i], col),
                text: column_text(src[i], col),
                name: names[i],
            },
    )
}

/// Which packages are listed: those of the view whose name or description (in lower case) holds
/// the filter.
pub open spec fn row_shown(
    src: Seq<PackageView>,
    view: View,
    filter: Seq<char>,
    names: Seq<Seq<char>>,
    descs: Seq<Seq<char>>,
) -> Seq<bool> {
    Seq::new(
        src.len(),
        |i: int|
            view.lists(src[i]) && (filter.len() == 0 || includes(names[i], filter) || includes(
                descs[i],
                filter,
            )),
    )
}

/// The names of some packages in lower case.
pub open spec fn lower_names(src: Seq<PackageView>) -> Seq<Seq<char>> {
    src.map_values(|p: PackageView| lowercase(p.name))
}

/// The descriptions of some packages in lower case.
pub open spec fn lower_descs(src: Seq<PackageView>) -> Seq<Seq<char>> {
    src.map_values(|p: PackageView| lowercase(p.desc))
}

/// The first place in `rows` that holds `x`, or the number of rows.
pub open spec fn row_of(rows: Seq<int>, x: int) -> nat
    decreases rows.len(),
{
    if rows.len() == 0 || rows[0] == x {
        0
    } else {
        1 + row_of(rows.drop_first(), x)
    }
}

/// The selection after the rows have changed: it stays on the same package, if that is still
/// listed.
pub open spec fn kept_selection(
    selected: Option<usize>,
    old_rows: Seq<int>,
    new_rows: Seq<int>,
) -> Option<usize> {
    match selected {
        Some(r) => if r < old_rows.len() && row_of(new_rows, old_rows[r as int])
            < new_rows.len() {
            Some(row_of(new_rows, old_rows[r as int]) as usize)
        } else {
            None
        },
        None => None,
    }
}

impl AppView {
    /// The rows, given the filter, the names and the descriptions in lower case.
    pub open spec fn rows_for(
        self,
        filter: Seq<char>,
        names: Seq<Seq<char>>,
        descs: Seq<Seq<char>>,
    ) -> Seq<int> {
        arranged(
            row_keys(self.source(), self.table.sort_col, names),
            row_shown(self.source(), self.view, filter, names, descs),
            self.table.sort_desc,
        )
    }

    /// The listing with its rows rebuilt; the selection stays on its package.
    pub open spec fn rebuilt(self) -> AppView {
        let rows = self.rows_for(
            lowercase(self.filter),
            lower_names(self.source()),
            lower_descs(self.source()),
        );
        AppView {
            rows,
            table: TableState {
                selected: kept_selection(self.table.selected, self.rows, rows),
                ..self.table
            },
            dirty: false,
            ..self
        }
    }
}

fn lowered_names(src: &[Package]) -> (r: Vec<String>)
    ensures
        texts(r@) == lower_names(packages(src@)),
{
    let mut out: Vec<String> = Vec::new();
    let mut i: usize = 0;
    while i < src.len()
        invariant
            i <= src.len(),
            out.len() == i,
            forall|j: int| 0 <= j < i ==> (#[trigger] out@[j])@ == lowercase(src@[j]@.name),
        decreases src.len() - i,
    {
        out.push(to_lowercase(src[i].name.as_str()));
        i += 1;
    }
    assert(texts(out@) =~= lower_names(packages(src@)));
    out
}

fn lowered_descs(src: &[Package]) -> (r: Vec<String>)
    ensures
        texts(r@) == lower_descs(packages(src@)),
{
    let mut out: Vec<String> = Vec::new();
    let mut i: usize = 0;
    while i < src.len()
        invariant
            i <= src.len(),
            out.len() == i,
            forall|j: int| 0 <= j < i ==> (#[trigger] out@[j])@ == lowercase(src@[j]@.desc),
        decreases src.len() - i,
    {
        out.push(to_lowercase(src[i].desc.as_str()));
        i += 1;
    }
    assert(texts(out@) =~= lower_descs(packages(src@)));
    out
}

fn status_rank(s: Status) -> (r: u64)
    ensures
        r == s.rank(),
{
    match s {
        Status::Outdated => 0,
        Status::Orphan => 1,
        Status::Explicit => 2,
        Status::Dependency => 3,
        Status::Available => 4,
    }
}

/// What a package is ordered by.
fn row_key(p: &Package, col: usize, name: &str) -> (r: Key)
    ensures
        r@ == (KeyView {
            rank: column_rank(p@, col),
            text: column_text(p@, col),
            name: name@,
        }),
{
    let rank: u64 = if col == 2 {
        if p.latest.is_some() {
            1
        } else {
            0
        }
    } else if col == 4 {
        status_rank(status_of(p))
    } else if col == 5 {
        p.size_rank
    } else {
        0
    };
    let text = if col == 1 {
        chars_of(p.version.as_str())
    } else if col == 2 {
        match &p.latest {
            Some(l) => chars_of(l.as_str()),
            None => Vec::new(),
        }
    } else if col == 3 {
        chars_of(p.repo.as_str())
    } else {
        Vec::new()
    };
    Key { rank, text, name: chars_of(name) }
}

/// The first place in `rows` that holds `x`, or the number of rows.
fn find_row(rows: &Vec<usize>, x: usize) -> (r: usize)
    ensures
        r == row_of(indices(rows@), x as int),
        r <= rows.len(),
{
    let ghost all = indices(rows@);
    let mut i: usize = 0;
    assert(all.skip(0) =~= all);
    while i < rows.len()
        invariant
            i <= rows.len(),
            all == indices(rows@),
            row_of(all, x as int) == i + row_of(all.skip(i as int), x as int),
        decreases rows.len() - i,
    {
        assert(all.skip(i as int)[0] == rows@[i as int]);
        assert(all.skip(i as int).drop_first() =~= all.skip(i + 1));
        if rows[i] == x {
            return i;
        }
        i += 1;
    }
    i
}

impl PkgApp {
    /// The rows, given the filter, the names and the descriptions in lower case.
    pub fn rows_for(&self, filter: &str, names: &Vec<String>, descs: &Vec<String>) -> (r: Vec<usize>)
        requires
            names@.len() == self@.source().len(),
            descs@.len() == self@.source().len(),
        ensures
            indices(r@) == self@.rows_for(filter@, texts(names@), texts(descs@)),
            forall|i: int| 0 <= i < r.len() ==> (#[trigger] r@[i]) < self@.source().len(),
    {
        let src = self.source();
        let col: usize = self.table.sort_col;
        let ghost all = packages(src@);
        assert(all.len() == src@.len());
        let fc = chars_of(filter);
        let mut keys: Vec<Key> = Vec::new();
        let mut shown: Vec<bool> = Vec::new();
        let ghost want_keys = row_keys(all, col, texts(names@));
        let ghost want_shown = row_shown(all, self.view, filter@, texts(names@), texts(descs@));
        let mut i: usize = 0;
        while i < src.len()
            invariant
                i <= src.len(),
                all == packages(src@),
                all.len() == src@.len(),
                names@.len() == all.len(),
                descs@.len() == all.len(),
                fc@ == filter@,
                keys.len() == i,
                shown.len() == i,
                want_keys == row_keys(all, col, texts(names@)),
                want_shown == row_shown(all, self.view, filter@, texts(names@), texts(descs@)),
                forall|j: int| 0 <= j < i ==> (#[trigger] keys@[j])@ == want_keys[j],
                forall|j: int| 0 <= j < i ==> #[trigger] shown@[j] == want_shown[j],
            decreases src.len() - i,
        {
            let p = &src[i];
            assert(all[i as int] == p@);
            assert(texts(names@)[i as int] == names@[i as int]@);
            assert(texts(descs@)[i as int] == descs@[i as int]@);
            keys.push(row_key(p, col, names[i].as_str()));
            let hit = fc.len() == 0 || crate::text::find(
                &chars_of(names[i].as_str()),
                &fc,
            ).is_some() || crate::text::find(&chars_of(descs[i].as_str()), &fc).is_some();
            shown.push(self.view.shows(p) && hit);
            i += 1;
        }
        assert(key_views(keys@) =~= want_keys);
        assert(shown@ =~= want_shown);
        let rows = arrange(&keys, &shown, self.table.sort_desc);
        assert forall|i: int| 0 <= i < rows.len() implies (#[trigger] rows@[i])
            < self@.source().len() by {
            assert(indices(rows@)[i] == rows@[i]);
        }
        rows
    }

    /// The listing with its rows rebuilt; the selection stays on its package.
    pub fn rebuild_rows(&mut self)
        ensures
            final(self)@ == old(self)@.rebuilt(),
            forall|i: int|
                0 <= i < final(self).rows@.len() ==> (#[trigger] final(self).rows@[i]) < old(
                    self,
                )@.source().len(),
    {
        let filter = to_lowercase(self.filter.as_str());
        let names = lowered_names(self.source());
        let descs = lowered_descs(self.source());
        assert(texts(names@).len() == names@.len());
        assert(texts(descs@).len() == descs@.len());
        let rows = self.rows_for(filter.as_str(), &names, &descs);
        let keep: Option<usize> = match self.table.selected {
            Some(r) => if r < self.rows.len() {
                assert(indices(self.rows@)[r as int] == self.rows@[r as int]);
                let k: usize = find_row(&rows, self.rows[r]);
                if k < rows.len() {
                    Some(k)
                } else {
                    None
                }
            } else {
                None
            },
            None => None,
        };
        self.rows = rows;
        self.table.selected = keep;
        self.dirty = false;
        assert(self@ =~= old(self)@.rebuilt());
    }
}

// ------------------------------------------------------------------ commands

/// `pkexec <program> <args>`: polkit asks for the password in the desktop's own dialog.
pub open spec fn root_job(
    tools: ToolsView,
    label: Seq<char>,
    program: Seq<char>,
    args: Seq<Seq<char>>,
) -> Result<JobView, Seq<char>> {
    match tools.privilege {
        Some(su) => Ok(JobView { label, program: su, args: seq![program] + args }),
        None => Err("pkexec not found (install polkit and a polkit authentication agent)"@),
    }
}

/// `pkexec pacman <args>`.
pub open spec fn pacman_job(
    tools: ToolsView,
    label: Seq<char>,
    args: Seq<Seq<char>>,
) -> Result<JobView, Seq<char>> {
    root_job(tools, label, tools.pacman, args)
}

/// `<helper> <args> --noconfirm --sudo pkexec`: the helper runs as the user and asks
/// polkit for root when it needs pacman.
pub open spec fn helper_job(
    tools: ToolsView,
    label: Seq<char>,
    args: Seq<Seq<char>>,
) -> Result<JobView, Seq<char>> {
    match (tools.helper, tools.privilege) {
        (None, _) => Err("no AUR helper installed (yay, paru, pikaur)"@),
        (Some(_), None) => Err(
            "pkexec not found (install polkit and a polkit authentication agent)"@,
        ),
        (Some(h), Some(su)) => Ok(
            JobView { label, program: h, args: args.push("--noconfirm"@) + helper_sudo(h, su) },
        ),
    }
}

/// The view of a command that may not be possible.
pub open spec fn job_result(r: Result<Job, String>) -> Result<JobView, Seq<char>> {
    match r {
        Ok(j) => Ok(j@),
        Err(e) => Err(e@),
    }
}

impl Tools {
    /// `pkexec <program> <args>`.
    pub fn root_job(&self, label: &str, program: &str, args: Vec<String>) -> (r: Result<
        Job,
        String,
    >)
        ensures
            job_result(r) == root_job(self@, label@, program@, texts(args@)),
    {
        match &self.privilege {
            Some(su) => {
                let mut full: Vec<String> = Vec::new();
                full.push(copy(program));
                let mut args = args;
                let ghost a = texts(args@);
                full.append(&mut args);
                assert(texts(full@) =~= seq![program@] + a);
                Ok(Job { label: copy(label), program: su.clone(), args: full })
            },
            None => Err(
                copy("pkexec not found (install polkit and a polkit authentication agent)"),
            ),
        }
    }

    /// `pkexec pacman <args>`.
    pub fn pacman_job(&self, label: &str, args: Vec<String>) -> (r: Result<Job, String>)
        ensures
            job_result(r) == pacman_job(self@, label@, texts(args@)),
    {
        self.root_job(label, self.pacman.as_str(), args)
    }

    /// `<helper> <args> --noconfirm --sudo pkexec`.
    pub fn helper_job(&self, label: &str, args: Vec<String>) -> (r: Result<Job, String>)
        ensures
            job_result(r) == helper_job(self@, label@, texts(args@)),
    {
        let helper = match &self.helper {
            Some(h) => h,
            None => {
                return Err(copy("no AUR helper installed (yay, paru, pikaur)"));
            },
        };
        let su = match &self.privilege {
            Some(su) => su,
            None => {
                return Err(
                    copy("pkexec not found (install polkit and a polkit authentication agent)"),
                );
            },
        };
        let mut full = args;
        push_copy(&mut full, "--noconfirm");
        let mut more = helper_sudo_args(helper.as_str(), su.as_str());
        let ghost a = texts(full@);
        let ghost b = texts(more@);
        full.append(&mut more);
        assert(texts(full@) =~= a + b);
        Ok(Job { label: copy(label), program: helper.clone(), args: full })
    }
}

fn words1(a: &str) -> (r: Vec<String>)
    ensures
        texts(r@) == seq![a@],
{
    let mut v: Vec<String> = Vec::new();
    push_copy(&mut v, a);
    assert(texts(v@) =~= seq![a@]);
    v
}

fn words2(a: &str, b: &str) -> (r: Vec<String>)
    ensures
        texts(r@) == seq![a@, b@],
{
    let mut v = words1(a);
    push_copy(&mut v, b);
    assert(texts(v@) =~= seq![a@, b@]);
    v
}

fn words3(a: &str, b: &str, c: &str) -> (r: Vec<String>)
    ensures
        texts(r@) == seq![a@, b@, c@],
{
    let mut v = words2(a, b);
    push_copy(&mut v, c);
    assert(texts(v@) =~= seq![a@, b@, c@]);
    v
}

/// `<verb> // <name>`.
pub open spec fn labelled(verb: Seq<char>, name: Seq<char>) -> Seq<char> {
    verb + " // "@ + name
}

fn label(verb: &str, name: &str) -> (r: String)
    ensures
        r@ == labelled(verb@, name@),
{
    let mut out = copy(verb);
    out.push_str(" // ");
    out.push_str(name);
    out
}

/// `<verb> // <NAME>`, the name in upper case.
fn loud_label(verb: &str, name: &str) -> (r: String)
    ensures
        r@ == labelled(verb@, uppercase(name@)),
{
    label(verb, to_uppercase(name).as_str())
}

impl AppView {
    /// A dialog that asks before a command is run.
    pub open spec fn asks(self, c: ConfirmView) -> AppView {
        AppView {
            dialog: Some(DialogView { state: DialogStateView::Confirm(c), closing: false }),
            ..self
        }
    }

    /// The command of the full upgrade: by the helper where there is one.
    pub open spec fn upgrade_all_job(self, tools: ToolsView) -> Result<JobView, Seq<char>> {
        if tools.helper is Some {
            helper_job(tools, "upgrade // all"@, seq!["-Syu"@])
        } else {
            pacman_job(
                tools,
                "upgrade // all"@,
                seq!["-Syu"@, "--noconfirm"@, "--ask"@, "4"@],
            )
        }
    }

    /// The full upgrade has been asked for.
    pub open spec fn upgrade_all(self, tools: ToolsView) -> AppView {
        let n = self.updates.len();
        let aur = aur_updates(self.updates);
        match self.upgrade_all_job(tools) {
            Ok(job) => self.asks(
                ConfirmView {
                    title: "Full upgrade"@,
                    line: decimal(n) + " packages ("@ + decimal((n - aur) as nat) + " repo, "@
                        + decimal(aur) + " aur)"@,
                    note: "SYNCS THE DATABASES AND UPGRADES EVERYTHING :: NO QUESTIONS ARE ASKED (--noconfirm)"@,
                    verb: "UPGRADE ALL"@,
                    danger: false,
                    job,
                },
            ),
            Err(e) => (AppView {
                notices: self.notices.push((false, "UPGRADE // ALL"@)),
                ..self
            }).logs(self.start_stamp, "upgrade // all :: failed :: "@ + e, Level::Danger),
        }
    }

    /// A command has been asked to run: it starts, unless another one is still running.
    pub open spec fn run_job(self, job: JobView, stamp: Seq<char>) -> (AppView, Seq<EffectView>) {
        if self.backend.running is None {
            let a = AppView {
                backend: BackendView { running: Some(job), ..self.backend },
                log_open: true,
                ..self
            };
            (
                a.logs(stamp, "$ "@ + job.command_line(), Level::Info),
                seq![EffectView::Spawn(job)],
            )
        } else {
            (
                self.fails(stamp, uppercase(job.label), "another command is still running"@),
                Seq::empty(),
            )
        }
    }

    /// A confirmation, or the failure to make up the command.
    pub open spec fn asks_or_fails(
        self,
        job: Result<JobView, Seq<char>>,
        stamp: Seq<char>,
        failed: Seq<char>,
        title: Seq<char>,
        line: Seq<char>,
        note: Seq<char>,
        verb: Seq<char>,
        danger: bool,
    ) -> AppView {
        match job {
            Ok(job) => self.asks(ConfirmView { title, line, note, verb, danger, job }),
            Err(e) => self.fails(stamp, failed, e),
        }
    }
}

impl PkgApp {
    fn confirm(&mut self, c: Confirm)
        ensures
            final(self)@ == old(self)@.asks(c@),
    {
        self.dialog = Some(OpenDialog { state: DialogState::Confirm(c), closing: false });
    }

    fn confirm_or_fail(
        &mut self,
        job: Result<Job, String>,
        stamp: &str,
        failed: String,
        title: &str,
        line: String,
        note: String,
        verb: &str,
        danger: bool,
    )
        ensures
            final(self)@ == old(self)@.asks_or_fails(
                job_result(job),
                stamp@,
                failed@,
                title@,
                line@,
                note@,
                verb@,
                danger,
            ),
    {
        match job {
            Ok(job) => self.confirm(
                Confirm { title: copy(title), line, note, verb: copy(verb), danger, job },
            ),
            Err(e) => self.fail(stamp, failed, e.as_str()),
        }
    }

    /// The full upgrade has been asked for: its confirmation, or why it is not possible.
    pub fn open_upgrade_all(&mut self, tools: &Tools)
        ensures
            final(self)@ == old(self)@.upgrade_all(tools@),
    {
        let n: usize = self.updates.len();
        let aur: usize = count_aur(&self.updates);
        let job = if tools.helper.is_some() {
            tools.helper_job("upgrade // all", words1("-Syu"))
        } else {
            let mut args = words3("-Syu", "--noconfirm", "--ask");
            push_copy(&mut args, "4");
            assert(texts(args@) =~= seq!["-Syu"@, "--noconfirm"@, "--ask"@, "4"@]);
            tools.pacman_job("upgrade // all", args)
        };
        match job {
            Ok(job) => {
                let mut line = to_decimal(n as u64);
                line.push_str(" packages (");
                line.push_str(to_decimal((n - aur) as u64).as_str());
                line.push_str(" repo, ");
                line.push_str(to_decimal(aur as u64).as_str());
                line.push_str(" aur)");
                self.confirm(
                    Confirm {
                        title: copy("Full upgrade"),
                        line,
                        note: copy(
                            "SYNCS THE DATABASES AND UPGRADES EVERYTHING :: NO QUESTIONS ARE ASKED (--noconfirm)",
                        ),
                        verb: copy("UPGRADE ALL"),
                        danger: false,
                        job,
                    },
                );
            },
            Err(e) => {
                self.notify(false, copy("UPGRADE // ALL"));
                let mut text = copy("upgrade // all :: failed :: ");
                text.push_str(e.as_str());
                let stamp = self.start_stamp.clone();
                self.push_log(stamp.as_str(), text, Level::Danger);
            },
        }
    }

    /// A command has been asked to run: it starts, unless another one is still running.
    pub fn run_job(&mut self, job: Job, stamp: &str) -> (r: Vec<Effect>)
        ensures
            (final(self)@, effects(r@)) == old(self)@.run_job(job@, stamp@),
    {
        let mut fx: Vec<Effect> = Vec::new();
        let line = job.command_line();
        let name = job.label.clone();
        if self.backend.run(job.clone()) {
            let mut text = copy("$ ");
            text.push_str(line.as_str());
            self.log_open = true;
            self.push_log(stamp, text, Level::Info);
            fx.push(Effect::Spawn(job));
        } else {
            self.fail(
                stamp,
                to_uppercase(name.as_str()),
                "another command is still running",
            );
        }
        assert(effects(fx@) =~= old(self)@.run_job(job@, stamp@).1);
        fx
    }
}

// ------------------------------------------------------------------ start-up requests

/// The first row whose package has that name, or the number of rows.
pub open spec fn named_row(rows: Seq<int>, src: Seq<PackageView>, name: Seq<char>) -> nat
    decreases rows.len(),
{
    if rows.len() == 0 || src[rows[0]].name == name {
        0
    } else {
        1 + named_row(rows.drop_first(), src, name)
    }
}

/// The row of a package by its name.
pub open spec fn row_named(rows: Seq<int>, src: Seq<PackageView>, name: Seq<char>) -> Option<usize> {
    if named_row(rows, src, name) < rows.len() {
        Some(named_row(rows, src, name) as usize)
    } else {
        None
    }
}

impl AppView {
    /// The listing in another view, rows rebuilt, with the package of that name selected.
    pub open spec fn shows_named(self, view: View, name: Seq<char>) -> AppView {
        let a = AppView { view, ..self }.rebuilt();
        AppView {
            table: TableState {
                selected: row_named(a.rows, a.packages, name),
                scroll_to_selected: true,
                ..a.table
            },
            ..a
        }
    }

    /// The package of that name selected: among the updates, else among all that are installed.
    pub open spec fn goes_to(self, name: Seq<char>) -> AppView {
        let a = AppView { filter: Seq::empty(), ..self };
        let u = AppView { view: View::Updates, ..a }.rebuilt();
        if row_named(u.rows, u.packages, name) is Some {
            a.shows_named(View::Updates, name)
        } else {
            u.shows_named(View::Installed, name)
        }
    }

    /// Start-up requests that need the inventory: `--select`, `--upgrade`.
    pub open spec fn after_inventory(self, tools: ToolsView) -> AppView {
        let a = match self.start.select {
            Some(name) => AppView {
                start: StartView { select: None, ..self.start },
                ..self
            }.goes_to(name),
            None => self,
        };
        if a.start.upgrade {
            AppView { start: StartView { upgrade: false, ..a.start }, ..a }.upgrade_all(tools)
        } else {
            a
        }
    }
}

fn find_named(rows: &Vec<usize>, pkgs: &Vec<Package>, name: &str) -> (r: Option<usize>)
    requires
        forall|i: int| 0 <= i < rows@.len() ==> (#[trigger] rows@[i]) < pkgs@.len(),
    ensures
        r == row_named(indices(rows@), packages(pkgs@), name@),
{
    let ghost all = indices(rows@);
    let ghost src = packages(pkgs@);
    let mut i: usize = 0;
    assert(all.skip(0) =~= all);
    while i < rows.len()
        invariant
            i <= rows.len(),
            all == indices(rows@),
            src == packages(pkgs@),
            forall|i: int| 0 <= i < rows@.len() ==> (#[trigger] rows@[i]) < pkgs@.len(),
            named_row(all, src, name@) == i + named_row(all.skip(i as int), src, name@),
        decreases rows.len() - i,
    {
        assert(all.skip(i as int)[0] == rows@[i as int]);
        assert(all.skip(i as int).drop_first() =~= all.skip(i + 1));
        let k: usize = rows[i];
        assert(src[k as int] == pkgs@[k as int]@);
        if same_str(pkgs[k].name.as_str(), name) {
            return Some(i);
        }
        i += 1;
    }
    None
}

impl PkgApp {
    fn show_named(&mut self, view: View, name: &str)
        requires
            view != View::Search,
        ensures
            final(self)@ == old(self)@.shows_named(view, name@),
    {
        self.view = view;
        self.rebuild_rows();
        self.table.selected = find_named(&self.rows, &self.packages, name);
        self.table.scroll_to_selected = true;
        assert(self@ =~= old(self)@.shows_named(view, name@));
    }

    fn go_to(&mut self, name: &str)
        ensures
            final(self)@ == old(self)@.goes_to(name@),
    {
        let ghost before = self@;
        self.filter = String::new();
        let ghost a = self@;
        assert(a =~= (AppView { filter: Seq::empty(), ..before }));
        self.view = View::Updates;
        self.rebuild_rows();
        let ghost u = self@;
        let pos = find_named(&self.rows, &self.packages, name);
        if pos.is_none() {
            self.show_named(View::Installed, name);
        } else {
            self.table.selected = pos;
            self.table.scroll_to_selected = true;
            assert(self@ =~= a.shows_named(View::Updates, name@));
        }
    }

    /// Start-up requests that need the inventory: `--select`, `--upgrade`.
    pub fn after_inventory(&mut self, tools: &Tools)
        ensures
            final(self)@ == old(self)@.after_inventory(tools@),
    {
        let select = self.start.select.take();
        if let Some(name) = select {
            assert(self@ =~= (AppView {
                start: StartView { select: None, ..old(self)@.start },
                ..old(self)@
            }));
            self.go_to(name.as_str());
        } else {
            assert(self@ =~= old(self)@);
        }
        if self.start.upgrade {
            let ghost a = self@;
            self.start.upgrade = false;
            assert(self@ =~= (AppView { start: StartView { upgrade: false, ..a.start }, ..a }));
            self.open_upgrade_all(tools);
        }
    }
}

impl AppView {
    /// One request of a later launch noted.
    pub open spec fn notes_request(self, r: RequestView) -> AppView {
        match r {
            RequestView::Show => self,
            RequestView::Upgrade => AppView {
                start: StartView { upgrade: true, ..self.start },
                ..self
            },
            RequestView::Select(name) => AppView {
                start: StartView { select: Some(name), ..self.start },
                ..self
            },
        }
    }

    /// Some requests of later launches noted, in order.
    pub open spec fn notes_requests(self, r: Seq<RequestView>) -> AppView
        decreases r.len(),
    {
        if r.len() == 0 {
            self
        } else {
            self.notes_requests(r.drop_last()).notes_request(r.last())
        }
    }

    /// Requests from later launches: applied like start-up flags (now where the inventory is in,
    /// else when it comes), and the window comes to the front. A full-upgrade request never
    /// interrupts a running command or an open dialog.
    pub open spec fn poll_instance(self, r: Seq<RequestView>, tools: ToolsView) -> (
        AppView,
        Seq<EffectView>,
    ) {
        if r.len() == 0 {
            (self, Seq::empty())
        } else {
            let a = self.notes_requests(r);
            let b = if a.packages.len() == 0 {
                a
            } else if a.start.upgrade && (a.dialog is Some || a.backend.running is Some) {
                AppView { start: StartView { upgrade: false, ..a.start }, ..a }.after_inventory(
                    tools,
                )
            } else {
                a.after_inventory(tools)
            };
            (b, seq![EffectView::FocusWindow])
        }
    }
}

impl PkgApp {
    /// Requests from later launches (the tray's click while the window is open): apply them
    /// like start-up flags and bring the window to the front.
    pub fn poll_instance(&mut self, reqs: &Vec<Request>, tools: &Tools) -> (r: Vec<Effect>)
        ensures
            (final(self)@, effects(r@)) == old(self)@.poll_instance(requests(reqs@), tools@),
    {
        let mut fx: Vec<Effect> = Vec::new();
        if reqs.len() == 0 {
            assert(effects(fx@) =~= Seq::empty());
            return fx;
        }
        let ghost start = self@;
        let ghost all = requests(reqs@);
        let mut i: usize = 0;
        while i < reqs.len()
            invariant
                i <= reqs.len(),
                all == requests(reqs@),
                self@ == start.notes_requests(all.take(i as int)),
            decreases reqs.len() - i,
        {
            let ghost before = self@;
            assert(all.take(i + 1).drop_last() =~= all.take(i as int));
            assert(all.take(i + 1).last() == reqs@[i as int]@);
            match &reqs[i] {
                Request::Show => {},
                Request::Upgrade => {
                    self.start.upgrade = true;
                },
                Request::Select(name) => {
                    self.start.select = Some(name.clone());
                },
            }
            assert(self@ =~= before.notes_request(all[i as int]));
            i += 1;
        }
        assert(all.take(all.len() as int) =~= all);
        if self.packages.len() > 0 {
            if self.start.upgrade && (self.dialog.is_some() || self.backend.running().is_some()) {
                let ghost a = self@;
                self.start.upgrade = false;
                assert(self@ =~= (AppView { start: StartView { upgrade: false, ..a.start }, ..a }));
            }
            self.after_inventory(tools);
        }
        fx.push(Effect::FocusWindow);
        assert(effects(fx@) =~= seq![EffectView::FocusWindow]);
        fx
    }
}

// ------------------------------------------------------------------ search results

/// The index of the package of that name, or the number of packages.
pub open spec fn package_at(pkgs: Seq<PackageView>, name: Seq<char>) -> nat
    decreases pkgs.len(),
{
    if pkgs.len() == 0 || pkgs[0].name == name {
        0
    } else {
        1 + package_at(pkgs.drop_first(), name)
    }
}

/// A hit as a package that is not installed.
pub open spec fn hit_package(h: HitView) -> PackageView {
    PackageView {
        name: h.name,
        version: h.version,
        desc: h.desc,
        repo: h.repo,
        votes: h.votes,
        popularity: h.popularity,
        out_of_date: h.out_of_date,
        ..PackageView::blank()
    }
}

/// The packages that some hits stand for: of several hits with one name the first; an installed
/// package with the inventory's record.
pub open spec fn hit_packages(h: Seq<HitView>, inventory: Seq<PackageView>) -> Seq<PackageView>
    decreases h.len(),
{
    if h.len() == 0 {
        Seq::empty()
    } else {
        let before = hit_packages(h.drop_last(), inventory);
        let name = h.last().name;
        if package_at(before, name) < before.len() {
            before
        } else if package_at(inventory, name) < inventory.len() {
            before.push(inventory[package_at(inventory, name) as int])
        } else {
            before.push(hit_package(h.last()))
        }
    }
}

fn find_package(pkgs: &Vec<Package>, name: &str) -> (r: usize)
    ensures
        r == package_at(packages(pkgs@), name@),
        r <= pkgs.len(),
{
    let ghost all = packages(pkgs@);
    let mut i: usize = 0;
    assert(all.skip(0) =~= all);
    while i < pkgs.len()
        invariant
            i <= pkgs.len(),
            all == packages(pkgs@),
            package_at(all, name@) == i + package_at(all.skip(i as int), name@),
        decreases pkgs.len() - i,
    {
        assert(all.skip(i as int)[0] == pkgs@[i as int]@);
        assert(all.skip(i as int).drop_first() =~= all.skip(i + 1));
        if same_str(pkgs[i].name.as_str(), name) {
            return i;
        }
        i += 1;
    }
    i
}

fn package_of_hit(h: &SearchHit) -> (r: Package)
    ensures
        r@ == hit_package(h@),
{
    let mut p = Package::default();
    p.name = h.name.clone();
    p.version = h.version.clone();
    p.desc = h.desc.clone();
    p.repo = h.repo.clone();
    p.votes = h.votes;
    p.popularity = copy_opt(&h.popularity);
    p.out_of_date = h.out_of_date;
    p
}

/// The index of the first result that details are about: the same name, and the same repo (or
/// none); or the number of results.
pub open spec fn details_at(results: Seq<PackageView>, d: PackageView) -> nat
    decreases results.len(),
{
    if results.len() == 0 || (results[0].name == d.name && (results[0].repo == d.repo
        || results[0].repo.len() == 0)) {
        0
    } else {
        1 + details_at(results.drop_first(), d)
    }
}

/// Search results with the details of one package: they replace its record but for whether it is
/// installed and its newest version.
pub open spec fn with_details(results: Seq<PackageView>, d: PackageView) -> Seq<PackageView> {
    let k = details_at(results, d) as int;
    if k < results.len() {
        results.update(
            k,
            PackageView { installed: results[k].installed, latest: results[k].latest, ..d },
        )
    } else {
        results
    }
}

/// Search results with the details of some packages, in order.
pub open spec fn with_all_details(
    results: Seq<PackageView>,
    d: Seq<PackageView>,
) -> Seq<PackageView>
    decreases d.len(),
{
    if d.len() == 0 {
        results
    } else {
        with_details(with_all_details(results, d.drop_last()), d.last())
    }
}

fn find_details(results: &Vec<Package>, d: &Package) -> (r: usize)
    ensures
        r == details_at(packages(results@), d@),
        r <= results.len(),
{
    let ghost all = packages(results@);
    let mut i: usize = 0;
    assert(all.skip(0) =~= all);
    while i < results.len()
        invariant
            i <= results.len(),
            all == packages(results@),
            details_at(all, d@) == i + details_at(all.skip(i as int), d@),
        decreases results.len() - i,
    {
        assert(all.skip(i as int)[0] == results@[i as int]@);
        assert(all.skip(i as int).drop_first() =~= all.skip(i + 1));
        let p = &results[i];
        if same_str(p.name.as_str(), d.name.as_str()) && (same_str(
            p.repo.as_str(),
            d.repo.as_str(),
        ) || chars_of(p.repo.as_str()).len() == 0) {
            return i;
        }
        i += 1;
    }
    i
}

fn merge_detail(results: &mut Vec<Package>, d: &Package)
    ensures
        packages(final(results)@) == with_details(packages(old(results)@), d@),
{
    let ghost before = packages(results@);
    let k: usize = find_details(results, d);
    if k < results.len() {
        let mut p = d.clone();
        assert(before[k as int] == results@[k as int]@);
        p.installed = results[k].installed;
        p.latest = copy_opt(&results[k].latest);
        let ghost v = p@;
        results.set(k, p);
        assert(packages(results@) =~= before.update(k as int, v));
    }
}

impl PkgApp {
    /// The packages that some hits stand for.
    pub fn hits_to_packages(&self, found: &Vec<SearchHit>) -> (r: Vec<Package>)
        ensures
            packages(r@) == hit_packages(hits(found@), self@.packages),
    {
        let ghost all = hits(found@);
        let ghost inventory = packages(self.packages@);
        let mut out: Vec<Package> = Vec::new();
        let mut i: usize = 0;
        assert(packages(out@) =~= hit_packages(all.take(0), inventory));
        while i < found.len()
            invariant
                i <= found.len(),
                all == hits(found@),
                inventory == packages(self.packages@),
                packages(out@) == hit_packages(all.take(i as int), inventory),
            decreases found.len() - i,
        {
            let h = &found[i];
            assert(all.take(i + 1).drop_last() =~= all.take(i as int));
            assert(all.take(i + 1).last() == h@);
            let ghost before = packages(out@);
            // the same name may come from several repos (cachyos-v3 + extra): keep the first
            if find_package(&out, h.name.as_str()) >= out.len() {
                let k: usize = find_package(&self.packages, h.name.as_str());
                let p = if k < self.packages.len() {
                    assert(inventory[k as int] == self.packages@[k as int]@);
                    self.packages[k].clone()
                } else {
                    package_of_hit(h)
                };
                let ghost v = p@;
                out.push(p);
                assert(packages(out@) =~= before.push(v));
            }
            i += 1;
        }
        assert(all.take(all.len() as int) =~= all);
        out
    }
}

impl AppView {
    /// Details of a not-installed search result are asked for the first time it is selected.
    pub open spec fn wants_details(self) -> (AppView, Seq<EffectView>) {
        match self.selected_package() {
            Some(p) => if p.installed || p.url.len() > 0 || self.details_requested.contains(
                p.name,
            ) {
                (self, Seq::empty())
            } else {
                (
                    AppView {
                        details_requested: self.details_requested.push(p.name),
                        backend: BackendView {
                            details_pending: one_more(self.backend.details_pending),
                            ..self.backend
                        },
                        ..self
                    },
                    seq![
                        if p.is_aur() {
                            EffectView::Details { repo: Seq::empty(), aur: seq![p.name] }
                        } else {
                            EffectView::Details { repo: seq![p.name], aur: Seq::empty() }
                        },
                    ],
                )
            },
            None => (self, Seq::empty()),
        }
    }
}

fn lists_name(v: &Vec<String>, name: &str) -> (r: bool)
    ensures
        r == texts(v@).contains(name@),
{
    let ghost all = texts(v@);
    let mut i: usize = 0;
    while i < v.len()
        invariant
            i <= v.len(),
            all == texts(v@),
            forall|j: int| 0 <= j < i ==> all[j] != name@,
        decreases v.len() - i,
    {
        assert(all[i as int] == v@[i as int]@);
        if same_str(v[i].as_str(), name) {
            return true;
        }
        i += 1;
    }
    false
}

impl PkgApp {
    /// Ask for `-Si` details of a not-installed search result the first time it is selected.
    pub fn want_details(&mut self) -> (r: Vec<Effect>)
        ensures
            (final(self)@, effects(r@)) == old(self)@.wants_details(),
    {
        let mut fx: Vec<Effect> = Vec::new();
        let (name, aur) = match self.selected_package() {
            Some(p) => {
                if p.installed || chars_of(p.url.as_str()).len() > 0 || lists_name(
                    &self.details_requested,
                    p.name.as_str(),
                ) {
                    assert(effects(fx@) =~= Seq::empty());
                    return fx;
                }
                (p.name.clone(), p.is_aur())
            },
            None => {
                assert(effects(fx@) =~= Seq::empty());
                return fx;
            },
        };
        push_copy(&mut self.details_requested, name.as_str());
        let mut repo_names: Vec<String> = Vec::new();
        let mut aur_names: Vec<String> = Vec::new();
        if aur {
            push_copy(&mut aur_names, name.as_str());
        } else {
            push_copy(&mut repo_names, name.as_str());
        }
        let started = self.backend.details(&repo_names, &aur_names);
        assert(texts(repo_names@) =~= if aur {
            Seq::empty()
        } else {
            seq![name@]
        });
        assert(texts(aur_names@) =~= if aur {
            seq![name@]
        } else {
            Seq::empty()
        });
        assert(started) by {
            assert(texts(repo_names@).len() == repo_names@.len());
            assert(texts(aur_names@).len() == aur_names@.len());
        }
        fx.push(Effect::Details { repo: repo_names, aur: aur_names });
        assert(effects(fx@) =~= old(self)@.wants_details().1);
        assert(self@ =~= old(self)@.wants_details().0);
        fx
    }
}

// ------------------------------------------------------------------ messages

/// How much a line of output matters, `lower` being the line in lower case.
pub open spec fn level_of(text: Seq<char>, lower: Seq<char>) -> Level {
    if "error"@.is_prefix_of(lower) || includes(lower, "error:"@) {
        Level::Danger
    } else if "warning"@.is_prefix_of(lower) || includes(lower, "warning:"@) {
        Level::Warn
    } else if "::"@.is_prefix_of(text) || "==>"@.is_prefix_of(text) {
        Level::Good
    } else {
        Level::Info
    }
}

/// How much a line of output matters, `lower` being the line in lower case.
pub fn line_level(text: &str, lower: &str) -> (r: Level)
    ensures
        r == level_of(text@, lower@),
{
    let t = chars_of(text);
    let l = chars_of(lower);
    if starts_with(&l, "error") || contains(&l, "error:") {
        Level::Danger
    } else if starts_with(&l, "warning") || contains(&l, "warning:") {
        Level::Warn
    } else if starts_with(&t, "::") || starts_with(&t, "==>") {
        Level::Good
    } else {
        Level::Info
    }
}

/// Why a command failed, by its exit code. pkexec: 126 = dismissed, 127 = not authorised.
pub open spec fn exit_reason(code: Option<i32>) -> Seq<char> {
    match code {
        Some(c) => if c == 126 {
            "authentication dismissed"@
        } else if c == 127 {
            "not authorised (polkit) or command not found"@
        } else {
            "exit code "@ + crate::num::signed(c as int)
        },
        None => "terminated"@,
    }
}

fn exit_text(code: Option<i32>) -> (r: String)
    ensures
        r@ == exit_reason(code),
{
    match code {
        Some(c) => if c == 126 {
            copy("authentication dismissed")
        } else if c == 127 {
            copy("not authorised (polkit) or command not found")
        } else {
            let mut out = copy("exit code ");
            out.push_str(crate::num::to_signed(c).as_str());
            out
        },
        None => copy("terminated"),
    }
}

/// What the log says of an inventory.
pub open spec fn inventory_line(pkgs: Seq<PackageView>, ms: Seq<char>) -> Seq<char> {
    "inventory :: "@ + decimal(pkgs.len()) + " packages, "@ + decimal(tally(pkgs, View::Explicit))
        + " explicit, "@ + decimal(tally(pkgs, View::Foreign)) + " foreign, "@ + decimal(
        tally(pkgs, View::Orphans),
    ) + " orphans in "@ + ms + " ms"@
}

/// What the log says of a check.
pub open spec fn check_line(u: Seq<UpgradeView>) -> Seq<char> {
    "check :: "@ + decimal(u.len()) + " updates ("@ + decimal((u.len() - aur_updates(u)) as nat)
        + " repo, "@ + decimal(aur_updates(u)) + " aur)"@
}

impl AppView {
    /// An inventory has come.
    pub open spec fn has_inventory(
        self,
        r: Result<Seq<PackageView>, Seq<char>>,
        ms: Seq<char>,
        stamp: Seq<char>,
        tools: ToolsView,
    ) -> AppView {
        let a = AppView { fetch_ms: Some(ms), ..self };
        let b = match r {
            Ok(p) => {
                let pkgs = updated(p, a.updates);
                let level = if tally(pkgs, View::Orphans) > 0 {
                    Level::Warn
                } else {
                    Level::Good
                };
                let c = a.logs(stamp, inventory_line(pkgs, ms), level);
                AppView { packages: pkgs, ..c }.after_inventory(tools)
            },
            Err(e) => a.fails(stamp, "INVENTORY // PACMAN"@, e),
        };
        AppView { dirty: true, ..b }
    }

    /// The result of a check has come.
    pub open spec fn has_check(
        self,
        r: Result<Seq<UpgradeView>, Seq<char>>,
        stamp: Seq<char>,
        now: u64,
    ) -> AppView {
        let a = AppView { checked_at: Some(now), ..self };
        match r {
            Ok(u) => {
                let level = if u.len() == 0 {
                    Level::Good
                } else {
                    Level::Warn
                };
                let b = a.logs(stamp, check_line(u), level);
                AppView {
                    updates: u,
                    check_error: None,
                    packages: updated(b.packages, u),
                    dirty: true,
                    ..b
                }
            },
            Err(e) => AppView { check_error: Some(e), ..a }.fails(
                stamp,
                "CHECK // UPDATES"@,
                e,
            ),
        }
    }

    /// The result of a search has come.
    pub open spec fn has_hits(
        self,
        query: Seq<char>,
        r: Result<Seq<HitView>, Seq<char>>,
        stamp: Seq<char>,
    ) -> AppView {
        match r {
            Ok(h) => {
                let pkgs = hit_packages(h, self.packages);
                let a = self.logs(
                    stamp,
                    "search // "@ + query + " :: "@ + decimal(pkgs.len()) + " hits"@,
                    Level::Good,
                );
                AppView {
                    search_results: pkgs,
                    details_requested: Seq::empty(),
                    dirty: true,
                    ..a
                }
            },
            Err(e) => self.fails(stamp, labelled("SEARCH"@, uppercase(query)), e),
        }
    }

    /// Details have come.
    pub open spec fn has_details(
        self,
        r: Result<Seq<PackageView>, Seq<char>>,
        stamp: Seq<char>,
    ) -> AppView {
        match r {
            Ok(d) => AppView {
                search_results: with_all_details(self.search_results, d),
                ..self
            },
            Err(e) => self.logs(stamp, "details :: failed :: "@ + e, Level::Warn),
        }
    }

    /// Everything is read and checked again: the package database may have changed.
    pub open spec fn rereads(self) -> (AppView, Seq<EffectView>) {
        let a = if self.backend.fetching {
            Seq::empty()
        } else {
            seq![EffectView::FetchInventory]
        };
        let b = if self.backend.checking {
            Seq::empty()
        } else {
            seq![EffectView::Check]
        };
        (
            AppView {
                backend: self.backend.with_inventory().with_system().with_check(),
                ..self
            },
            a + seq![EffectView::FetchSystem] + b,
        )
    }

    /// A command has ended: a notice, and everything is read and checked again (the state file
    /// tells the tray).
    pub open spec fn has_exit(
        self,
        label: Seq<char>,
        ok: bool,
        code: Option<i32>,
        elapsed: Seq<char>,
        stamp: Seq<char>,
    ) -> (AppView, Seq<EffectView>) {
        (if ok {
            self.succeeds(stamp, uppercase(label), "done in "@ + elapsed + " s"@)
        } else {
            self.fails(stamp, uppercase(label), exit_reason(code))
        }).rereads()
    }

    /// A message has come.
    pub open spec fn handles(
        self,
        m: MsgView,
        stamp: Seq<char>,
        now: u64,
        tools: ToolsView,
    ) -> (AppView, Seq<EffectView>) {
        match m {
            MsgView::Inventory(r, ms) => (
                self.has_inventory(r, ms, stamp, tools),
                Seq::empty(),
            ),
            MsgView::Check(r) => (self.has_check(r, stamp, now), Seq::empty()),
            MsgView::Search { query, result } => (
                self.has_hits(query, result, stamp),
                Seq::empty(),
            ),
            MsgView::Details(r) => (self.has_details(r, stamp), Seq::empty()),
            MsgView::System(s) => (AppView { system: s, ..self }, Seq::empty()),
            MsgView::Line { text, stderr } => (
                self.logs(stamp, text, level_of(text, lowercase(text))),
                Seq::empty(),
            ),
            MsgView::Exit { label, ok, code, elapsed } => self.has_exit(
                label,
                ok,
                code,
                elapsed,
                stamp,
            ),
        }
    }

    /// Some messages have come, one after the other.
    pub open spec fn handles_all(
        self,
        m: Seq<MsgView>,
        stamp: Seq<char>,
        now: u64,
        tools: ToolsView,
    ) -> (AppView, Seq<EffectView>)
        decreases m.len(),
    {
        if m.len() == 0 {
            (self, Seq::empty())
        } else {
            let (a, fx) = self.handles_all(m.drop_last(), stamp, now, tools);
            let (b, more) = a.handles(m.last(), stamp, now, tools);
            (b, fx + more)
        }
    }

    /// The messages of one frame: first all of them are settled, then each is acted on.
    pub open spec fn polls(
        self,
        m: Seq<MsgView>,
        stamp: Seq<char>,
        now: u64,
        tools: ToolsView,
    ) -> (AppView, Seq<EffectView>) {
        AppView { backend: self.backend.settled_all(m), ..self }.handles_all(m, stamp, now, tools)
    }
}

impl PkgApp {
    fn take_inventory(
        &mut self,
        r: Result<Vec<Package>, String>,
        ms: String,
        stamp: &str,
        tools: &Tools,
    )
        ensures
            final(self)@ == old(self)@.has_inventory(
                crate::backend::details_result(r),
                ms@,
                stamp@,
                tools@,
            ),
    {
        let ms_text = ms.clone();
        self.fetch_ms = Some(ms);
        let ghost a = self@;
        assert(a =~= (AppView { fetch_ms: Some(ms@), ..old(self)@ }));
        match r {
            Ok(p) => {
                let mut pkgs = p;
                apply_updates(&mut pkgs, &self.updates);
                let explicit: usize = count_listed(&pkgs, View::Explicit);
                let foreign: usize = count_listed(&pkgs, View::Foreign);
                let orphans: usize = count_listed(&pkgs, View::Orphans);
                let mut text = copy("inventory :: ");
                text.push_str(to_decimal(pkgs.len() as u64).as_str());
                text.push_str(" packages, ");
                text.push_str(to_decimal(explicit as u64).as_str());
                text.push_str(" explicit, ");
                text.push_str(to_decimal(foreign as u64).as_str());
                text.push_str(" foreign, ");
                text.push_str(to_decimal(orphans as u64).as_str());
                text.push_str(" orphans in ");
                text.push_str(ms_text.as_str());
                text.push_str(" ms");
                assert(packages(pkgs@).len() == pkgs@.len());
                self.push_log(
                    stamp,
                    text,
                    if orphans > 0 {
                        Level::Warn
                    } else {
                        Level::Good
                    },
                );
                let ghost c = self@;
                self.packages = pkgs;
                assert(self@ =~= (AppView { packages: packages(pkgs@), ..c }));
                self.after_inventory(tools);
            },
            Err(e) => {
                self.fail(stamp, copy("INVENTORY // PACMAN"), e.as_str());
            },
        }
        self.dirty = true;
    }

    fn take_check(&mut self, r: Result<Vec<Upgrade>, String>, stamp: &str, now: u64)
        ensures
            final(self)@ == old(self)@.has_check(
                crate::backend::check_result(r),
                stamp@,
                now,
            ),
    {
        self.checked_at = Some(now);
        let ghost a = self@;
        assert(a =~= (AppView { checked_at: Some(now), ..old(self)@ }));
        match r {
            Ok(u) => {
                let n: usize = u.len();
                let aur: usize = count_aur(&u);
                let mut text = copy("check :: ");
                text.push_str(to_decimal(n as u64).as_str());
                text.push_str(" updates (");
                text.push_str(to_decimal((n - aur) as u64).as_str());
                text.push_str(" repo, ");
                text.push_str(to_decimal(aur as u64).as_str());
                text.push_str(" aur)");
                assert(upgrades(u@).len() == u@.len());
                self.push_log(
                    stamp,
                    text,
                    if n == 0 {
                        Level::Good
                    } else {
                        Level::Warn
                    },
                );
                self.updates = u;
                self.check_error = None;
                apply_updates(&mut self.packages, &self.updates);
                self.dirty = true;
            },
            Err(e) => {
                self.check_error = Some(e.clone());
                let ghost b = self@;
                assert(b =~= (AppView { check_error: Some(e@), ..a }));
                self.fail(stamp, copy("CHECK // UPDATES"), e.as_str());
            },
        }
    }

    fn take_hits(&mut self, query: String, r: Result<Vec<SearchHit>, String>, stamp: &str)
        ensures
            final(self)@ == old(self)@.has_hits(
                query@,
                crate::backend::search_result(r),
                stamp@,
            ),
    {
        match r {
            Ok(h) => {
                let pkgs = self.hits_to_packages(&h);
                assert(packages(pkgs@).len() == pkgs@.len());
                let mut text = copy("search // ");
                text.push_str(query.as_str());
                text.push_str(" :: ");
                text.push_str(to_decimal(pkgs.len() as u64).as_str());
                text.push_str(" hits");
                self.push_log(stamp, text, Level::Good);
                self.search_results = pkgs;
                self.details_requested = Vec::new();
                self.dirty = true;
                assert(texts(self.details_requested@) =~= Seq::empty());
            },
            Err(e) => {
                self.fail(stamp, loud_label("SEARCH", query.as_str()), e.as_str());
            },
        }
    }

    fn take_details(&mut self, r: Result<Vec<Package>, String>, stamp: &str)
        ensures
            final(self)@ == old(self)@.has_details(crate::backend::details_result(r), stamp@),
    {
        match r {
            Ok(d) => {
                let ghost start = self@;
                let ghost all = packages(d@);
                let mut i: usize = 0;
                while i < d.len()
                    invariant
                        i <= d.len(),
                        all == packages(d@),
                        self@ == (AppView {
                            search_results: with_all_details(
                                start.search_results,
                                all.take(i as int),
                            ),
                            ..start
                        }),
                    decreases d.len() - i,
                {
                    assert(all.take(i + 1).drop_last() =~= all.take(i as int));
                    assert(all.take(i + 1).last() == d@[i as int]@);
                    merge_detail(&mut self.search_results, &d[i]);
                    i += 1;
                }
                assert(all.take(all.len() as int) =~= all);
            },
            Err(e) => {
                let mut text = copy("details :: failed :: ");
                text.push_str(e.as_str());
                self.push_log(stamp, text, Level::Warn);
            },
        }
    }

    /// Everything is read and checked again.
    fn reread(&mut self) -> (r: Vec<Effect>)
        ensures
            (final(self)@, effects(r@)) == old(self)@.rereads(),
    {
        let mut fx: Vec<Effect> = Vec::new();
        if self.backend.fetch_inventory() {
            fx.push(Effect::FetchInventory);
        }
        self.backend.fetch_system();
        fx.push(Effect::FetchSystem);
        if self.backend.check() {
            fx.push(Effect::Check);
        }
        assert(effects(fx@) =~= old(self)@.rereads().1);
        fx
    }

    fn take_exit(
        &mut self,
        name: String,
        ok: bool,
        code: Option<i32>,
        elapsed: String,
        stamp: &str,
    ) -> (r: Vec<Effect>)
        ensures
            (final(self)@, effects(r@)) == old(self)@.has_exit(
                name@,
                ok,
                code,
                elapsed@,
                stamp@,
            ),
    {
        let loud = to_uppercase(name.as_str());
        if ok {
            let mut detail = copy("done in ");
            detail.push_str(elapsed.as_str());
            detail.push_str(" s");
            self.succeed(stamp, loud, detail.as_str());
        } else {
            self.fail(stamp, loud, exit_text(code).as_str());
        }
        self.reread()
    }

    /// A message has come.
    #[verifier::rlimit(60)]
    fn handle(&mut self, m: Msg, stamp: &str, now: u64, tools: &Tools) -> (r: Vec<Effect>)
        ensures
            (final(self)@, effects(r@)) == old(self)@.handles(m@, stamp@, now, tools@),
    {
        let none: Vec<Effect> = Vec::new();
        assert(effects(none@) =~= Seq::empty());
        match m {
            Msg::Inventory(r, ms) => {
                self.take_inventory(r, ms, stamp, tools);
                none
            },
            Msg::Check(r) => {
                self.take_check(r, stamp, now);
                none
            },
            Msg::Search { query, result } => {
                self.take_hits(query, result, stamp);
                none
            },
            Msg::Details(r) => {
                self.take_details(r, stamp);
                none
            },
            Msg::System(s) => {
                self.system = s;
                none
            },
            Msg::Line { text, stderr } => {
                let lower = to_lowercase(text.as_str());
                let level = line_level(text.as_str(), lower.as_str());
                self.push_log(stamp, text, level);
                none
            },
            Msg::Exit { label, ok, code, elapsed } => self.take_exit(
                label,
                ok,
                code,
                elapsed,
                stamp,
            ),
        }
    }

    /// The messages of one frame: first all of them are settled, then each is acted on. `now` is
    /// the unix time.
    pub fn poll(&mut self, msgs: Vec<Msg>, stamp: &str, now: u64, tools: &Tools) -> (r: Vec<Effect>)
        ensures
            (final(self)@, effects(r@)) == old(self)@.polls(messages(msgs@), stamp@, now, tools@),
    {
        let ghost all = messages(msgs@);
        self.backend.poll(&msgs);
        let ghost start = self@;
        assert(start =~= (AppView {
            backend: old(self)@.backend.settled_all(all),
            ..old(self)@
        }));
        let mut fx: Vec<Effect> = Vec::new();
        let mut left = msgs;
        let mut next: Vec<Msg> = Vec::new();
        // the messages are taken from the front, in the order in which they came
        let ghost total = left@;
        while left.len() > 0
            invariant
                next@.len() + left@.len() == total.len(),
                forall|j: int|
                    0 <= j < left@.len() ==> (#[trigger] left@[j]) == total[j],
                forall|j: int|
                    0 <= j < next@.len() ==> (#[trigger] next@[j]) == total[total.len() - 1 - j],
            decreases left.len(),
        {
            if let Some(m) = left.pop() {
                next.push(m);
            }
        }
        let ghost n = total.len() as int;
        assert(all.take(0) =~= Seq::empty());
        assert(effects(fx@) =~= Seq::empty());
        while next.len() > 0
            invariant
                all == messages(total),
                n == total.len(),
                next@.len() <= n,
                forall|j: int|
                    0 <= j < next@.len() ==> (#[trigger] next@[j]) == total[n - 1 - j],
                (self@, effects(fx@)) == start.handles_all(
                    all.take(n - next@.len()),
                    stamp@,
                    now,
                    tools@,
                ),
            decreases next.len(),
        {
            let ghost k = n - next@.len();
            let ghost (a, fx0) = start.handles_all(all.take(k), stamp@, now, tools@);
            let ghost last = next@.last();
            assert(last == total[k]);
            assert(all.take(k + 1).drop_last() =~= all.take(k));
            assert(all.take(k + 1).last() == last@);
            if let Some(m) = next.pop() {
                assert(m == last);
                let mut more = self.handle(m, stamp, now, tools);
                let ghost before = fx@;
                let ghost added = more@;
                fx.append(&mut more);
                assert(effects(fx@) =~= effects(before) + effects(added));
            }
        }
        assert(all.take(n) =~= all);
        fx
    }
}

// ------------------------------------------------------------------ actions

/// The names of the orphans.
pub open spec fn orphan_names(pkgs: Seq<PackageView>) -> Seq<Seq<char>>
    decreases pkgs.len(),
{
    if pkgs.len() == 0 {
        Seq::empty()
    } else {
        let before = orphan_names(pkgs.drop_last());
        if pkgs.last().orphan {
            before.push(pkgs.last().name)
        } else {
            before
        }
    }
}

fn orphans_of(pkgs: &Vec<Package>) -> (r: Vec<String>)
    ensures
        texts(r@) == orphan_names(packages(pkgs@)),
{
    let ghost all = packages(pkgs@);
    let mut out: Vec<String> = Vec::new();
    let mut i: usize = 0;
    assert(texts(out@) =~= orphan_names(all.take(0)));
    while i < pkgs.len()
        invariant
            i <= pkgs.len(),
            all == packages(pkgs@),
            texts(out@) == orphan_names(all.take(i as int)),
        decreases pkgs.len() - i,
    {
        assert(all.take(i + 1).drop_last() =~= all.take(i as int));
        assert(all.take(i + 1).last() == pkgs@[i as int]@);
        if pkgs[i].orphan {
            push_copy(&mut out, pkgs[i].name.as_str());
        }
        i += 1;
    }
    assert(all.take(all.len() as int) =~= all);
    out
}

/// The page of an AUR package's PKGBUILD.
pub open spec fn pkgbuild_url(name: Seq<char>) -> Seq<char> {
    "https://aur.archlinux.org/cgit/aur.git/tree/PKGBUILD?h="@ + name
}

impl AppView {
    /// Another view has been asked for: nothing is selected in it.
    pub open spec fn sets_view(self, v: View) -> AppView {
        if self.view == v {
            self
        } else {
            AppView {
                view: v,
                table: TableState { selected: None, ..self.table },
                dirty: true,
                ..self
            }
        }
    }

    /// A row has been selected.
    pub open spec fn selects(self, row: Option<usize>) -> (AppView, Seq<EffectView>) {
        AppView {
            table: TableState { selected: row, scroll_to_selected: true, ..self.table },
            ..self
        }.wants_details()
    }

    /// The inventory has been asked for.
    pub open spec fn refreshes(self, stamp: Seq<char>) -> (AppView, Seq<EffectView>) {
        let a = self.logs(stamp, "refresh // inventory"@, Level::Info);
        (
            AppView { backend: a.backend.with_inventory().with_system(), ..a },
            if a.backend.fetching {
                seq![EffectView::FetchSystem]
            } else {
                seq![EffectView::FetchInventory, EffectView::FetchSystem]
            },
        )
    }

    /// A check has been asked for.
    pub open spec fn checks(self, stamp: Seq<char>) -> (AppView, Seq<EffectView>) {
        let a = self.logs(stamp, "check // checkupdates + aur"@, Level::Info);
        (
            AppView { backend: a.backend.with_check(), ..a },
            if a.backend.checking {
                Seq::empty()
            } else {
                seq![EffectView::Check]
            },
        )
    }

    /// A search has been asked for. A query of less than two bytes is passed over.
    pub open spec fn searches(self, stamp: Seq<char>) -> (AppView, Seq<EffectView>) {
        let q = trimmed(self.search_query);
        if encode_utf8(q).len() < 2 {
            (self, Seq::empty())
        } else {
            let a = self.logs(stamp, "search // "@ + q, Level::Info);
            (
                AppView { backend: BackendView { searching: Some(q), ..a.backend }, ..a },
                seq![EffectView::Search(q)],
            )
        }
    }

    /// An installation has been asked for: from the AUR by the helper, else by pacman. `--ask 4`:
    /// a package that conflicts with the new one is replaced (pacman would otherwise answer its
    /// own "Remove X?" question with no).
    pub open spec fn installs(
        self,
        name: Seq<char>,
        aur: bool,
        stamp: Seq<char>,
        tools: ToolsView,
    ) -> AppView {
        let label = labelled("install"@, name);
        let job = if aur {
            helper_job(tools, label, seq!["-S"@, name])
        } else {
            pacman_job(
                tools,
                label,
                seq!["-S"@, "--needed"@, "--noconfirm"@, "--ask"@, "4"@, name],
            )
        };
        let note = if aur {
            "BUILT FROM THE AUR WITHOUT REVIEW :: READ THE PKGBUILD FIRST (BUTTON IN THE INSPECTOR)"@
        } else {
            "DEPENDENCIES ARE INSTALLED AS NEEDED :: A CONFLICTING PACKAGE IS REPLACED"@
        };
        self.asks_or_fails(
            job,
            stamp,
            labelled("INSTALL"@, uppercase(name)),
            "Install"@,
            name,
            note,
            "INSTALL"@,
            false,
        )
    }

    /// A removal has been asked for.
    pub open spec fn removes(self, name: Seq<char>, stamp: Seq<char>, tools: ToolsView) -> AppView {
        self.asks_or_fails(
            pacman_job(
                tools,
                labelled("remove"@, name),
                seq!["-Rns"@, "--noconfirm"@, name],
            ),
            stamp,
            labelled("REMOVE"@, uppercase(name)),
            "Remove"@,
            name,
            "REMOVES THE PACKAGE, ITS CONFIG AND UNNEEDED DEPENDENCIES (-Rns)"@,
            "REMOVE"@,
            true,
        )
    }

    /// The upgrade of one AUR package has been asked for.
    pub open spec fn upgrades_aur(
        self,
        name: Seq<char>,
        stamp: Seq<char>,
        tools: ToolsView,
    ) -> AppView {
        self.asks_or_fails(
            helper_job(tools, labelled("upgrade"@, name), seq!["-S"@, name]),
            stamp,
            labelled("UPGRADE"@, uppercase(name)),
            "Upgrade"@,
            name,
            "REBUILT FROM THE AUR WITHOUT REVIEW :: READ THE PKGBUILD FIRST"@,
            "UPGRADE"@,
            false,
        )
    }

    /// Another install reason has been asked for: it is set without a confirmation.
    pub open spec fn marks(
        self,
        name: Seq<char>,
        explicit: bool,
        stamp: Seq<char>,
        tools: ToolsView,
    ) -> (AppView, Seq<EffectView>) {
        let flag = if explicit {
            "--asexplicit"@
        } else {
            "--asdeps"@
        };
        match pacman_job(tools, labelled("mark"@, name), seq!["-D"@, flag, name]) {
            Ok(job) => self.run_job(job, stamp),
            Err(e) => (self.fails(stamp, labelled("MARK"@, uppercase(name)), e), Seq::empty()),
        }
    }

    /// The removal of all orphans has been asked for.
    pub open spec fn removes_orphans(self, stamp: Seq<char>, tools: ToolsView) -> AppView {
        let names = orphan_names(self.packages);
        if names.len() == 0 {
            self
        } else {
            self.asks_or_fails(
                pacman_job(
                    tools,
                    "remove // orphans"@,
                    seq!["-Rns"@, "--noconfirm"@] + names,
                ),
                stamp,
                "REMOVE // ORPHANS"@,
                "Remove orphans"@,
                decimal(names.len()) + " packages"@,
                joined(names, "  "@),
                "REMOVE"@,
                true,
            )
        }
    }

    /// The pruning of the package cache has been asked for.
    pub open spec fn cleans_cache(self, stamp: Seq<char>, tools: ToolsView) -> AppView {
        self.asks_or_fails(
            root_job(tools, "clean // cache"@, tools.paccache, seq!["-rk2"@]),
            stamp,
            "CLEAN // CACHE"@,
            "Clean cache"@,
            match self.system.cache_size {
                Some(size) => size + " in /var/cache/pacman/pkg"@,
                None => "package cache"@,
            },
            "KEEPS THE LAST 2 VERSIONS OF EACH PACKAGE (paccache -rk2)"@,
            "CLEAN"@,
            false,
        )
    }

    /// A page has been asked for.
    pub open spec fn opens(self, url: Seq<char>, stamp: Seq<char>) -> (AppView, Seq<EffectView>) {
        (
            self.logs(stamp, "open // "@ + url, Level::Info),
            seq![EffectView::OpenUrl(url)],
        )
    }

    /// The dialog has been dismissed.
    pub open spec fn closes_dialog(self) -> AppView {
        match self.dialog {
            Some(d) => AppView { dialog: Some(DialogView { closing: true, ..d }), ..self },
            None => self,
        }
    }

    /// The dialog's question has been answered with yes: it closes and its command runs.
    pub open spec fn confirms_dialog(self, stamp: Seq<char>) -> (AppView, Seq<EffectView>) {
        match self.dialog {
            Some(DialogView { state: DialogStateView::Confirm(c), closing: false }) => {
                self.closes_dialog().run_job(c.job, stamp)
            },
            _ => (self, Seq::empty()),
        }
    }

    /// What an action does.
    pub open spec fn applies(
        self,
        a: ActionView,
        stamp: Seq<char>,
        tools: ToolsView,
    ) -> (AppView, Seq<EffectView>) {
        match a {
            ActionView::SetView(v) => (self.sets_view(v), Seq::empty()),
            ActionView::Select(s) => self.selects(s),
            ActionView::Refresh => self.refreshes(stamp),
            ActionView::Check => self.checks(stamp),
            ActionView::Search => self.searches(stamp),
            ActionView::UpgradeAll => (self.upgrade_all(tools), Seq::empty()),
            ActionView::Install(n, aur) => (self.installs(n, aur, stamp, tools), Seq::empty()),
            ActionView::Remove(n) => (self.removes(n, stamp, tools), Seq::empty()),
            ActionView::UpgradeAur(n) => (self.upgrades_aur(n, stamp, tools), Seq::empty()),
            ActionView::MarkExplicit(n, e) => self.marks(n, e, stamp, tools),
            ActionView::RemoveOrphans => (self.removes_orphans(stamp, tools), Seq::empty()),
            ActionView::CleanCache => (self.cleans_cache(stamp, tools), Seq::empty()),
            ActionView::Homepage(u) => self.opens(u, stamp),
            ActionView::Pkgbuild(n) => self.opens(pkgbuild_url(n), stamp),
            ActionView::CopyName(n) => (
                self.logs(stamp, "name copied to clipboard"@, Level::Info),
                seq![EffectView::CopyText(n)],
            ),
            ActionView::Run(j) => self.run_job(j, stamp),
            ActionView::CloseDialog => (self.closes_dialog(), Seq::empty()),
            ActionView::ConfirmDialog => self.confirms_dialog(stamp),
            ActionView::OpenSettings => (self, seq![EffectView::OpenSettings]),
        }
    }
}

impl PkgApp {
    fn set_view(&mut self, v: View)
        ensures
            final(self)@ == old(self)@.sets_view(v),
    {
        if self.view != v {
            self.view = v;
            self.table.selected = None;
            self.dirty = true;
        }
    }

    fn select(&mut self, row: Option<usize>) -> (r: Vec<Effect>)
        ensures
            (final(self)@, effects(r@)) == old(self)@.selects(row),
    {
        self.table.selected = row;
        self.table.scroll_to_selected = true;
        assert(self@ =~= (AppView {
            table: TableState { selected: row, scroll_to_selected: true, ..old(self)@.table },
            ..old(self)@
        }));
        self.want_details()
    }

    fn refresh(&mut self, stamp: &str) -> (r: Vec<Effect>)
        ensures
            (final(self)@, effects(r@)) == old(self)@.refreshes(stamp@),
    {
        let mut fx: Vec<Effect> = Vec::new();
        self.push_log(stamp, copy("refresh // inventory"), Level::Info);
        if self.backend.fetch_inventory() {
            fx.push(Effect::FetchInventory);
        }
        self.backend.fetch_system();
        fx.push(Effect::FetchSystem);
        assert(effects(fx@) =~= old(self)@.refreshes(stamp@).1);
        fx
    }

    fn check_updates(&mut self, stamp: &str) -> (r: Vec<Effect>)
        ensures
            (final(self)@, effects(r@)) == old(self)@.checks(stamp@),
    {
        let mut fx: Vec<Effect> = Vec::new();
        self.push_log(stamp, copy("check // checkupdates + aur"), Level::Info);
        if self.backend.check() {
            fx.push(Effect::Check);
        }
        assert(effects(fx@) =~= old(self)@.checks(stamp@).1);
        fx
    }

    fn search(&mut self, stamp: &str) -> (r: Vec<Effect>)
        ensures
            (final(self)@, effects(r@)) == old(self)@.searches(stamp@),
    {
        let mut fx: Vec<Effect> = Vec::new();
        let cs = chars_of(self.search_query.as_str());
        let q = string_of(trim(&cs));
        if q.as_str().as_bytes().len() < 2 {
            assert(effects(fx@) =~= Seq::empty());
            return fx;
        }
        let mut text = copy("search // ");
        text.push_str(q.as_str());
        self.push_log(stamp, text, Level::Info);
        self.backend.search(q.clone());
        fx.push(Effect::Search(q));
        assert(effects(fx@) =~= old(self)@.searches(stamp@).1);
        fx
    }

    fn install(&mut self, name: String, aur: bool, stamp: &str, tools: &Tools)
        ensures
            final(self)@ == old(self)@.installs(name@, aur, stamp@, tools@),
    {
        let title = label("install", name.as_str());
        let failed = loud_label("INSTALL", name.as_str());
        let job = if aur {
            tools.helper_job(title.as_str(), words2("-S", name.as_str()))
        } else {
            let mut args = words3("-S", "--needed", "--noconfirm");
            push_copy(&mut args, "--ask");
            push_copy(&mut args, "4");
            push_copy(&mut args, name.as_str());
            assert(texts(args@) =~= seq![
                "-S"@,
                "--needed"@,
                "--noconfirm"@,
                "--ask"@,
                "4"@,
                name@,
            ]);
            tools.pacman_job(title.as_str(), args)
        };
        let note = if aur {
            copy(
                "BUILT FROM THE AUR WITHOUT REVIEW :: READ THE PKGBUILD FIRST (BUTTON IN THE INSPECTOR)",
            )
        } else {
            copy("DEPENDENCIES ARE INSTALLED AS NEEDED :: A CONFLICTING PACKAGE IS REPLACED")
        };
        self.confirm_or_fail(job, stamp, failed, "Install", name, note, "INSTALL", false);
    }

    fn remove(&mut self, name: String, stamp: &str, tools: &Tools)
        ensures
            final(self)@ == old(self)@.removes(name@, stamp@, tools@),
    {
        let job = tools.pacman_job(
            label("remove", name.as_str()).as_str(),
            words3("-Rns", "--noconfirm", name.as_str()),
        );
        let failed = loud_label("REMOVE", name.as_str());
        self.confirm_or_fail(
            job,
            stamp,
            failed,
            "Remove",
            name,
            copy("REMOVES THE PACKAGE, ITS CONFIG AND UNNEEDED DEPENDENCIES (-Rns)"),
            "REMOVE",
            true,
        );
    }

    fn upgrade_aur(&mut self, name: String, stamp: &str, tools: &Tools)
        ensures
            final(self)@ == old(self)@.upgrades_aur(name@, stamp@, tools@),
    {
        let job = tools.helper_job(
            label("upgrade", name.as_str()).as_str(),
            words2("-S", name.as_str()),
        );
        let failed = loud_label("UPGRADE", name.as_str());
        self.confirm_or_fail(
            job,
            stamp,
            failed,
            "Upgrade",
            name,
            copy("REBUILT FROM THE AUR WITHOUT REVIEW :: READ THE PKGBUILD FIRST"),
            "UPGRADE",
            false,
        );
    }

    fn mark_explicit(&mut self, name: String, explicit: bool, stamp: &str, tools: &Tools) -> (r:
        Vec<Effect>)
        ensures
            (final(self)@, effects(r@)) == old(self)@.marks(name@, explicit, stamp@, tools@),
    {
        let flag = if explicit {
            "--asexplicit"
        } else {
            "--asdeps"
        };
        let job = tools.pacman_job(
            label("mark", name.as_str()).as_str(),
            words3("-D", flag, name.as_str()),
        );
        match job {
            Ok(job) => self.run_job(job, stamp),
            Err(e) => {
                self.fail(stamp, loud_label("MARK", name.as_str()), e.as_str());
                let none: Vec<Effect> = Vec::new();
                assert(effects(none@) =~= Seq::empty());
                none
            },
        }
    }

    fn remove_orphans(&mut self, stamp: &str, tools: &Tools)
        ensures
            final(self)@ == old(self)@.removes_orphans(stamp@, tools@),
    {
        let names = orphans_of(&self.packages);
        assert(texts(names@).len() == names@.len());
        if names.len() == 0 {
            return;
        }
        let mut args = words2("-Rns", "--noconfirm");
        let mut more = copies(&names);
        let ghost a = texts(args@);
        let ghost b = texts(more@);
        args.append(&mut more);
        assert(texts(args@) =~= a + b);
        let job = tools.pacman_job("remove // orphans", args);
        let mut line = to_decimal(names.len() as u64);
        line.push_str(" packages");
        self.confirm_or_fail(
            job,
            stamp,
            copy("REMOVE // ORPHANS"),
            "Remove orphans",
            line,
            join(&names, "  "),
            "REMOVE",
            true,
        );
    }

    fn clean_cache(&mut self, stamp: &str, tools: &Tools)
        ensures
            final(self)@ == old(self)@.cleans_cache(stamp@, tools@),
    {
        let job = tools.root_job("clean // cache", tools.paccache.as_str(), words1("-rk2"));
        let line = match &self.system.cache_size {
            Some(size) => {
                let mut out = size.clone();
                out.push_str(" in /var/cache/pacman/pkg");
                out
            },
            None => copy("package cache"),
        };
        self.confirm_or_fail(
            job,
            stamp,
            copy("CLEAN // CACHE"),
            "Clean cache",
            line,
            copy("KEEPS THE LAST 2 VERSIONS OF EACH PACKAGE (paccache -rk2)"),
            "CLEAN",
            false,
        );
    }

    fn open_page(&mut self, url: String, stamp: &str) -> (r: Vec<Effect>)
        ensures
            (final(self)@, effects(r@)) == old(self)@.opens(url@, stamp@),
    {
        let mut fx: Vec<Effect> = Vec::new();
        let mut text = copy("open // ");
        text.push_str(url.as_str());
        self.push_log(stamp, text, Level::Info);
        fx.push(Effect::OpenUrl(url));
        assert(effects(fx@) =~= seq![EffectView::OpenUrl(url@)]);
        fx
    }

    /// The page could not be opened.
    pub fn open_failed(&mut self, stamp: &str, error: &str)
        ensures
            final(self)@ == old(self)@.fails(stamp@, "OPEN // HOMEPAGE"@, error@),
    {
        self.fail(stamp, copy("OPEN // HOMEPAGE"), error);
    }

    fn close_dialog(&mut self)
        ensures
            final(self)@ == old(self)@.closes_dialog(),
    {
        let d = self.dialog.take();
        if let Some(d) = d {
            self.dialog = Some(OpenDialog { state: d.state, closing: true });
        }
        assert(self@ =~= old(self)@.closes_dialog());
    }

    fn confirm_dialog(&mut self, stamp: &str) -> (r: Vec<Effect>)
        ensures
            (final(self)@, effects(r@)) == old(self)@.confirms_dialog(stamp@),
    {
        let none: Vec<Effect> = Vec::new();
        assert(effects(none@) =~= Seq::empty());
        let job = match &self.dialog {
            Some(d) => match &d.state {
                DialogState::Confirm(c) => if d.closing {
                    return none;
                } else {
                    c.job.clone()
                },
                _ => {
                    return none;
                },
            },
            None => {
                return none;
            },
        };
        self.close_dialog();
        self.run_job(job, stamp)
    }

    /// Do what an action asks for. `stamp` is the time as the log shows it, without the
    /// brackets.
    #[verifier::rlimit(60)]
    pub fn apply(&mut self, action: Action, stamp: &str, tools: &Tools) -> (r: Vec<Effect>)
        ensures
            (final(self)@, effects(r@)) == old(self)@.applies(action@, stamp@, tools@),
    {
        let mut fx: Vec<Effect> = Vec::new();
        assert(effects(fx@) =~= Seq::empty());
        match action {
            Action::SetView(v) => {
                self.set_view(v);
                fx
            },
            Action::Select(s) => self.select(s),
            Action::Refresh => self.refresh(stamp),
            Action::Check => self.check_updates(stamp),
            Action::Search => self.search(stamp),
            Action::UpgradeAll => {
                self.open_upgrade_all(tools);
                fx
            },
            Action::Install(name, aur) => {
                self.install(name, aur, stamp, tools);
                fx
            },
            Action::Remove(name) => {
                self.remove(name, stamp, tools);
                fx
            },
            Action::UpgradeAur(name) => {
                self.upgrade_aur(name, stamp, tools);
                fx
            },
            Action::MarkExplicit(name, explicit) => self.mark_explicit(
                name,
                explicit,
                stamp,
                tools,
            ),
            Action::RemoveOrphans => {
                self.remove_orphans(stamp, tools);
                fx
            },
            Action::CleanCache => {
                self.clean_cache(stamp, tools);
                fx
            },
            Action::Homepage(url) => self.open_page(url, stamp),
            Action::Pkgbuild(name) => {
                let mut url = copy("https://aur.archlinux.org/cgit/aur.git/tree/PKGBUILD?h=");
                url.push_str(name.as_str());
                self.open_page(url, stamp)
            },
            Action::CopyName(name) => {
                self.push_log(stamp, copy("name copied to clipboard"), Level::Info);
                fx.push(Effect::CopyText(name));
                assert(effects(fx@) =~= seq![EffectView::CopyText(name@)]);
                fx
            },
            Action::Run(job) => self.run_job(job, stamp),
            Action::CloseDialog => {
                self.close_dialog();
                fx
            },
            Action::ConfirmDialog => self.confirm_dialog(stamp),
            Action::OpenSettings => {
                fx.push(Effect::OpenSettings);
                assert(effects(fx@) =~= seq![EffectView::OpenSettings]);
                fx
            },
        }
    }
}

// ------------------------------------------------------------------ start and frames

impl AppView {
    /// The console before anything has been read.
    pub open spec fn fresh(stamp: Seq<char>) -> AppView {
        AppView {
            backend: BackendView::idle(),
            packages: Seq::empty(),
            updates: Seq::empty(),
            checked_at: None,
            check_error: None,
            search_results: Seq::empty(),
            search_query: Seq::empty(),
            system: SystemView::unknown(),
            view: View::Installed,
            rows: Seq::empty(),
            table: TableState {
                selected: None,
                sort_col: 0,
                sort_desc: false,
                scroll_to_selected: false,
            },
            dirty: true,
            filter: Seq::empty(),
            log: Seq::empty(),
            dialog: None,
            notices: Seq::empty(),
            fetch_ms: None,
            details_requested: Seq::empty(),
            start: StartView { upgrade: false, select: None },
            log_open: true,
            start_stamp: stamp,
        }
    }

    /// The console with its first log lines: `agent` says whether the agent interface is on.
    pub open spec fn started(
        stamp: Seq<char>,
        log_open: bool,
        agent: bool,
        extra: Option<Seq<char>>,
    ) -> AppView {
        let a = AppView { log_open, ..AppView::fresh(stamp) }.logs(
            stamp,
            "package console online :: reading inventory"@,
            Level::Good,
        );
        let b = if agent {
            a.logs(stamp, "agent // interface on :: waiting for a client"@, Level::Warn)
        } else {
            a
        };
        match extra {
            Some(text) => b.logs(stamp, text, Level::Danger),
            None => b,
        }
    }

    /// The saved check shown until a live one lands.
    pub open spec fn loads_check(self, st: StateView) -> AppView {
        AppView {
            updates: st.updates,
            checked_at: st.checked_at,
            check_error: st.error,
            packages: updated(self.packages, st.updates),
            dirty: true,
            ..self
        }
    }

    /// The next notice shown, where no dialog is open.
    pub open spec fn next_notice(self) -> AppView {
        if self.dialog is None && self.notices.len() > 0 {
            let (success, line) = self.notices[0];
            AppView {
                dialog: Some(
                    DialogView {
                        state: DialogStateView::Notice { success, line },
                        closing: false,
                    },
                ),
                notices: self.notices.drop_first(),
                ..self
            }
        } else {
            self
        }
    }

    /// The rows rebuilt, where that is due.
    pub open spec fn refreshed(self) -> AppView {
        if self.dirty {
            self.rebuilt()
        } else {
            self
        }
    }

    /// What happens before a frame is painted.
    pub open spec fn begins_frame(
        self,
        r: Seq<RequestView>,
        m: Seq<MsgView>,
        stamp: Seq<char>,
        now: u64,
        tools: ToolsView,
    ) -> (AppView, Seq<EffectView>) {
        let (a, fx) = self.poll_instance(r, tools);
        let (b, more) = a.polls(m, stamp, now, tools);
        (b.refreshed().next_notice(), fx + more)
    }
}

impl PkgApp {
    /// The console with its first log lines. `stamp` is the time of the start as the log shows it,
    /// without the brackets; `agent` says whether the agent interface is on; `extra` is one more
    /// line to show.
    pub fn with_context(stamp: &str, log_open: bool, agent: bool, extra: Option<String>) -> (r: Self)
        ensures
            r@ == AppView::started(stamp@, log_open, agent, opt(extra)),
    {
        let mut app = PkgApp {
            backend: Backend::new(),
            packages: Vec::new(),
            updates: Vec::new(),
            checked_at: None,
            check_error: None,
            search_results: Vec::new(),
            search_query: String::new(),
            system: SystemInfo::default(),
            view: View::Installed,
            rows: Vec::new(),
            table: TableState::default(),
            dirty: true,
            filter: String::new(),
            log: Vec::new(),
            dialog: None,
            notice_queue: Vec::new(),
            fetch_ms: None,
            details_requested: Vec::new(),
            start: StartUp::default(),
            log_open,
            start_stamp: copy(stamp),
        };
        assert(app@ =~~= (AppView { log_open, ..AppView::fresh(stamp@) }));
        app.push_log(
            stamp,
            copy("package console online :: reading inventory"),
            Level::Good,
        );
        if agent {
            app.push_log(
                stamp,
                copy("agent // interface on :: waiting for a client"),
                Level::Warn,
            );
        }
        if let Some(text) = extra {
            app.push_log(stamp, text, Level::Danger);
        }
        app
    }

    /// The console at the start of the program: the saved check is shown, and the inventory, the
    /// machine and a live check (network) are asked for; the tray does the same on its timer.
    pub fn new(
        stamp: &str,
        log_open: bool,
        agent: bool,
        extra: Option<String>,
        start: StartUp,
        saved: CheckState,
    ) -> (r: (Self, Vec<Effect>))
        ensures
            (r.0@, effects(r.1@)) == (AppView {
                start: start@,
                ..AppView::started(stamp@, log_open, agent, opt(extra))
            }).loads_check(saved@).rereads(),
    {
        let mut app = Self::with_context(stamp, log_open, agent, extra);
        let ghost a = app@;
        app.start = start;
        assert(app@ =~= (AppView { start: start@, ..a }));
        app.load_saved_check(saved);
        let fx = app.reread();
        (app, fx)
    }

    /// The tray's last check (shown until the live check lands).
    pub fn load_saved_check(&mut self, st: CheckState)
        ensures
            final(self)@ == old(self)@.loads_check(st@),
    {
        self.updates = st.updates;
        self.checked_at = st.checked_at;
        self.check_error = st.error;
        apply_updates(&mut self.packages, &self.updates);
        self.dirty = true;
    }

    /// The next notice shown, where no dialog is open.
    pub fn next_notice(&mut self)
        ensures
            final(self)@ == old(self)@.next_notice(),
    {
        if self.dialog.is_none() && self.notice_queue.len() > 0 {
            let ghost before = notices(self.notice_queue@);
            let (success, line) = self.notice_queue.remove(0);
            assert(before[0] == (success, line@));
            assert(notices(self.notice_queue@) =~= before.drop_first());
            self.dialog = Some(
                OpenDialog { state: DialogState::Notice { success, line }, closing: false },
            );
        }
        assert(self@ =~= old(self)@.next_notice());
    }

    /// The rows rebuilt, where that is due.
    pub fn refresh_rows(&mut self)
        ensures
            final(self)@ == old(self)@.refreshed(),
    {
        if self.dirty {
            self.rebuild_rows();
        }
    }

    /// What happens before a frame is painted: the requests of later launches and the messages of
    /// the workers are acted on, the rows are rebuilt where that is due, and the next notice is
    /// shown where no dialog is open.
    pub fn begin_frame(
        &mut self,
        reqs: &Vec<Request>,
        msgs: Vec<Msg>,
        stamp: &str,
        now: u64,
        tools: &Tools,
    ) -> (r: Vec<Effect>)
        ensures
            (final(self)@, effects(r@)) == old(self)@.begins_frame(
                requests(reqs@),
                messages(msgs@),
                stamp@,
                now,
                tools@,
            ),
    {
        let mut fx = self.poll_instance(reqs, tools);
        let mut more = self.poll(msgs, stamp, now, tools);
        let ghost a = effects(fx@);
        let ghost b = effects(more@);
        fx.append(&mut more);
        assert(effects(fx@) =~= a + b);
        self.refresh_rows();
        self.next_notice();
        fx
    }

    /// The dialog has left the screen.
    pub fn dialog_finished(&mut self)
        ensures
            final(self)@ == (AppView { dialog: None, ..old(self)@ }),
    {
        self.dialog = None;
    }
}

// ------------------------------------------------------------------ keys

/// The keys that were pressed in a frame.
#[derive(Clone, Copy, Debug, PartialEq, Eq, Structural)]
pub struct Keys {
    /// Ctrl (or Cmd) is held.
    pub command: bool,
    pub comma: bool,
    pub r: bool,
    pub u: bool,
    pub one: bool,
    pub two: bool,
    pub three: bool,
    pub four: bool,
    pub five: bool,
    pub six: bool,
    pub down: bool,
    pub up: bool,
    pub enter: bool,
    pub backspace: bool,
    /// A text field has the focus: the keys without Ctrl belong to it.
    pub focused: bool,
}

/// One action, or none.
pub open spec fn when(b: bool, a: ActionView) -> Seq<ActionView> {
    if b {
        seq![a]
    } else {
        Seq::empty()
    }
}

/// The row that an arrow key goes to, from the selected one, among `len` rows.
pub open spec fn next_row(selected: Option<usize>, down: bool, len: int) -> int {
    match selected {
        Some(p) => {
            let q = if down {
                p + 1
            } else if p > 0 {
                p - 1
            } else {
                0
            };
            if q < len {
                q
            } else {
                len - 1
            }
        },
        None => 0,
    }
}

impl AppView {
    /// The actions of the keys with Ctrl.
    pub open spec fn command_keys(self, k: Keys) -> Seq<ActionView> {
        when(k.comma, ActionView::OpenSettings) + when(k.r, ActionView::Refresh) + when(
            k.u,
            ActionView::Check,
        ) + when(k.one, ActionView::SetView(View::Installed)) + when(
            k.two,
            ActionView::SetView(View::Explicit),
        ) + when(k.three, ActionView::SetView(View::Updates)) + when(
            k.four,
            ActionView::SetView(View::Foreign),
        ) + when(k.five, ActionView::SetView(View::Orphans)) + when(
            k.six,
            ActionView::SetView(View::Search),
        )
    }

    /// The actions of the keys that act on the listing.
    pub open spec fn list_keys(self, k: Keys) -> Seq<ActionView> {
        let arrow = when(
            (k.down || k.up) && self.rows.len() > 0,
            ActionView::Select(
                Some(next_row(self.table.selected, k.down, self.rows.len() as int) as usize),
            ),
        );
        match self.selected_package() {
            Some(p) => arrow + when(k.enter && p.url.len() > 0, ActionView::Homepage(p.url))
                + when(k.command && k.backspace && p.installed, ActionView::Remove(p.name)),
            None => arrow,
        }
    }

    /// The actions of the keys: none while a dialog is open.
    pub open spec fn key_actions(self, k: Keys) -> Seq<ActionView> {
        if self.dialog is Some {
            Seq::empty()
        } else {
            (if k.command {
                self.command_keys(k)
            } else {
                Seq::empty()
            }) + (if k.focused {
                Seq::empty()
            } else {
                self.list_keys(k)
            })
        }
    }
}

fn push_action(v: &mut Vec<Action>, b: bool, a: Action)
    ensures
        actions(final(v)@) == actions(old(v)@) + when(b, a@),
{
    let ghost before = actions(v@);
    if b {
        v.push(a);
        assert(actions(v@) =~= before + seq![a@]);
    } else {
        assert(actions(v@) =~= before + Seq::empty());
    }
}

impl PkgApp {
    fn command_keys(&self, k: Keys) -> (r: Vec<Action>)
        ensures
            actions(r@) == self@.command_keys(k),
    {
        let mut out: Vec<Action> = Vec::new();
        push_action(&mut out, k.comma, Action::OpenSettings);
        push_action(&mut out, k.r, Action::Refresh);
        push_action(&mut out, k.u, Action::Check);
        push_action(&mut out, k.one, Action::SetView(View::Installed));
        push_action(&mut out, k.two, Action::SetView(View::Explicit));
        push_action(&mut out, k.three, Action::SetView(View::Updates));
        push_action(&mut out, k.four, Action::SetView(View::Foreign));
        push_action(&mut out, k.five, Action::SetView(View::Orphans));
        push_action(&mut out, k.six, Action::SetView(View::Search));
        assert(actions(out@) =~= self@.command_keys(k));
        out
    }

    fn list_keys(&self, k: Keys) -> (r: Vec<Action>)
        ensures
            actions(r@) == self@.list_keys(k),
    {
        let mut out: Vec<Action> = Vec::new();
        let len: usize = self.rows.len();
        assert(self@.rows.len() == len);
        if (k.down || k.up) && len > 0 {
            let next: usize = match self.table.selected {
                Some(p) => {
                    if k.down {
                        if p < len - 1 {
                            p + 1
                        } else {
                            len - 1
                        }
                    } else if p == 0 {
                        0
                    } else if p - 1 < len {
                        p - 1
                    } else {
                        len - 1
                    }
                },
                None => 0,
            };
            out.push(Action::Select(Some(next)));
        }
        let ghost arrow = actions(out@);
        assert(arrow =~= when(
            (k.down || k.up) && self@.rows.len() > 0,
            ActionView::Select(
                Some(next_row(self@.table.selected, k.down, self@.rows.len() as int) as usize),
            ),
        ));
        if let Some(p) = self.selected_package() {
            push_action(
                &mut out,
                k.enter && chars_of(p.url.as_str()).len() > 0,
                Action::Homepage(p.url.clone()),
            );
            push_action(
                &mut out,
                k.command && k.backspace && p.installed,
                Action::Remove(p.name.clone()),
            );
        }
        out
    }

    /// The actions of the keys that were pressed: none while a dialog is open.
    pub fn handle_keys(&self, k: Keys) -> (r: Vec<Action>)
        ensures
            actions(r@) == self@.key_actions(k),
    {
        let mut out: Vec<Action> = Vec::new();
        assert(actions(out@) =~= Seq::empty());
        if self.dialog.is_some() {
            return out;
        }
        if k.command {
            out = self.command_keys(k);
        }
        let ghost first = actions(out@);
        let mut more: Vec<Action> = Vec::new();
        assert(actions(more@) =~= Seq::empty());
        if !k.focused {
            more = self.list_keys(k);
        }
        let ghost second = actions(more@);
        out.append(&mut more);
        assert(actions(out@) =~= first + second);
        out
    }
}

// ------------------------------------------------------------------ development hooks

impl AppView {
    /// The dialog that a development hook asks for: the notices it adds, and the actions.
    pub open spec fn dev_dialog(self, kind: Seq<char>) -> (AppView, Seq<ActionView>) {
        let first = seq![ActionView::Select(Some(0usize))];
        let name = if self.packages.len() > 0 {
            self.packages[0].name
        } else {
            Seq::empty()
        };
        if kind == "install"@ {
            (self, first.push(ActionView::Install(name, false)))
        } else if kind == "remove"@ {
            (self, first.push(ActionView::Remove(name)))
        } else if kind == "upgrade"@ {
            (self, first.push(ActionView::UpgradeAll))
        } else if kind == "run-upgrade"@ {
            (self, first.push(ActionView::UpgradeAll).push(ActionView::ConfirmDialog))
        } else if kind == "error"@ {
            (AppView { notices: self.notices.push((false, "UPGRADE // ALL"@)), ..self }, first)
        } else if kind == "success"@ {
            (AppView { notices: self.notices.push((true, "UPGRADE // ALL"@)), ..self }, first)
        } else {
            (self, first)
        }
    }
}

impl PkgApp {
    /// `FUIDE_DEV_DIALOG=install|remove|upgrade|run-upgrade|error|success`.
    pub fn dev_dialog_state(&mut self, kind: &str) -> (r: Vec<Action>)
        ensures
            (final(self)@, actions(r@)) == old(self)@.dev_dialog(kind@),
    {
        let mut out: Vec<Action> = Vec::new();
        out.push(Action::Select(Some(0)));
        let name = if self.packages.len() > 0 {
            assert(self@.packages[0] == self.packages@[0]@);
            self.packages[0].name.clone()
        } else {
            String::new()
        };
        assert(self@.packages.len() == self.packages@.len());
        if same_str(kind, "install") {
            out.push(Action::Install(name, false));
        } else if same_str(kind, "remove") {
            out.push(Action::Remove(name));
        } else if same_str(kind, "upgrade") {
            out.push(Action::UpgradeAll);
        } else if same_str(kind, "run-upgrade") {
            out.push(Action::UpgradeAll);
            out.push(Action::ConfirmDialog);
        } else if same_str(kind, "error") {
            self.notify(false, copy("UPGRADE // ALL"));
        } else if same_str(kind, "success") {
            self.notify(true, copy("UPGRADE // ALL"));
        }
        assert(actions(out@) =~= old(self)@.dev_dialog(kind@).1);
        out
    }
}

/// The font file and face that the lines of a font query name: the first line, and the number on
/// the second (0 where there is none).
pub open spec fn named_font(lines: Seq<Seq<char>>) -> Option<(Seq<char>, u32)> {
    if lines.len() == 0 {
        None
    } else {
        Some(
            (
                trimmed(lines[0]),
                if lines.len() > 1 {
                    match crate::pacman::u32_of(trimmed(lines[1])) {
                        Some(n) => n,
                        None => 0,
                    }
                } else {
                    0
                },
            ),
        )
    }
}

/// The font file and face that a font query printed.
pub fn fallback_font(report: &[u8]) -> (r: Option<(String, u32)>)
    ensures
        match r {
            Some((file, index)) => named_font(lines_of(lossy(report@))) == Some((file@, index)),
            None => named_font(lines_of(lossy(report@))) is None,
        },
{
    let text = from_utf8_lossy(report);
    let cs = chars_of(text.as_str());
    let ls = lines(&cs);
    let ghost all = slices(ls@);
    assert(all.len() == ls@.len());
    if ls.len() == 0 {
        return None;
    }
    assert(all[0] == ls@[0]@);
    let mut index: u32 = 0;
    if ls.len() > 1 {
        assert(all[1] == ls@[1]@);
        if let Some(n) = crate::num::parse_u32(trim(ls[1])) {
            index = n;
        }
    }
    Some((string_of(trim(ls[0])), index))
}

// ------------------------------------------------------------------ the agent interface

/// Some events, a line each.
pub open spec fn log_lines(log: Seq<EventView>) -> Seq<char>
    decreases log.len(),
{
    if log.len() == 0 {
        Seq::empty()
    } else {
        log_lines(log.drop_last()) + ("  "@ + log.last().time + " "@ + log.last().text + "\n"@)
    }
}

impl AppView {
    /// The line on the selected package.
    pub open spec fn selected_line(self) -> Seq<char> {
        match self.selected_package() {
            Some(p) => "selected: "@ + p.name + " "@ + p.version + " ("@ + p.repo + ") :: "@
                + status(p).word() + (match p.latest {
                Some(l) => " -> "@ + l,
                None => Seq::empty(),
            }) + "\n"@,
            None => "selected: none\n"@,
        }
    }

    /// The line on the running command.
    pub open spec fn running_line(self) -> Seq<char> {
        match self.backend.running {
            Some(j) => "running: "@ + j.label + " ("@ + j.command_line() + ")\n"@,
            None => Seq::empty(),
        }
    }

    /// The line on the open dialog, `title` being its title in upper case.
    pub open spec fn dialog_line(self, title: Seq<char>) -> Seq<char> {
        match self.dialog {
            Some(d) => if d.closing {
                Seq::empty()
            } else {
                match d.state {
                    DialogStateView::Confirm(c) => "dialog: CONFIRM "@ + title + " :: "@ + c.line
                        + " :: "@ + c.job.command_line() + " :: buttons CANCEL / "@ + c.verb
                        + "\n"@,
                    DialogStateView::Notice { success, line } => "dialog: "@ + (if success {
                        "SUCCESS"@
                    } else {
                        "ERROR"@
                    }) + " :: "@ + line + " :: press ACKNOWLEDGE\n"@,
                }
            },
            None => Seq::empty(),
        }
    }

    /// The title of the open confirmation.
    pub open spec fn dialog_title(self) -> Seq<char> {
        match self.dialog {
            Some(d) => match d.state {
                DialogStateView::Confirm(c) => c.title,
                _ => Seq::empty(),
            },
            None => Seq::empty(),
        }
    }

    /// The state as the agent reads it, given the view's name and the dialog's title in upper
    /// case and the filter in quotes.
    pub open spec fn agent_text(
        self,
        view: Seq<char>,
        filter: Seq<char>,
        title: Seq<char>,
    ) -> Seq<char> {
        let n = if self.log.len() > 8 {
            self.log.len() - 8
        } else {
            0
        };
        "view: "@ + view + " :: rows: "@ + decimal(self.rows.len()) + " :: filter: "@ + filter
            + " :: pending updates: "@ + decimal(self.updates.len()) + "\n"@ + self.selected_line()
            + self.running_line() + self.dialog_line(title) + "log (latest last):\n"@ + log_lines(
            self.log.skip(n),
        )
    }
}

impl PkgApp {
    /// While a confirmation is open and the agent may not confirm, its verb is human-only.
    pub fn agent_blocked(&self, agent_confirm: bool) -> (r: Vec<String>)
        ensures
            texts(r@) == match self@.dialog {
                Some(DialogView { state: DialogStateView::Confirm(c), closing: false }) => {
                    if agent_confirm {
                        Seq::empty()
                    } else {
                        seq![c.verb]
                    }
                },
                _ => Seq::empty(),
            },
    {
        let mut out: Vec<String> = Vec::new();
        assert(texts(out@) =~= Seq::empty());
        if let Some(d) = &self.dialog {
            if let DialogState::Confirm(c) = &d.state {
                if !d.closing && !agent_confirm {
                    push_copy(&mut out, c.verb.as_str());
                    assert(texts(out@) =~= seq![c.verb@]);
                }
            }
        }
        out
    }

    fn selected_line(&self) -> (r: String)
        ensures
            r@ == self@.selected_line(),
    {
        match self.selected_package() {
            Some(p) => {
                let mut s = copy("selected: ");
                s.push_str(p.name.as_str());
                s.push_str(" ");
                s.push_str(p.version.as_str());
                s.push_str(" (");
                s.push_str(p.repo.as_str());
                s.push_str(") :: ");
                s.push_str(status_of(p).tag());
                let mut more = String::new();
                if let Some(l) = &p.latest {
                    more = copy(" -> ");
                    more.push_str(l.as_str());
                }
                s.push_str(more.as_str());
                s.push_str("\n");
                s
            },
            None => copy("selected: none\n"),
        }
    }

    fn running_line(&self) -> (r: String)
        ensures
            r@ == self@.running_line(),
    {
        match self.backend.running() {
            Some(j) => {
                let mut s = copy("running: ");
                s.push_str(j.label.as_str());
                s.push_str(" (");
                s.push_str(j.command_line().as_str());
                s.push_str(")\n");
                s
            },
            None => String::new(),
        }
    }

    fn dialog_line(&self, title: &str) -> (r: String)
        ensures
            r@ == self@.dialog_line(title@),
    {
        match &self.dialog {
            Some(d) => if d.closing {
                String::new()
            } else {
                match &d.state {
                    DialogState::Confirm(c) => {
                        let mut s = copy("dialog: CONFIRM ");
                        s.push_str(title);
                        s.push_str(" :: ");
                        s.push_str(c.line.as_str());
                        s.push_str(" :: ");
                        s.push_str(c.job.command_line().as_str());
                        s.push_str(" :: buttons CANCEL / ");
                        s.push_str(c.verb.as_str());
                        s.push_str("\n");
                        s
                    },
                    DialogState::Notice { success, line } => {
                        let mut s = copy("dialog: ");
                        s.push_str(
                            if *success {
                                "SUCCESS"
                            } else {
                                "ERROR"
                            },
                        );
                        s.push_str(" :: ");
                        s.push_str(line.as_str());
                        s.push_str(" :: press ACKNOWLEDGE\n");
                        s
                    },
                }
            },
            None => String::new(),
        }
    }

    fn log_tail(&self) -> (r: String)
        ensures
            r@ == log_lines(
                self@.log.skip(
                    if self@.log.len() > 8 {
                        self@.log.len() - 8
                    } else {
                        0
                    },
                ),
            ),
    {
        let start: usize = self.log.len().saturating_sub(8);
        let ghost tail = self@.log.skip(start as int);
        let mut s = String::new();
        let mut i: usize = start;
        assert(tail.take(0) =~= Seq::empty());
        while i < self.log.len()
            invariant
                start <= i <= self.log.len(),
                tail == events(self.log@).skip(start as int),
                s@ == log_lines(tail.take(i - start)),
            decreases self.log.len() - i,
        {
            assert(tail.take(i + 1 - start).drop_last() =~= tail.take(i - start));
            assert(tail.take(i + 1 - start).last() == self.log@[i as int]@);
            let mut l = copy("  ");
            l.push_str(self.log[i].time.as_str());
            l.push_str(" ");
            l.push_str(self.log[i].text.as_str());
            l.push_str("\n");
            s.push_str(l.as_str());
            i += 1;
        }
        assert(tail.take(tail.len() as int) =~= tail);
        s
    }

    /// The state as the agent reads it, given the view's name and the dialog's title in upper
    /// case and the filter in quotes.
    pub fn agent_state_for(&self, view: &str, filter: &str, title: &str) -> (r: String)
        ensures
            r@ == self@.agent_text(view@, filter@, title@),
    {
        assert(self@.rows.len() == self.rows@.len());
        assert(self@.updates.len() == self.updates@.len());
        let mut s = copy("view: ");
        s.push_str(view);
        s.push_str(" :: rows: ");
        s.push_str(to_decimal(self.rows.len() as u64).as_str());
        s.push_str(" :: filter: ");
        s.push_str(filter);
        s.push_str(" :: pending updates: ");
        s.push_str(to_decimal(self.updates.len() as u64).as_str());
        s.push_str("\n");
        s.push_str(self.selected_line().as_str());
        s.push_str(self.running_line().as_str());
        s.push_str(self.dialog_line(title).as_str());
        s.push_str("log (latest last):\n");
        s.push_str(self.log_tail().as_str());
        s
    }

    /// The state as the agent reads it.
    pub fn agent_state(&self) -> (r: String)
        ensures
            r@ == self@.agent_text(
                uppercase(self@.view.name()),
                debug_text(self@.filter),
                uppercase(self@.dialog_title()),
            ),
    {
        let title = match &self.dialog {
            Some(d) => match &d.state {
                DialogState::Confirm(c) => c.title.clone(),
                _ => String::new(),
            },
            None => String::new(),
        };
        self.agent_state_for(
            to_uppercase(self.view.label()).as_str(),
            to_debug(self.filter.as_str()).as_str(),
            to_uppercase(title.as_str()).as_str(),
        )
    }
}

/// What the log says when the settings have changed.
pub fn settings_line(
    palette: &str,
    chamfer: bool,
    compact: bool,
    transparent: bool,
    agent: bool,
    agent_confirm: bool,
) -> (r: String)
    ensures
        r@ == "settings // palette "@ + palette@ + " :: "@ + (if chamfer {
            "chamfer"@
        } else {
            "square"@
        }) + " :: "@ + (if compact {
            "compact"@
        } else {
            "normal"@
        }) + " :: "@ + (if transparent {
            "translucent"@
        } else {
            "opaque"@
        }) + " :: agent "@ + (if agent {
            "on"@
        } else {
            "off"@
        }) + (if agent && agent_confirm {
            " (may confirm)"@
        } else {
            ""@
        }),
{
    let mut s = copy("settings // palette ");
    s.push_str(palette);
    s.push_str(" :: ");
    s.push_str(
        if chamfer {
            "chamfer"
        } else {
            "square"
        },
    );
    s.push_str(" :: ");
    s.push_str(
        if compact {
            "compact"
        } else {
            "normal"
        },
    );
    s.push_str(" :: ");
    s.push_str(
        if transparent {
            "translucent"
        } else {
            "opaque"
        },
    );
    s.push_str(" :: agent ");
    s.push_str(
        if agent {
            "on"
        } else {
            "off"
        },
    );
    s.push_str(
        if agent && agent_confirm {
            " (may confirm)"
        } else {
            ""
        },
    );
    s
}

} // verus!
