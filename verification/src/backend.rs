//! The work behind the window: inventory, update checks, searches and detail lookups run off the
//! UI thread and come back as [`Msg`]. Mutating commands (`pkexec pacman …`, the AUR helper) run
//! non-interactively, their output streamed line by line into the event log; root authentication
//! is polkit's job (the desktop shows its own dialog).
//!
//! [`Backend`] keeps what is in flight and decides what may start; the application starts it and
//! hands the messages back.

use crate::pacman::{
    copy_upgrades, hits, packages, upgrades, HitView, Package, PackageView, SearchHit, Upgrade,
    UpgradeView,
};
use crate::state::{CheckState, StateView};
use crate::text::{
    chars_of, copies, copy, file_name, file_name_of, join, joined, opt, same, same_str,
    starts_with, string_of, texts, trim_end, trimmed_end,
};
use vstd::prelude::*;
use vstd::slice::slice_subrange;

verus! {

/// What is known of the machine.
#[derive(Debug, PartialEq)]
pub struct SystemInfo {
    pub kernel: String,
    pub reboot_required: bool,
    /// The size of the package cache, as shown: `1.3 GiB`.
    pub cache_size: Option<String>,
    pub cache_candidates: Option<u32>,
    pub last_sync: Option<u64>,
    pub aur_helper: Option<String>,
    /// `pkexec` (or the override); `None` = no polkit, root commands are refused.
    pub privilege: Option<String>,
    pub checkupdates: bool,
    pub tray_running: bool,
}

/// The model of a [`SystemInfo`].
#[verifier::ext_equal]
pub struct SystemView {
    pub kernel: Seq<char>,
    pub reboot_required: bool,
    pub cache_size: Option<Seq<char>>,
    pub cache_candidates: Option<u32>,
    pub last_sync: Option<u64>,
    pub aur_helper: Option<Seq<char>>,
    pub privilege: Option<Seq<char>>,
    pub checkupdates: bool,
    pub tray_running: bool,
}

impl View for SystemInfo {
    type V = SystemView;

    open spec fn view(&self) -> SystemView {
        SystemView {
            kernel: self.kernel@,
            reboot_required: self.reboot_required,
            cache_size: opt(self.cache_size),
            cache_candidates: self.cache_candidates,
            last_sync: self.last_sync,
            aur_helper: opt(self.aur_helper),
            privilege: opt(self.privilege),
            checkupdates: self.checkupdates,
            tray_running: self.tray_running,
        }
    }
}

impl SystemView {
    /// Nothing is known yet.
    pub open spec fn unknown() -> SystemView {
        SystemView {
            kernel: Seq::empty(),
            reboot_required: false,
            cache_size: None,
            cache_candidates: None,
            last_sync: None,
            aur_helper: None,
            privilege: None,
            checkupdates: false,
            tray_running: false,
        }
    }
}

impl Default for SystemInfo {
    fn default() -> (r: Self)
        ensures
            r@ == SystemView::unknown(),
    {
        SystemInfo {
            kernel: String::new(),
            reboot_required: false,
            cache_size: None,
            cache_candidates: None,
            last_sync: None,
            aur_helper: None,
            privilege: None,
            checkupdates: false,
            tray_running: false,
        }
    }
}

/// The name by which the AUR helper is shown: its file name, else the whole path.
pub open spec fn helper_label(helper: Option<Seq<char>>) -> Option<Seq<char>> {
    match helper {
        Some(h) => Some(shown_name(h)),
        None => None,
    }
}

/// The file name of a path, else the whole path.
pub open spec fn shown_name(path: Seq<char>) -> Seq<char> {
    match file_name_of(path) {
        Some(n) => n,
        None => path,
    }
}

/// The file name of a path, else the whole path.
pub fn short_name(path: &str) -> (r: String)
    ensures
        r@ == shown_name(path@),
{
    let cs = chars_of(path);
    match file_name(&cs) {
        Some(n) => string_of(n),
        None => copy(path),
    }
}

/// What the probes of the machine found, put together. `kernel` is the running kernel and whether
/// a reboot is due; `tray_pids` is what the search for the applet's process printed.
pub fn system_info(
    kernel: (String, bool),
    cache_size: Option<String>,
    cache_candidates: Option<u32>,
    last_sync: Option<u64>,
    helper: Option<String>,
    privilege: Option<String>,
    checkupdates: bool,
    tray_pids: &[u8],
) -> (r: SystemInfo)
    ensures
        r@ == (SystemView {
            kernel: kernel.0@,
            reboot_required: kernel.1,
            cache_size: opt(cache_size),
            cache_candidates,
            last_sync,
            aur_helper: helper_label(opt(helper)),
            privilege: opt(privilege),
            checkupdates,
            tray_running: tray_pids@.len() > 0,
        }),
{
    let aur_helper = match helper {
        Some(h) => Some(short_name(h.as_str())),
        None => None,
    };
    SystemInfo {
        kernel: kernel.0,
        reboot_required: kernel.1,
        cache_size,
        cache_candidates,
        last_sync,
        aur_helper,
        privilege,
        checkupdates,
        tray_running: tray_pids.len() > 0,
    }
}

/// A command that changes the system: what to run and how to label it in the log.
#[derive(Debug, PartialEq, Eq)]
pub struct Job {
    pub label: String,
    pub program: String,
    pub args: Vec<String>,
}

/// The model of a [`Job`].
#[verifier::ext_equal]
pub struct JobView {
    pub label: Seq<char>,
    pub program: Seq<char>,
    pub args: Seq<Seq<char>>,
}

impl View for Job {
    type V = JobView;

    open spec fn view(&self) -> JobView {
        JobView { label: self.label@, program: self.program@, args: texts(self.args@) }
    }
}

impl Clone for Job {
    fn clone(&self) -> (r: Self)
        ensures
            r@ == self@,
    {
        Job {
            label: self.label.clone(),
            program: self.program.clone(),
            args: copies(&self.args),
        }
    }
}

/// An argument as shown: absolute paths by their file names.
pub open spec fn shown_arg(a: Seq<char>) -> Seq<char> {
    if "/"@.is_prefix_of(a) {
        shown_name(a)
    } else {
        a
    }
}

impl JobView {
    /// The command line as shown.
    pub open spec fn command_line(self) -> Seq<char> {
        trimmed_end(
            shown_name(self.program) + " "@ + joined(
                self.args.map_values(|a: Seq<char>| shown_arg(a)),
                " "@,
            ),
        )
    }
}

impl Job {
    /// The command line, with programs and files by their names alone.
    pub fn command_line(&self) -> (r: String)
        ensures
            r@ == self@.command_line(),
    {
        let mut args: Vec<String> = Vec::new();
        let mut i: usize = 0;
        while i < self.args.len()
            invariant
                i <= self.args.len(),
                args.len() == i,
                forall|j: int| 0 <= j < i ==> (#[trigger] args@[j])@ == shown_arg(self.args@[j]@),
            decreases self.args.len() - i,
        {
            let a = self.args[i].as_str();
            if starts_with(&chars_of(a), "/") {
                args.push(short_name(a));
            } else {
                args.push(copy(a));
            }
            i += 1;
        }
        assert(texts(args@) =~= self@.args.map_values(|a: Seq<char>| shown_arg(a)));
        let mut out = short_name(self.program.as_str());
        out.push_str(" ");
        out.push_str(join(&args, " ").as_str());
        let cs = chars_of(out.as_str());
        string_of(trim_end(&cs))
    }
}

/// What the workers report. Elapsed times are texts: measuring them is the application's part.
#[derive(Debug)]
pub enum Msg {
    /// `pacman -Qi` (+ foreign / orphan marks). Elapsed ms.
    Inventory(Result<Vec<Package>, String>, String),
    /// `checkupdates` + `<helper> -Qua`; the state file has been rewritten.
    Check(Result<Vec<Upgrade>, String>),
    Search { query: String, result: Result<Vec<SearchHit>, String> },
    /// `-Si` details for packages that are not installed (search results).
    Details(Result<Vec<Package>, String>),
    System(SystemInfo),
    /// One line of output from the running job.
    Line { text: String, stderr: bool },
    /// The running job finished.
    Exit { label: String, ok: bool, code: Option<i32>, elapsed: String },
}

/// The model of a [`Msg`].
#[verifier::ext_equal]
pub enum MsgView {
    Inventory(Result<Seq<PackageView>, Seq<char>>, Seq<char>),
    Check(Result<Seq<UpgradeView>, Seq<char>>),
    Search { query: Seq<char>, result: Result<Seq<HitView>, Seq<char>> },
    Details(Result<Seq<PackageView>, Seq<char>>),
    System(SystemView),
    Line { text: Seq<char>, stderr: bool },
    Exit { label: Seq<char>, ok: bool, code: Option<i32>, elapsed: Seq<char> },
}

impl View for Msg {
    type V = MsgView;

    open spec fn view(&self) -> MsgView {
        match self {
            Msg::Inventory(r, ms) => MsgView::Inventory(
                match r {
                    Ok(v) => Ok(packages(v@)),
                    Err(e) => Err(e@),
                },
                ms@,
            ),
            Msg::Check(r) => MsgView::Check(
                match r {
                    Ok(v) => Ok(upgrades(v@)),
                    Err(e) => Err(e@),
                },
            ),
            Msg::Search { query, result } => MsgView::Search {
                query: query@,
                result: match result {
                    Ok(v) => Ok(hits(v@)),
                    Err(e) => Err(e@),
                },
            },
            Msg::Details(r) => MsgView::Details(
                match r {
                    Ok(v) => Ok(packages(v@)),
                    Err(e) => Err(e@),
                },
            ),
            Msg::System(s) => MsgView::System(s@),
            Msg::Line { text, stderr } => MsgView::Line { text: text@, stderr: *stderr },
            Msg::Exit { label, ok, code, elapsed } => MsgView::Exit {
                label: label@,
                ok: *ok,
                code: *code,
                elapsed: elapsed@,
            },
        }
    }
}

/// The views of some messages.
pub open spec fn messages(v: Seq<Msg>) -> Seq<MsgView> {
    v.map_values(|m: Msg| m@)
}

// ------------------------------------------------------------------ what is in flight

/// What is in flight.
#[derive(Debug)]
pub struct Backend {
    fetching: bool,
    checking: bool,
    searching: Option<String>,
    details_pending: usize,
    system_pending: usize,
    running: Option<Job>,
}

/// The model of a [`Backend`]. The two counts stop at `usize::MAX`.
#[verifier::ext_equal]
pub struct BackendView {
    pub fetching: bool,
    pub checking: bool,
    pub searching: Option<Seq<char>>,
    pub details_pending: int,
    pub system_pending: int,
    pub running: Option<JobView>,
}

impl View for Backend {
    type V = BackendView;

    closed spec fn view(&self) -> BackendView {
        BackendView {
            fetching: self.fetching,
            checking: self.checking,
            searching: opt(self.searching),
            details_pending: self.details_pending as int,
            system_pending: self.system_pending as int,
            running: match self.running {
                Some(j) => Some(j@),
                None => None,
            },
        }
    }
}

impl BackendView {
    /// Nothing is in flight.
    pub open spec fn idle() -> BackendView {
        BackendView {
            fetching: false,
            checking: false,
            searching: None,
            details_pending: 0,
            system_pending: 0,
            running: None,
        }
    }

    /// Something is in flight.
    pub open spec fn busy(self) -> bool {
        ||| self.fetching
        ||| self.checking
        ||| self.searching is Some
        ||| self.details_pending > 0
        ||| self.system_pending > 0
        ||| self.running is Some
    }

    /// One message has come: what it reports is no longer in flight.
    pub open spec fn settled(self, m: MsgView) -> BackendView {
        match m {
            MsgView::Inventory(..) => BackendView { fetching: false, ..self },
            MsgView::Check(_) => BackendView { checking: false, ..self },
            MsgView::Search { .. } => BackendView { searching: None, ..self },
            MsgView::Details(_) => BackendView {
                details_pending: one_less(self.details_pending),
                ..self
            },
            MsgView::System(_) => BackendView {
                system_pending: one_less(self.system_pending),
                ..self
            },
            MsgView::Line { .. } => self,
            MsgView::Exit { .. } => BackendView { running: None, ..self },
        }
    }

    /// Some messages have come.
    pub open spec fn settled_all(self, m: Seq<MsgView>) -> BackendView
        decreases m.len(),
    {
        if m.len() == 0 {
            self
        } else {
            self.settled_all(m.drop_last()).settled(m.last())
        }
    }

    /// The inventory is being read.
    pub open spec fn with_inventory(self) -> BackendView {
        BackendView { fetching: true, ..self }
    }

    /// The machine is being probed.
    pub open spec fn with_system(self) -> BackendView {
        BackendView { system_pending: one_more(self.system_pending), ..self }
    }

    /// Updates are being checked for.
    pub open spec fn with_check(self) -> BackendView {
        BackendView { checking: true, ..self }
    }
}

/// One less, but not below 0.
pub open spec fn one_less(n: int) -> int {
    if n > 0 {
        n - 1
    } else {
        0
    }
}

/// One more, but not above `usize::MAX`.
pub open spec fn one_more(n: int) -> int {
    if n < usize::MAX {
        n + 1
    } else {
        n
    }
}

impl Default for Backend {
    fn default() -> (r: Self)
        ensures
            r@ == BackendView::idle(),
    {
        Self::new()
    }
}

impl Backend {
    /// Nothing in flight.
    pub fn new() -> (r: Self)
        ensures
            r@ == BackendView::idle(),
    {
        Backend {
            fetching: false,
            checking: false,
            searching: None,
            details_pending: 0,
            system_pending: 0,
            running: None,
        }
    }

    /// Whether the inventory is being read.
    pub fn fetching(&self) -> (r: bool)
        ensures
            r == self@.fetching,
    {
        self.fetching
    }

    /// Whether updates are being checked for.
    pub fn checking(&self) -> (r: bool)
        ensures
            r == self@.checking,
    {
        self.checking
    }

    /// The query of the search that is under way.
    pub fn searching(&self) -> (r: Option<&str>)
        ensures
            match r {
                Some(q) => self@.searching == Some(q@),
                None => self@.searching is None,
            },
    {
        match &self.searching {
            Some(q) => Some(q.as_str()),
            None => None,
        }
    }

    /// The command that is running.
    pub fn running(&self) -> (r: Option<&Job>)
        ensures
            match r {
                Some(j) => self@.running == Some(j@),
                None => self@.running is None,
            },
    {
        match &self.running {
            Some(j) => Some(j),
            None => None,
        }
    }

    /// Anything in flight.
    pub fn busy(&self) -> (r: bool)
        ensures
            r == self@.busy(),
    {
        self.fetching || self.checking || self.searching.is_some() || self.details_pending > 0
            || self.system_pending > 0 || self.running.is_some()
    }

    /// A message has come: what it reports is no longer in flight.
    pub fn settle(&mut self, m: &Msg)
        ensures
            final(self)@ == old(self)@.settled(m@),
    {
        match m {
            Msg::Inventory(..) => {
                self.fetching = false;
            },
            Msg::Check(_) => {
                self.checking = false;
            },
            Msg::Search { .. } => {
                self.searching = None;
            },
            Msg::Details(_) => {
                self.details_pending = self.details_pending.saturating_sub(1);
            },
            Msg::System(_) => {
                self.system_pending = self.system_pending.saturating_sub(1);
            },
            Msg::Line { .. } => {},
            Msg::Exit { .. } => {
                self.running = None;
            },
        }
    }

    /// All the messages that have come are settled, before any of them is acted on.
    pub fn poll(&mut self, msgs: &Vec<Msg>)
        ensures
            final(self)@ == old(self)@.settled_all(messages(msgs@)),
    {
        let ghost start = self@;
        let ghost all = messages(msgs@);
        let mut i: usize = 0;
        while i < msgs.len()
            invariant
                i <= msgs.len(),
                all == messages(msgs@),
                self@ == start.settled_all(all.take(i as int)),
            decreases msgs.len() - i,
        {
            assert(all.take(i + 1).drop_last() =~= all.take(i as int));
            assert(all.take(i + 1).last() == msgs@[i as int]@);
            self.settle(&msgs[i]);
            i += 1;
        }
        assert(all.take(all.len() as int) =~= all);
    }

    /// Read the installed packages (a few hundred ms). Whether to start: not while one read is
    /// under way.
    pub fn fetch_inventory(&mut self) -> (r: bool)
        ensures
            r == !old(self)@.fetching,
            final(self)@ == old(self)@.with_inventory(),
    {
        let go = !self.fetching;
        self.fetching = true;
        go
    }

    /// Repo + AUR update check (network). Whether to start: not while one check is under way.
    pub fn check(&mut self) -> (r: bool)
        ensures
            r == !old(self)@.checking,
            final(self)@ == old(self)@.with_check(),
    {
        let go = !self.checking;
        self.checking = true;
        go
    }

    /// `pacman -Ss` + `<helper> -Ss --aur`. A later search is started too.
    pub fn search(&mut self, query: String)
        ensures
            final(self)@ == (BackendView { searching: Some(query@), ..old(self)@ }),
    {
        self.searching = Some(query);
    }

    /// Details for not-installed packages. Whether to start: only where some are asked for.
    pub fn details(&mut self, repo_names: &Vec<String>, aur_names: &Vec<String>) -> (r: bool)
        ensures
            r == (repo_names@.len() > 0 || aur_names@.len() > 0),
            final(self)@ == (if r {
                BackendView {
                    details_pending: one_more(old(self)@.details_pending),
                    ..old(self)@
                }
            } else {
                old(self)@
            }),
    {
        if repo_names.len() == 0 && aur_names.len() == 0 {
            return false;
        }
        self.details_pending = self.details_pending.saturating_add(1);
        true
    }

    /// Kernel / cache / sync time / helpers (cheap, no network).
    pub fn fetch_system(&mut self)
        ensures
            final(self)@ == old(self)@.with_system(),
    {
        self.system_pending = self.system_pending.saturating_add(1);
    }

    /// Run a mutating command. Returns false, and changes nothing, if one is already running.
    pub fn run(&mut self, job: Job) -> (r: bool)
        ensures
            r == (old(self)@.running is None),
            final(self)@ == (if r {
                BackendView { running: Some(job@), ..old(self)@ }
            } else {
                old(self)@
            }),
    {
        if self.running.is_some() {
            return false;
        }
        self.running = Some(job);
        true
    }
}

// ------------------------------------------------------------------ results put together

/// The state after a check: the updates are replaced by a good result and kept on a failure.
pub open spec fn state_after_check(
    st: StateView,
    result: Result<Seq<UpgradeView>, Seq<char>>,
    now: u64,
) -> StateView {
    match result {
        Ok(u) => StateView { updates: u, checked_at: Some(now), error: None },
        Err(e) => StateView { checked_at: Some(now), error: Some(e), ..st },
    }
}

/// The view of a check's result.
pub open spec fn check_result(r: Result<Vec<Upgrade>, String>) -> Result<
    Seq<UpgradeView>,
    Seq<char>,
> {
    match r {
        Ok(v) => Ok(upgrades(v@)),
        Err(e) => Err(e@),
    }
}

/// The shared state after a check at the time `now`.
pub fn after_check(st: CheckState, result: &Result<Vec<Upgrade>, String>, now: u64) -> (r: CheckState)
    ensures
        r@ == state_after_check(st@, check_result(*result), now),
{
    match result {
        Ok(u) => CheckState { updates: copy_upgrades(u), checked_at: Some(now), error: None },
        Err(e) => CheckState { updates: st.updates, checked_at: Some(now), error: Some(e.clone()) },
    }
}

/// The view of a search's result.
pub open spec fn search_result(r: Result<Vec<SearchHit>, String>) -> Result<
    Seq<HitView>,
    Seq<char>,
> {
    match r {
        Ok(v) => Ok(hits(v@)),
        Err(e) => Err(e@),
    }
}

/// Repo hits first, then AUR hits. A failed repo search fails the whole; a failed AUR search only
/// where there are no repo hits to keep.
pub open spec fn merged_hits(
    repo: Result<Seq<HitView>, Seq<char>>,
    aur: Result<Seq<HitView>, Seq<char>>,
) -> Result<Seq<HitView>, Seq<char>> {
    match (repo, aur) {
        (Err(e), _) => Err(e),
        (Ok(r), Ok(a)) => Ok(r + a),
        (Ok(r), Err(e)) => if r.len() == 0 {
            Err(e)
        } else {
            Ok(r)
        },
    }
}

/// The two searches' results in one.
pub fn merge_search(
    repo: Result<Vec<SearchHit>, String>,
    aur: Result<Vec<SearchHit>, String>,
) -> (r: Result<Vec<SearchHit>, String>)
    ensures
        search_result(r) == merged_hits(search_result(repo), search_result(aur)),
{
    let mut found = match repo {
        Ok(v) => v,
        Err(e) => {
            return Err(e);
        },
    };
    match aur {
        Ok(more) => {
            let mut more = more;
            let ghost a = hits(found@);
            let ghost b = hits(more@);
            found.append(&mut more);
            assert(hits(found@) =~= a + b);
        },
        // AUR RPC down: keep the repo hits
        Err(e) => {
            if found.len() == 0 {
                return Err(e);
            }
        },
    }
    Ok(found)
}

/// The view of a detail lookup's result.
pub open spec fn details_result(r: Result<Vec<Package>, String>) -> Result<
    Seq<PackageView>,
    Seq<char>,
> {
    match r {
        Ok(v) => Ok(packages(v@)),
        Err(e) => Err(e@),
    }
}

/// The two lookups' results in one; either failure fails the whole.
pub fn merge_details(
    repo: Result<Vec<Package>, String>,
    aur: Result<Vec<Package>, String>,
) -> (r: Result<Vec<Package>, String>)
    ensures
        details_result(r) == match (details_result(repo), details_result(aur)) {
            (Err(e), _) => Err(e),
            (Ok(_), Err(e)) => Err(e),
            (Ok(a), Ok(b)) => Ok(a + b),
        },
{
    let mut found = match repo {
        Ok(v) => v,
        Err(e) => {
            return Err(e);
        },
    };
    let mut more = match aur {
        Ok(v) => v,
        Err(e) => {
            return Err(e);
        },
    };
    let ghost a = packages(found@);
    let ghost b = packages(more@);
    found.append(&mut more);
    assert(packages(found@) =~= a + b);
    Ok(found)
}

// ------------------------------------------------------------------ output of a command

/// What follows a CSI sequence: everything after its final character, which is the first in
/// `@` … `~`.
pub open spec fn after_csi(s: Seq<char>) -> Seq<char>
    decreases s.len(),
{
    if s.len() == 0 {
        s
    } else if '\x40' <= s[0] <= '\x7e' {
        s.drop_first()
    } else {
        after_csi(s.drop_first())
    }
}

/// `after_csi` leaves a shorter text.
pub proof fn lemma_after_csi(s: Seq<char>)
    ensures
        after_csi(s).len() <= s.len(),
        forall|i: int| 0 <= i < after_csi(s).len() ==> s.contains(#[trigger] after_csi(s)[i]),
    decreases s.len(),
{
    if s.len() > 0 {
        if !('\x40' <= s[0] <= '\x7e') {
            lemma_after_csi(s.drop_first());
        }
        assert forall|i: int| 0 <= i < after_csi(s).len() implies s.contains(
            #[trigger] after_csi(s)[i],
        ) by {
            let c = after_csi(s)[i];
            assert(s.drop_first().contains(c)) by {
                if '\x40' <= s[0] <= '\x7e' {
                    assert(s.drop_first()[i] == c);
                }
            }
            let j = choose|j: int| 0 <= j < s.drop_first().len() && s.drop_first()[j] == c;
            assert(s[j + 1] == c);
        }
    }
}

/// Text without `ESC [ … <letter>` sequences, lone ESC characters and bells.
pub open spec fn stripped(s: Seq<char>) -> Seq<char>
    decreases s.len(),
{
    if s.len() == 0 {
        s
    } else if s[0] == '\x1b' {
        if s.len() > 1 && s[1] == '[' {
            proof {
                lemma_after_csi(s.skip(2));
            }
            stripped(after_csi(s.skip(2)))
        } else {
            stripped(s.drop_first())
        }
    } else if s[0] == '\x07' {
        stripped(s.drop_first())
    } else {
        seq![s[0]] + stripped(s.drop_first())
    }
}

/// The index just after the final character of a CSI sequence whose parameters begin at `from`.
fn skip_csi(s: &[char], from: usize) -> (r: usize)
    requires
        from <= s.len(),
    ensures
        from <= r <= s.len(),
        s@.skip(r as int) == after_csi(s@.skip(from as int)),
{
    let mut i: usize = from;
    while i < s.len()
        invariant
            from <= i <= s.len(),
            after_csi(s@.skip(from as int)) == after_csi(s@.skip(i as int)),
        decreases s.len() - i,
    {
        assert(s@.skip(i as int).drop_first() =~= s@.skip(i + 1));
        let c = s[i];
        i += 1;
        if '\x40' <= c && c <= '\x7e' {
            return i;
        }
    }
    i
}

fn strip(s: &[char]) -> (r: Vec<char>)
    ensures
        r@ == stripped(s@),
{
    let mut out: Vec<char> = Vec::new();
    let mut i: usize = 0;
    assert(s@.skip(0) =~= s@);
    assert(out@ + stripped(s@.skip(0)) =~= stripped(s@));
    while i < s.len()
        invariant
            i <= s.len(),
            out@ + stripped(s@.skip(i as int)) == stripped(s@),
        decreases s.len() - i,
    {
        let c = s[i];
        let ghost rest = s@.skip(i as int);
        assert(rest[0] == c);
        assert(rest.drop_first() =~= s@.skip(i + 1));
        if c == '\x1b' {
            if i + 1 < s.len() && s[i + 1] == '[' {
                assert(rest[1] == '[');
                assert(rest.skip(2) =~= s@.skip(i + 2));
                i = skip_csi(s, i + 2);
            } else {
                assert(rest.len() > 1 ==> rest[1] == s@[i + 1]);
                i += 1;
            }
        } else if c == '\x07' {
            i += 1;
        } else {
            let ghost before = out@;
            out.push(c);
            i += 1;
            assert(out@ + stripped(s@.skip(i as int)) =~= before + (seq![c] + stripped(
                s@.skip(i as int),
            )));
        }
    }
    assert(out@ + stripped(s@.skip(i as int)) =~= out@);
    out
}

/// Drop `ESC [ … <letter>` sequences (makepkg and friends colour their output regardless).
pub fn strip_ansi(s: &str) -> (r: String)
    ensures
        r@ == stripped(s@),
{
    string_of(&strip(&chars_of(s)))
}

/// What follows the last carriage return.
pub open spec fn after_last_cr(s: Seq<char>) -> Seq<char>
    decreases s.len(),
{
    if s.len() == 0 || s.last() == '\r' {
        Seq::empty()
    } else {
        after_last_cr(s.drop_last()).push(s.last())
    }
}

/// A line of output as it goes to the log: the last state of a progress line, without colours and
/// trailing white space.
pub open spec fn output_text(line: Seq<char>) -> Seq<char> {
    trimmed_end(stripped(after_last_cr(line)))
}

/// The text of a line of output for the log; `None` where nothing is left of it.
pub fn output_line(line: &str) -> (r: Option<String>)
    ensures
        opt(r) == (if output_text(line@).len() == 0 {
            None
        } else {
            Some(output_text(line@))
        }),
{
    let s = chars_of(line);
    let n: usize = s.len();
    let mut k: usize = n;
    assert(s@.take(n as int) =~= s@);
    assert(after_last_cr(s@) =~= after_last_cr(s@.take(n as int)) + s@.skip(n as int));
    while k > 0 && s[k - 1] != '\r'
        invariant
            k <= n == s.len(),
            after_last_cr(s@) == after_last_cr(s@.take(k as int)) + s@.skip(k as int),
        decreases k,
    {
        assert(s@.take(k as int).drop_last() =~= s@.take(k - 1));
        assert(after_last_cr(s@.take(k as int)) + s@.skip(k as int) =~= after_last_cr(
            s@.take(k - 1),
        ) + s@.skip(k - 1));
        k -= 1;
    }
    assert(after_last_cr(s@.take(k as int)) =~= Seq::empty());
    assert(after_last_cr(s@) =~= s@.skip(k as int));
    let plain = strip(slice_subrange(&s, k, n));
    let t = trim_end(&plain);
    if t.len() == 0 {
        None
    } else {
        Some(string_of(t))
    }
}

/// What is reported of a command that could not be started.
pub fn spawn_failure(job: &Job, error: &str) -> (r: (Msg, Msg))
    ensures
        r.0@ == (MsgView::Line {
            text: "cannot start "@ + job@.program + ": "@ + error@,
            stderr: true,
        }),
        r.1@ == (MsgView::Exit { label: job@.label, ok: false, code: None, elapsed: "0.0"@ }),
{
    let mut text = copy("cannot start ");
    text.push_str(job.program.as_str());
    text.push_str(": ");
    text.push_str(error);
    (
        Msg::Line { text, stderr: true },
        Msg::Exit { label: job.label.clone(), ok: false, code: None, elapsed: copy("0.0") },
    )
}

/// What is reported of a command that has ended: `status` is whether it succeeded and its exit
/// code, `None` where that could not be learnt.
pub fn finished(job: &Job, status: Option<(bool, Option<i32>)>, elapsed: String) -> (r: Msg)
    ensures
        r@ == (MsgView::Exit {
            label: job@.label,
            ok: match status {
                Some((ok, _)) => ok,
                None => false,
            },
            code: match status {
                Some((_, code)) => code,
                None => None,
            },
            elapsed: elapsed@,
        }),
{
    let (ok, code) = match status {
        Some(s) => s,
        None => (false, None),
    };
    Msg::Exit { label: job.label.clone(), ok, code, elapsed }
}

// ------------------------------------------------------------------ updates into the inventory

/// The new version that the last update of that name states.
pub open spec fn latest_of(updates: Seq<UpgradeView>, name: Seq<char>) -> Option<Seq<char>>
    decreases updates.len(),
{
    if updates.len() == 0 {
        None
    } else if updates.last().name == name {
        Some(updates.last().new)
    } else {
        latest_of(updates.drop_last(), name)
    }
}

/// A package with the newest version that a check knows of.
pub open spec fn with_latest(p: PackageView, updates: Seq<UpgradeView>) -> PackageView {
    PackageView { latest: latest_of(updates, p.name), ..p }
}

/// Packages with the newest versions that a check knows of.
pub open spec fn updated(pkgs: Seq<PackageView>, updates: Seq<UpgradeView>) -> Seq<PackageView> {
    pkgs.map_values(|p: PackageView| with_latest(p, updates))
}

fn find_latest(updates: &Vec<Upgrade>, name: &str) -> (r: Option<String>)
    ensures
        opt(r) == latest_of(upgrades(updates@), name@),
{
    let ghost all = upgrades(updates@);
    let mut i: usize = updates.len();
    assert(all.take(i as int) =~= all);
    while i > 0
        invariant
            i <= updates.len(),
            all == upgrades(updates@),
            latest_of(all, name@) == latest_of(all.take(i as int), name@),
        decreases i,
    {
        assert(all.take(i as int).last() == updates@[i - 1]@);
        assert(all.take(i as int).drop_last() =~= all.take(i - 1));
        if same_str(updates[i - 1].name.as_str(), name) {
            return Some(updates[i - 1].new.clone());
        }
        i -= 1;
    }
    None
}

/// Merge a check result into the inventory: set `latest` on the installed packages.
pub fn apply_updates(pkgs: &mut Vec<Package>, updates: &Vec<Upgrade>)
    ensures
        packages(final(pkgs)@) == updated(packages(old(pkgs)@), upgrades(updates@)),
{
    let ghost before = packages(pkgs@);
    let ghost ups = upgrades(updates@);
    let n: usize = pkgs.len();
    let mut done: Vec<Package> = Vec::new();
    let mut i: usize = 0;
    while i < n
        invariant
            i <= n == pkgs.len(),
            done.len() == i,
            ups == upgrades(updates@),
            before == packages(pkgs@),
            forall|j: int| 0 <= j < i ==> (#[trigger] done@[j])@ == with_latest(before[j], ups),
        decreases n - i,
    {
        let mut p = pkgs[i].clone();
        assert(p@ == before[i as int]);
        p.latest = find_latest(updates, p.name.as_str());
        done.push(p);
        i += 1;
    }
    *pkgs = done;
    assert(packages(pkgs@) =~= updated(before, ups));
}

// ------------------------------------------------------------------ laws

/// Text without escape characters and bells.
pub open spec fn is_clean(s: Seq<char>) -> bool {
    forall|i: int| 0 <= i < s.len() ==> #[trigger] s[i] != '\x1b' && s[i] != '\x07'
}

/// What is left after stripping holds no escape character and no bell.
pub proof fn stripping_leaves_no_escapes(s: Seq<char>)
    ensures
        is_clean(stripped(s)),
    decreases s.len(),
{
    if s.len() > 0 {
        if s[0] == '\x1b' {
            if s.len() > 1 && s[1] == '[' {
                lemma_after_csi(s.skip(2));
                stripping_leaves_no_escapes(after_csi(s.skip(2)));
            } else {
                stripping_leaves_no_escapes(s.drop_first());
            }
        } else {
            stripping_leaves_no_escapes(s.drop_first());
        }
    }
}

/// Text without escapes is left as it is.
pub proof fn stripping_keeps_plain_text(s: Seq<char>)
    requires
        is_clean(s),
    ensures
        stripped(s) == s,
    decreases s.len(),
{
    if s.len() > 0 {
        assert forall|i: int| 0 <= i < s.drop_first().len() implies #[trigger] s.drop_first()[i]
            != '\x1b' && s.drop_first()[i] != '\x07' by {
            assert(s.drop_first()[i] == s[i + 1]);
        }
        stripping_keeps_plain_text(s.drop_first());
        assert(seq![s[0]] + s.drop_first() =~= s);
    }
}

/// Stripping twice is stripping once.
pub proof fn stripping_is_idempotent(s: Seq<char>)
    ensures
        stripped(stripped(s)) == stripped(s),
{
    stripping_leaves_no_escapes(s);
    stripping_keeps_plain_text(stripped(s));
}

proof fn lemma_latest_of(updates: Seq<UpgradeView>, name: Seq<char>)
    ensures
        latest_of(updates, name) is Some <==> exists|i: int|
            0 <= i < updates.len() && (#[trigger] updates[i]).name == name,
    decreases updates.len(),
{
    if updates.len() > 0 {
        lemma_latest_of(updates.drop_last(), name);
        let d = updates.drop_last();
        if updates.last().name == name {
            assert(updates[updates.len() - 1].name == name);
        } else {
            if exists|i: int| 0 <= i < updates.len() && (#[trigger] updates[i]).name == name {
                let i = choose|i: int|
                    0 <= i < updates.len() && (#[trigger] updates[i]).name == name;
                assert(d[i].name == name);
            }
            if latest_of(d, name) is Some {
                let i = choose|i: int| 0 <= i < d.len() && (#[trigger] d[i]).name == name;
                assert(updates[i].name == name);
            }
        }
    }
}

/// After a merge a package is outdated just when the check names it, and nothing else of it has
/// changed.
pub proof fn merged_package_is_outdated_when_named(p: PackageView, updates: Seq<UpgradeView>)
    ensures
        with_latest(p, updates).outdated() <==> exists|i: int|
            0 <= i < updates.len() && (#[trigger] updates[i]).name == p.name,
        (PackageView { latest: p.latest, ..with_latest(p, updates) }) == p,
{
    lemma_latest_of(updates, p.name);
}

/// Merging the same check twice is merging it once, and a later check replaces an earlier one.
pub proof fn later_check_replaces_earlier(
    pkgs: Seq<PackageView>,
    a: Seq<UpgradeView>,
    b: Seq<UpgradeView>,
)
    ensures
        updated(updated(pkgs, a), b) == updated(pkgs, b),
{
    assert(updated(updated(pkgs, a), b) =~= updated(pkgs, b));
}

/// A failed check keeps the updates of the last good one.
pub proof fn failed_check_keeps_updates(st: StateView, e: Seq<char>, now: u64)
    ensures
        state_after_check(st, Err(e), now).updates == st.updates,
        state_after_check(st, Err(e), now).error == Some(e),
{
}

/// Only one command runs at a time: while one is running, what settles without its exit leaves it
/// running.
pub proof fn only_an_exit_ends_the_command(b: BackendView, m: Seq<MsgView>)
    requires
        forall|i: int| 0 <= i < m.len() ==> !(#[trigger] m[i] is Exit),
    ensures
        b.settled_all(m).running == b.running,
    decreases m.len(),
{
    if m.len() > 0 {
        let d = m.drop_last();
        assert forall|i: int| 0 <= i < d.len() implies !(#[trigger] d[i] is Exit) by {
            assert(d[i] == m[i]);
        }
        only_an_exit_ends_the_command(b, d);
        assert(!(m[m.len() - 1] is Exit));
    }
}

} // verus!
