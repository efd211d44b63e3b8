//! Run pacman / an AUR helper (any command) inside a pseudo-terminal.
//!
//! The script expects a real terminal: `read -rp` prompts, `sudo` asking on `/dev/tty`,
//! `column -t` and pacman's progress bars all want one. The application opens the terminal, starts
//! the child on it and reads its output; [`Runner`] decides what may run, with which environment
//! and size, what is written to the child, and what is reported when it cannot be started.

use crate::text::{copies, copy, opt, push_copy, texts};
use vstd::prelude::*;

verus! {

/// What the reader of the terminal reports.
#[derive(Debug, PartialEq, Eq)]
pub enum Msg {
    Output(Vec<u8>),
    Exit {
        label: String,
        args: Vec<String>,
        code: Option<i32>,
        signal: Option<i32>,
        /// Seconds, as shown.
        elapsed: String,
    },
}

/// The model of a [`Msg`].
#[verifier::ext_equal]
pub enum PtyMsgView {
    Output(Seq<u8>),
    Exit {
        label: Seq<char>,
        args: Seq<Seq<char>>,
        code: Option<i32>,
        signal: Option<i32>,
        elapsed: Seq<char>,
    },
}

impl View for Msg {
    type V = PtyMsgView;

    open spec fn view(&self) -> PtyMsgView {
        match self {
            Msg::Output(b) => PtyMsgView::Output(b@),
            Msg::Exit { label, args, code, signal, elapsed } => PtyMsgView::Exit {
                label: label@,
                args: texts(args@),
                code: *code,
                signal: *signal,
                elapsed: elapsed@,
            },
        }
    }
}

/// What is currently running.
#[derive(Debug, PartialEq, Eq)]
pub struct Job {
    pub label: String,
    pub args: Vec<String>,
}

/// The model of a [`Job`].
#[verifier::ext_equal]
pub struct PtyJobView {
    pub label: Seq<char>,
    pub args: Seq<Seq<char>>,
}

impl View for Job {
    type V = PtyJobView;

    open spec fn view(&self) -> PtyJobView {
        PtyJobView { label: self.label@, args: texts(self.args@) }
    }
}

impl Clone for Job {
    fn clone(&self) -> (r: Self)
        ensures
            r@ == self@,
    {
        Job { label: self.label.clone(), args: copies(&self.args) }
    }
}

/// The size of a terminal, in characters.
#[derive(Clone, Copy, Debug, PartialEq, Eq, Structural)]
pub struct Size {
    pub cols: u16,
    pub rows: u16,
}

/// `n`, but not below `low` nor above `high`.
pub open spec fn clamped(n: u16, low: u16, high: u16) -> u16 {
    if n < low {
        low
    } else if n > high {
        high
    } else {
        n
    }
}

/// A size that a terminal may have.
pub open spec fn clamped_size(cols: u16, rows: u16) -> Size {
    Size { cols: clamped(cols, 40, 500), rows: clamped(rows, 8, 200) }
}

/// How the child is started: on a terminal of that size, as leader of a session of its own, with
/// these variables set and removed.
#[derive(Debug, PartialEq, Eq)]
pub struct Launch {
    pub size: Size,
    pub program: String,
    pub label: String,
    pub args: Vec<String>,
    /// Names and values.
    pub set: Vec<(String, String)>,
    pub removed: Vec<String>,
}

/// The model of a [`Launch`].
#[verifier::ext_equal]
pub struct LaunchView {
    pub size: Size,
    pub program: Seq<char>,
    pub label: Seq<char>,
    pub args: Seq<Seq<char>>,
    pub set: Seq<(Seq<char>, Seq<char>)>,
    pub removed: Seq<Seq<char>>,
}

impl View for Launch {
    type V = LaunchView;

    open spec fn view(&self) -> LaunchView {
        LaunchView {
            size: self.size,
            program: self.program@,
            label: self.label@,
            args: texts(self.args@),
            set: self.set@.map_values(|x: (String, String)| (x.0@, x.1@)),
            removed: texts(self.removed@),
        }
    }
}

/// The environment of a child: a colour terminal whose size is asked from the terminal itself;
/// `english` so that the prompts are the English ones that the dialogs recognise.
pub open spec fn launch_of(
    size: Size,
    program: Seq<char>,
    label: Seq<char>,
    args: Seq<Seq<char>>,
    english: bool,
) -> LaunchView {
    let term = seq![("TERM"@, "xterm-256color"@)];
    LaunchView {
        size,
        program,
        label,
        args,
        set: if english {
            term + seq![("LC_ALL"@, "C.UTF-8"@), ("LANGUAGE"@, ""@)]
        } else {
            term
        },
        removed: seq!["COLUMNS"@, "LINES"@],
    }
}

/// At which step a launch failed.
#[derive(Clone, Copy, Debug, PartialEq, Eq, Structural)]
pub enum Step {
    OpenPty,
    Dup,
    Start,
}

/// Why a launch failed.
pub open spec fn launch_error(step: Step, program: Seq<char>, error: Seq<char>) -> Seq<char> {
    match step {
        Step::OpenPty => "openpty failed: "@ + error,
        Step::Dup => "dup failed: "@ + error,
        Step::Start => "cannot start "@ + program + ": "@ + error,
    }
}

/// A job and the process that does it; its terminal is open as long as there is one.
#[derive(Debug)]
struct Child {
    job: Job,
    pid: i32,
}

/// The runner: at most one child, and the size of its terminal.
#[derive(Debug)]
pub struct Runner {
    child: Option<Child>,
    cols: u16,
    rows: u16,
}

/// The model of a [`Runner`].
#[verifier::ext_equal]
pub struct RunnerView {
    pub job: Option<PtyJobView>,
    pub pid: Option<i32>,
    pub size: Size,
}

impl View for Runner {
    type V = RunnerView;

    closed spec fn view(&self) -> RunnerView {
        RunnerView {
            job: match self.child {
                Some(c) => Some(c.job@),
                None => None,
            },
            pid: match self.child {
                Some(c) => Some(c.pid),
                None => None,
            },
            size: Size { cols: self.cols, rows: self.rows },
        }
    }
}

impl RunnerView {
    /// Nothing is running.
    pub open spec fn idle() -> RunnerView {
        RunnerView { job: None, pid: None, size: Size { cols: 100, rows: 40 } }
    }

    /// Messages have come: an exit ends the job.
    pub open spec fn settled(self, msgs: Seq<Msg>) -> RunnerView {
        if exists|i: int| 0 <= i < msgs.len() && (#[trigger] msgs[i]) is Exit {
            RunnerView { job: None, pid: None, ..self }
        } else {
            self
        }
    }
}

impl Default for Runner {
    fn default() -> (r: Self)
        ensures
            r@ == RunnerView::idle(),
    {
        Self::new()
    }
}

impl Runner {
    /// Nothing running, a terminal of 100 by 40.
    pub fn new() -> (r: Self)
        ensures
            r@ == RunnerView::idle(),
    {
        Runner { child: None, cols: 100, rows: 40 }
    }

    /// What is running.
    pub fn job(&self) -> (r: Option<&Job>)
        ensures
            match r {
                Some(j) => self@.job == Some(j@),
                None => self@.job is None,
            },
    {
        match &self.child {
            Some(c) => Some(&c.job),
            None => None,
        }
    }

    /// Whether something is running.
    pub fn running(&self) -> (r: bool)
        ensures
            r == (self@.job is Some),
    {
        self.child.is_some()
    }

    /// Messages have come: an exit ends the job.
    pub fn poll(&mut self, msgs: &Vec<Msg>)
        ensures
            final(self)@ == old(self)@.settled(msgs@),
    {
        let mut i: usize = 0;
        while i < msgs.len()
            invariant
                i <= msgs.len(),
                self@ == old(self)@.settled(msgs@.take(i as int)),
            decreases msgs.len() - i,
        {
            let ghost a = msgs@.take(i as int);
            let ghost b = msgs@.take(i + 1);
            assert(forall|j: int| 0 <= j < a.len() ==> b[j] == a[j]);
            assert(b[i as int] == msgs@[i as int]);
            if let Msg::Exit { .. } = &msgs[i] {
                self.child = None;
            }
            assert(self@ == old(self)@.settled(b)) by {
                if exists|j: int| 0 <= j < a.len() && (#[trigger] a[j]) is Exit {
                    let j = choose|j: int| 0 <= j < a.len() && (#[trigger] a[j]) is Exit;
                    assert(b[j] is Exit);
                }
            }
            i += 1;
        }
        assert(msgs@.take(msgs.len() as int) =~= msgs@);
    }

    /// How to start `program <args>` in a fresh pty; `None` if a job is already running. `english`
    /// runs it under `LC_ALL=C.UTF-8`.
    pub fn run_program(&self, program: &str, label: &str, args: &Vec<String>, english: bool) -> (r:
        Option<Launch>)
        ensures
            match r {
                Some(l) => self@.job is None && l@ == launch_of(
                    self@.size,
                    program@,
                    label@,
                    texts(args@),
                    english,
                ),
                None => self@.job is Some,
            },
    {
        if self.child.is_some() {
            return None;
        }
        let mut set: Vec<(String, String)> = Vec::new();
        set.push((copy("TERM"), copy("xterm-256color")));
        if english {
            set.push((copy("LC_ALL"), copy("C.UTF-8")));
            set.push((copy("LANGUAGE"), copy("")));
        }
        let mut removed: Vec<String> = Vec::new();
        push_copy(&mut removed, "COLUMNS");
        push_copy(&mut removed, "LINES");
        let ghost want = launch_of(self@.size, program@, label@, texts(args@), english);
        assert(set@.map_values(|x: (String, String)| (x.0@, x.1@)) =~= want.set);
        assert(texts(removed@) =~= want.removed);
        Some(
            Launch {
                size: Size { cols: self.cols, rows: self.rows },
                program: copy(program),
                label: copy(label),
                args: copies(args),
                set,
                removed,
            },
        )
    }

    /// The launch has succeeded.
    pub fn started(&mut self, launch: &Launch, pid: i32)
        ensures
            final(self)@ == (RunnerView {
                job: Some(PtyJobView { label: launch@.label, args: launch@.args }),
                pid: Some(pid),
                ..old(self)@
            }),
    {
        let job = Job { label: launch.label.clone(), args: copies(&launch.args) };
        self.child = Some(Child { job, pid });
    }

    /// The launch has failed: what the terminal shows, and the exit that is reported.
    pub fn report_spawn_failure(launch: &Launch, step: Step, error: &str) -> (r: (String, Msg))
        ensures
            r.0@ == "\x1b[31m==> ERROR:\x1b[0m "@ + launch_error(step, launch@.program, error@)
                + "\r\n"@,
            r.1@ == (PtyMsgView::Exit {
                label: launch@.label,
                args: launch@.args,
                code: None,
                signal: None,
                elapsed: "0.0"@,
            }),
    {
        let why = match step {
            Step::OpenPty => {
                let mut s = copy("openpty failed: ");
                s.push_str(error);
                s
            },
            Step::Dup => {
                let mut s = copy("dup failed: ");
                s.push_str(error);
                s
            },
            Step::Start => {
                let mut s = copy("cannot start ");
                s.push_str(launch.program.as_str());
                s.push_str(": ");
                s.push_str(error);
                s
            },
        };
        let mut text = copy("\x1b[31m==> ERROR:\x1b[0m ");
        text.push_str(why.as_str());
        text.push_str("\r\n");
        (
            text,
            Msg::Exit {
                label: launch.label.clone(),
                args: copies(&launch.args),
                code: None,
                signal: None,
                elapsed: copy("0.0"),
            },
        )
    }

    /// What to send to the child's terminal (what typing would do); `None` without one. Appends
    /// nothing.
    pub fn write(&self, text: &str) -> (r: Option<String>)
        ensures
            opt(r) == (if self@.pid is Some {
                Some(text@)
            } else {
                None
            }),
    {
        if self.child.is_some() {
            Some(copy(text))
        } else {
            None
        }
    }

    /// What to send for a line: `text` plus Enter.
    pub fn send_line(&self, text: &str) -> (r: Option<String>)
        ensures
            opt(r) == (if self@.pid is Some {
                Some(text@.push('\n'))
            } else {
                None
            }),
    {
        let mut s = copy(text);
        s.push('\n');
        self.write(s.as_str())
    }

    /// What to send for Ctrl+C through the line discipline: SIGINT to the foreground process
    /// group.
    pub fn interrupt(&self) -> (r: Option<String>)
        ensures
            opt(r) == (if self@.pid is Some {
                Some("\x03"@)
            } else {
                None
            }),
    {
        self.write("\x03")
    }

    /// The process group to send SIGTERM to (last resort).
    pub fn terminate(&self) -> (r: Option<i32>)
        ensures
            r == self@.pid,
    {
        match &self.child {
            Some(c) => Some(c.pid),
            None => None,
        }
    }

    /// Take note of the terminal's size (`column -t`, pacman bars); the size to tell the child,
    /// where it has changed and there is one. Cheap to call every frame.
    pub fn resize(&mut self, cols: u16, rows: u16) -> (r: Option<Size>)
        ensures
            final(self)@ == (RunnerView { size: clamped_size(cols, rows), ..old(self)@ }),
            r == (if clamped_size(cols, rows) != old(self)@.size && old(self)@.pid is Some {
                Some(clamped_size(cols, rows))
            } else {
                None
            }),
    {
        let c: u16 = if cols < 40 {
            40
        } else if cols > 500 {
            500
        } else {
            cols
        };
        let l: u16 = if rows < 8 {
            8
        } else if rows > 200 {
            200
        } else {
            rows
        };
        if c == self.cols && l == self.rows {
            return None;
        }
        self.cols = c;
        self.rows = l;
        if self.child.is_some() {
            Some(Size { cols: c, rows: l })
        } else {
            None
        }
    }
}

/// A job runs just as long as there is a child to write to.
pub proof fn job_has_a_child(r: Runner)
    ensures
        r@.job is Some <==> r@.pid is Some,
{
}

/// The size of the terminal stays within its limits, whatever is asked for.
pub proof fn size_stays_within_limits(cols: u16, rows: u16)
    ensures
        40 <= clamped_size(cols, rows).cols <= 500,
        8 <= clamped_size(cols, rows).rows <= 200,
{
}

/// Asking for the same size again changes nothing and tells the child nothing.
pub proof fn resizing_twice_is_resizing_once(cols: u16, rows: u16)
    ensures
        clamped_size(clamped_size(cols, rows).cols, clamped_size(cols, rows).rows) == clamped_size(
            cols,
            rows,
        ),
{
}

} // verus!
