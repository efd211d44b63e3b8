//! What goes to other programs and comes back: laws on what is in flight, on how a program is
//! started, on the instances of the window, and on the set-up of the desktop.

use crate::backend::{shown_arg, shown_name, BackendView, JobView, MsgView};
use crate::instance::{claimed, decoded, encoded, socket_path_of, Attempt, ClaimView, RequestView};
use crate::pty::{clamped_size, launch_error, launch_of, Size, Step};
use crate::setup::{entry_of, planned, planned_from_env, quoted, refresh_of};
use crate::text::{includes, is_white, lines_of, path_joined, pieces};
use vstd::prelude::*;

verus! {

// ------------------------------------------------------------------ what is in flight

/// Something is in flight just where one of the things is.
pub proof fn busy_while_something_is_in_flight(b: BackendView)
    ensures
        !BackendView::idle().busy(),
        b.fetching || b.checking ==> b.busy(),
        b.searching is Some || b.running is Some ==> b.busy(),
        b.details_pending > 0 || b.system_pending > 0 ==> b.busy(),
        b.busy() ==> b.fetching || b.checking || b.searching is Some || b.running is Some
            || b.details_pending > 0 || b.system_pending > 0,
        b.with_inventory().busy() && b.with_check().busy(),
        b.with_inventory() == (BackendView { fetching: true, ..b }),
        b.with_check() == (BackendView { checking: true, ..b }),
{
}

/// What a message reports is no longer in flight, and nothing else changes.
pub proof fn messages_settle_what_they_report(b: BackendView, m: MsgView)
    ensures
        m is Inventory ==> b.settled(m) == (BackendView { fetching: false, ..b }),
        m is Check ==> b.settled(m) == (BackendView { checking: false, ..b }),
        m is Search ==> b.settled(m) == (BackendView { searching: None, ..b }),
        m is Exit ==> b.settled(m) == (BackendView { running: None, ..b }),
        m is Line ==> b.settled(m) == b,
        m is Details && b.details_pending > 0 ==> b.settled(m) == (BackendView {
            details_pending: b.details_pending - 1,
            ..b
        }),
        m is System && 0 <= b.system_pending < usize::MAX ==> b.with_system().settled(m) == b,
{
}

// ------------------------------------------------------------------ commands

/// A name as part of a path.
pub open spec fn is_name(n: Seq<char>) -> bool {
    n.len() > 0 && !n.contains('/') && n != "."@ && n != ".."@
}

/// The commands that tell the desktop what has changed: its menu, the icon cache where there is
/// one, and the signal that the icons are others.
pub proof fn desktop_is_told(data: Seq<char>)
    requires
        data.len() > 0 && data.last() != '/',
    ensures
        ({
            let all = refresh_of(data, true);
            let some = refresh_of(data, false);
            &&& all.len() == 3 && some.len() == 2
            &&& some[0] == all[0] && some[1] == all[2]
            &&& all[0].program == "update-desktop-database"@
            &&& all[0].args == seq![data + "/applications"@]
            &&& all[1].program == "gtk-update-icon-cache"@
            &&& all[1].args == seq!["-q"@, "-t"@, "-f"@, data + "/icons/hicolor"@]
            &&& all[2].program == "dbus-send"@
            &&& all[2].args == seq![
                "--session"@,
                "--type=signal"@,
                "/KIconLoader"@,
                "org.kde.KIconLoader.iconChanged"@,
                "int32:0"@,
            ]
        }),
{
    reveal_strlit("applications");
    reveal_strlit("/applications");
    reveal_strlit("icons/hicolor");
    reveal_strlit("/icons/hicolor");
    assert(path_joined(data, "applications"@) =~= data + "/applications"@);
    assert(path_joined(data, "icons/hicolor"@) =~= data + "/icons/hicolor"@);
    let all = refresh_of(data, true);
    assert(all[0].args =~= seq![data + "/applications"@]);
    assert(all[1].args =~= seq!["-q"@, "-t"@, "-f"@, data + "/icons/hicolor"@]);
}

/// A terminal is at least forty by eight and at most five hundred by two hundred; a size between is
/// kept.
pub proof fn sizes_are_kept_within_limits(cols: u16, rows: u16)
    ensures
        ({
            let s = clamped_size(cols, rows);
            &&& 40 <= s.cols <= 500 && 8 <= s.rows <= 200
            &&& 40 <= cols <= 500 ==> s.cols == cols
            &&& 8 <= rows <= 200 ==> s.rows == rows
            &&& cols < 40 ==> s.cols == 40
            &&& cols > 500 ==> s.cols == 500
            &&& rows < 8 ==> s.rows == 8
            &&& rows > 200 ==> s.rows == 200
        }),
{
}

/// A program is started as it was asked for, in a terminal that shows colours, and where its
/// questions are to be understood, in English; the size is not told it by variables.
pub proof fn programs_are_started_as_asked(
    size: Size,
    program: Seq<char>,
    label: Seq<char>,
    args: Seq<Seq<char>>,
    english: bool,
)
    ensures
        ({
            let l = launch_of(size, program, label, args, english);
            &&& l.size == size && l.program == program && l.label == label && l.args == args
            &&& l.set.len() > 0 && l.set[0] == ("TERM"@, "xterm-256color"@)
            &&& english ==> l.set.len() == 3 && l.set[1] == ("LC_ALL"@, "C.UTF-8"@) && l.set[2] == (
                "LANGUAGE"@,
                ""@,
            )
            &&& !english ==> l.set.len() == 1
            &&& l.removed == seq!["COLUMNS"@, "LINES"@]
        }),
{
}

/// What failed at a start is said, with the reason behind it.
pub proof fn failed_starts_are_explained(program: Seq<char>, error: Seq<char>)
    ensures
        launch_error(Step::OpenPty, program, error) == "openpty failed: "@ + error,
        launch_error(Step::Dup, program, error) == "dup failed: "@ + error,
        launch_error(Step::Start, program, error) == "cannot start "@ + program + ": "@ + error,
{
}

// ------------------------------------------------------------------ instances

/// A request is one line, and each of the three has its word.
pub proof fn requests_have_their_words(name: Seq<char>)
    ensures
        encoded(RequestView::Show) == "show\n"@,
        encoded(RequestView::Upgrade) == "upgrade\n"@,
        encoded(RequestView::Select(name)) == "select "@ + name + "\n"@,
{
}

/// A word of its own is a request only where it is one of the two.
pub proof fn other_words_are_no_requests(w: Seq<char>)
    requires
        w.len() > 0 && !is_white(w[0]) && !is_white(w.last()),
        !w.contains(' '),
        w != "show"@ && w != "upgrade"@,
    ensures
        decoded(w) is None,
{
    reveal_strlit(" ");
    crate::text::trimming_keeps_clean_text(w);
    assert(!crate::text::includes(w, " "@)) by {
        if crate::text::includes(w, " "@) {
            let i = choose|i: int| crate::text::occurs_at(w, " "@, i);
            assert(w.subrange(i, i + 1)[0] == ' ');
            assert(w[i] == ' ');
        }
    }
}

/// Who holds the lock is the instance, and listens where it can; who does not hands its request
/// over, and only where nobody answers runs too, with a word on it.
pub proof fn one_window_takes_the_requests(lock: Seq<char>, socket: Seq<char>, a: Attempt)
    ensures
        a matches Attempt::Taken { forwarded } ==> (forwarded <==> claimed(a, lock, socket)
            == ClaimView::Forwarded),
        a matches Attempt::Locked { bound } ==> match bound {
            Ok(_) => claimed(a, lock, socket) == (ClaimView::Primary {
                listening: true,
                socket: Some(socket),
                notice: None,
            }),
            Err(e) => claimed(a, lock, socket) == (ClaimView::Primary {
                listening: false,
                socket: Some(socket),
                notice: Some(
                    "fuide-arch-update: cannot listen on "@ + socket + ": "@ + e@
                        + "; later launches open new windows"@,
                ),
            }),
        },
        a == (Attempt::Taken { forwarded: false }) ==> claimed(a, lock, socket) == (
        ClaimView::Primary {
            listening: false,
            socket: None,
            notice: Some(
                "fuide-arch-update: another instance holds "@ + lock + " but does not answer on "@
                    + socket + "; starting anyway"@,
            ),
        }),
{
}

/// The socket is beside the lock where the path is short enough, else in the temporary directory.
pub proof fn socket_is_beside_the_lock(dir: Seq<char>, temp: Seq<char>, hash: u64)
    requires
        dir.len() > 0 && dir.last() != '/',
        temp.len() > 0 && temp.last() != '/',
    ensures
        ({
            let near = dir + "/fuide-arch-update.sock"@;
            let p = socket_path_of(dir, temp, hash);
            &&& vstd::utf8::encode_utf8(near).len() < 100 ==> p == near
            &&& vstd::utf8::encode_utf8(near).len() >= 100 ==> (temp
                + "/fuide-arch-update-"@).is_prefix_of(p)
        }),
{
    reveal_strlit("fuide-arch-update.sock");
    reveal_strlit("/fuide-arch-update.sock");
    reveal_strlit("fuide-arch-update-");
    reveal_strlit("/fuide-arch-update-");
    let near = dir + "/fuide-arch-update.sock"@;
    assert(path_joined(dir, "fuide-arch-update.sock"@) =~= near);
    let p = socket_path_of(dir, temp, hash);
    if vstd::utf8::encode_utf8(near).len() >= 100 {
        let head = temp + "/fuide-arch-update-"@;
        assert(p.subrange(0, head.len() as int) =~= head);
    }
}

// ------------------------------------------------------------------ set-up

/// The entries run the programs: that of the window runs it, those of the applet run it a moment
/// after the login, in a shell.
pub proof fn entries_start_the_programs(
    gui: Seq<char>,
    tray: Seq<char>,
    data: Seq<char>,
    config: Seq<char>,
)
    ensures
        ({
            let p = planned(gui, tray, data, config);
            &&& p.gui_desktop.1 == entry_of(lines_of(crate::setup::GUI_DESKTOP@), quoted(gui))
            &&& p.tray_desktop.1 == entry_of(
                lines_of(crate::setup::TRAY_DESKTOP@),
                "/bin/sh -c \"sleep 3 && exec "@ + quoted(tray) + "\""@,
            )
            &&& p.autostart.1 == p.tray_desktop.1
            &&& p.icon.1 == crate::setup::ICON_SVG@
        }),
{
}

/// The directories come from the environment where it names them by absolute paths, else they are
/// under the home directory.
pub proof fn directories_come_from_the_environment(
    gui: Seq<char>,
    tray: Seq<char>,
    home: Seq<char>,
    data: Seq<char>,
    config: Seq<char>,
    relative: Seq<char>,
)
    requires
        home.len() > 0 && home.last() != '/',
        data.len() > 0 && data[0] == '/',
        config.len() > 0 && config[0] == '/',
        relative.len() == 0 || relative[0] != '/',
    ensures
        planned_from_env(Ok(gui), Some(tray), Some(home), Some(data), Some(config)) == Ok::<
            crate::setup::PlanView,
            Seq<char>,
        >(planned(gui, tray, data, config)),
        planned_from_env(Ok(gui), Some(tray), Some(home), None, None) == Ok::<
            crate::setup::PlanView,
            Seq<char>,
        >(planned(gui, tray, home + "/.local/share"@, home + "/.config"@)),
        planned_from_env(Ok(gui), Some(tray), Some(home), Some(relative), Some(relative))
            == planned_from_env(Ok(gui), Some(tray), Some(home), None, None),
{
    reveal_strlit(".local/share");
    reveal_strlit("/.local/share");
    reveal_strlit(".config");
    reveal_strlit("/.config");
    assert(path_joined(home, ".local/share"@) =~= home + "/.local/share"@);
    assert(path_joined(home, ".config"@) =~= home + "/.config"@);
}

/// Without the executable, the applet beside it or a home directory there is no plan, but a word on
/// what is missing.
pub proof fn missing_things_are_named(
    gui: Seq<char>,
    tray: Seq<char>,
    e: Seq<char>,
    t: Option<Seq<char>>,
    h: Option<Seq<char>>,
    d: Option<Seq<char>>,
    c: Option<Seq<char>>,
)
    ensures
        planned_from_env(Err(e), t, h, d, c) == Err::<crate::setup::PlanView, Seq<char>>(
            "cannot locate this executable: "@ + e,
        ),
        planned_from_env(Ok(gui), None, h, d, c) is Err,
        planned_from_env(Ok(gui), Some(tray), None, d, c) == Err::<
            crate::setup::PlanView,
            Seq<char>,
        >("HOME is not set"@),
        h is Some ==> planned_from_env(Ok(gui), Some(tray), h, d, c) is Ok,
{
}

/// A program or an argument with an absolute path is shown by the name at the end of it; any other
/// as it is.
pub proof fn commands_are_shown_by_name(dir: Seq<char>, name: Seq<char>)
    requires
        is_name(name),
    ensures
        shown_name(dir + "/"@ + name) == name,
        shown_name(name) == name,
        shown_arg("/"@ + dir + "/"@ + name) == name,
        shown_arg(name) == name,
        dir.len() > 0 && dir[0] != '/' ==> shown_arg(dir) == dir,
{
    reveal_strlit("/");
    lemma_shown_name(dir, name);
    lemma_shown_name("/"@ + dir, name);
    let s = "/"@ + dir + "/"@ + name;
    assert(s.subrange(0, 1) =~= "/"@);
    if "/"@.is_prefix_of(name) {
        assert(name.subrange(0, 1)[0] == '/');
        assert(name.contains('/'));
    }
    if dir.len() > 0 && "/"@.is_prefix_of(dir) {
        assert(dir.subrange(0, 1)[0] == '/');
    }
}

proof fn lemma_pieces(a: Seq<char>, c: char, b: Seq<char>)
    ensures
        pieces(a.push(c) + b, c) == pieces(a, c) + pieces(b, c),
    decreases a.len(),
{
    let k = crate::text::upto(a, c) as int;
    crate::text::lemma_upto(a, c);
    if k >= a.len() {
        assert(!a.contains(c)) by {
            if a.contains(c) {
                let i = choose|i: int| 0 <= i < a.len() && a[i] == c;
                assert(a[i] != c);
            }
        }
        crate::text::pieces_of_piece_and_rest(a, c, b);
    } else {
        let head = a.take(k);
        let rest = a.skip(k + 1);
        assert(!head.contains(c)) by {
            if head.contains(c) {
                let i = choose|i: int| 0 <= i < head.len() && head[i] == c;
                assert(a[i] != c);
            }
        }
        lemma_pieces(rest, c, b);
        crate::text::pieces_of_piece_and_rest(head, c, rest.push(c) + b);
        assert(head.push(c) + (rest.push(c) + b) =~= a.push(c) + b);
        assert(seq![head] + (pieces(rest, c) + pieces(b, c)) =~= pieces(a, c) + pieces(b, c));
    }
}

proof fn lemma_shown_name(dir: Seq<char>, name: Seq<char>)
    requires
        is_name(name),
    ensures
        shown_name(dir + "/"@ + name) == name,
        shown_name(name) == name,
{
    reveal_strlit("/");
    crate::text::pieces_of_piece_and_rest(name, '/', Seq::empty());
    lemma_pieces(dir, '/', name);
    let s = dir + "/"@ + name;
    assert(dir.push('/') + name =~= s);
    let parts = pieces(s, '/');
    assert(parts.last() == name);
    assert(pieces(name, '/').last() == name);
}

/// The command line is the program and the arguments, with spaces between them.
pub proof fn command_line_names_everything(j: JobView, name: Seq<char>, arg: Seq<char>)
    requires
        is_name(name),
        is_name(arg),
        !is_white(arg.last()),
        j.program == name,
        j.args == seq![arg],
    ensures
        j.command_line() == name + " "@ + arg,
{
    commands_are_shown_by_name(Seq::empty(), name);
    commands_are_shown_by_name(Seq::empty(), arg);
    let shown = j.args.map_values(|a: Seq<char>| shown_arg(a));
    assert(shown =~= seq![arg]);
    crate::appearances::parts_are_joined(Seq::empty(), arg, " "@);
    let line = name + " "@ + arg;
    assert(line.last() == arg.last());
}

/// A helper that knows the option is told which program gives it the rights; another one is not.
pub proof fn helpers_are_told_the_privilege(name: Seq<char>, privilege: Seq<char>)
    ensures
        includes(name, "yay"@) || includes(name, "paru"@) ==> crate::pacman::sudo_args(
            name,
            privilege,
        ) == seq!["--sudo"@, privilege],
        !includes(name, "yay"@) && !includes(name, "paru"@) ==> crate::pacman::sudo_args(
            name,
            privilege,
        ).len() == 0,
{
}

/// A tool is switched off by `none` or by nothing, and by nothing else.
pub proof fn tools_are_switched_off_by_none(v: Seq<char>)
    ensures
        crate::pacman::unless_none("none"@) is None,
        crate::pacman::unless_none(Seq::empty()) is None,
        v != "none"@ && v != Seq::<char>::empty() ==> crate::pacman::unless_none(v) == Some(v),
{
    assert(v.len() == 0 ==> v =~= Seq::<char>::empty());
}

} // verus!
