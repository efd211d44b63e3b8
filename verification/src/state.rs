//! The small state the GUI and the tray applet share: the last check's pending updates and
//! when it ran. Lives in `$XDG_STATE_HOME/fuide-arch-update/` (`FUIDE_ARCH_STATE_DIR`
//! overrides it). Writes are atomic (temp file + rename) so a reader never sees a torn file.

use crate::num::{decimal, number, parse_u64, to_decimal};
use crate::pacman::{upgrades, Upgrade, UpgradeView};
use crate::text::{
    chars_of, copy, is_text, lines, lines_of, opt, path_join, path_joined, pieces, replace,
    replaced, slices, split, string_of, strip_prefix, trim, trimmed, without_cr,
    without_prefix,
};
use vstd::prelude::*;

verus! {

/// What the last check found.
#[derive(Debug, PartialEq)]
pub struct CheckState {
    pub updates: Vec<Upgrade>,
    /// Unix time of the check; `None` = never checked.
    pub checked_at: Option<u64>,
    /// The last check failed with this message (updates are the previous good list).
    pub error: Option<String>,
}

/// The model of a [`CheckState`].
#[verifier::ext_equal]
pub struct StateView {
    pub updates: Seq<UpgradeView>,
    pub checked_at: Option<u64>,
    pub error: Option<Seq<char>>,
}

impl View for CheckState {
    type V = StateView;

    open spec fn view(&self) -> StateView {
        StateView {
            updates: upgrades(self.updates@),
            checked_at: self.checked_at,
            error: opt(self.error),
        }
    }
}

impl StateView {
    /// Never checked.
    pub open spec fn never() -> StateView {
        StateView { updates: Seq::empty(), checked_at: None, error: None }
    }
}

impl Default for CheckState {
    fn default() -> (r: Self)
        ensures
            r@ == StateView::never(),
    {
        let r = CheckState { updates: Vec::new(), checked_at: None, error: None };
        assert(r@ =~= StateView::never());
        r
    }
}

impl Clone for CheckState {
    fn clone(&self) -> (r: Self)
        ensures
            r@ == self@,
    {
        CheckState {
            updates: crate::pacman::copy_upgrades(&self.updates),
            checked_at: self.checked_at,
            error: crate::text::copy_opt(&self.error),
        }
    }
}

// ------------------------------------------------------------------ where it lives

/// The directory of the state file, from the values of `FUIDE_ARCH_STATE_DIR`, `XDG_STATE_HOME`
/// and `HOME`.
pub fn state_dir(var: Option<String>, xdg: Option<String>, home: Option<String>) -> (r: String)
    ensures
        r@ == match var {
            Some(d) => d@,
            None => path_joined(
                match xdg {
                    Some(d) => d@,
                    None => path_joined(
                        match home {
                            Some(d) => d@,
                            None => "/"@,
                        },
                        ".local/state"@,
                    ),
                },
                "fuide-arch-update"@,
            ),
        },
{
    proof {
        reveal_strlit(".local/state");
        reveal_strlit("fuide-arch-update");
    }
    match var {
        Some(d) => d,
        None => {
            let base = match xdg {
                Some(d) => d,
                None => {
                    let h = match home {
                        Some(d) => d,
                        None => copy("/"),
                    };
                    path_join(h.as_str(), ".local/state")
                },
            };
            path_join(base.as_str(), "fuide-arch-update")
        },
    }
}

/// The state file in its directory.
pub fn state_file(dir: &str) -> (r: String)
    ensures
        r@ == path_joined(dir@, "check"@),
{
    proof {
        reveal_strlit("check");
    }
    path_join(dir, "check")
}

/// The name of the file that is written first and then renamed to `file`.
pub fn tmp_name(file: &str, pid: u32) -> (r: String)
    ensures
        r@ == "."@ + file@ + ".tmp-"@ + decimal(pid as nat),
{
    let mut out = copy(".");
    out.push_str(file);
    out.push_str(".tmp-");
    out.push_str(to_decimal(pid as u64).as_str());
    out
}

// ------------------------------------------------------------------ the format

/// The line of one update: `<repo|aur>\t<name>\t<current>\t<new>`.
pub open spec fn update_line(u: UpgradeView) -> Seq<char> {
    (if u.aur {
        "aur"@
    } else {
        "repo"@
    }) + "\t"@ + u.name + "\t"@ + u.current + "\t"@ + u.new
}

/// The lines that come before the updates.
pub open spec fn header_lines(s: StateView) -> Seq<Seq<char>> {
    let title = seq!["# fuide-arch-update check state"@];
    let time = match s.checked_at {
        Some(t) => seq!["checked_at="@ + decimal(t as nat)],
        None => Seq::empty(),
    };
    let error = match s.error {
        Some(e) => seq!["error="@ + replaced(e, '\n', ' ')],
        None => Seq::empty(),
    };
    title + time + error
}

/// The lines of a state file.
pub open spec fn state_lines(s: StateView) -> Seq<Seq<char>> {
    header_lines(s) + s.updates.map_values(|u: UpgradeView| update_line(u))
}

/// Some lines as one text, each ended by `\n`.
pub open spec fn written(lines: Seq<Seq<char>>) -> Seq<char>
    decreases lines.len(),
{
    if lines.len() == 0 {
        Seq::empty()
    } else {
        lines[0].push('\n') + written(lines.drop_first())
    }
}

/// A state after one more line of a state file.
pub open spec fn with_line(s: StateView, line: Seq<char>) -> StateView {
    if (line.len() > 0 && line[0] == '#') || trimmed(line).len() == 0 {
        s
    } else if without_prefix(line, "checked_at="@) is Some {
        StateView {
            checked_at: match number(
                trimmed(without_prefix(line, "checked_at="@)->0),
                u64::MAX as nat,
            ) {
                Some(n) => Some(n as u64),
                None => None,
            },
            ..s
        }
    } else if without_prefix(line, "error="@) is Some {
        StateView { error: Some(trimmed(without_prefix(line, "error="@)->0)), ..s }
    } else {
        let f = pieces(line, '\t');
        if f.len() == 4 {
            StateView {
                updates: s.updates.push(
                    UpgradeView { name: f[1], current: f[2], new: f[3], aur: f[0] == "aur"@ },
                ),
                ..s
            }
        } else {
            s
        }
    }
}

/// The state that some lines describe.
pub open spec fn parsed(lines: Seq<Seq<char>>) -> StateView
    decreases lines.len(),
{
    if lines.len() == 0 {
        StateView::never()
    } else {
        with_line(parsed(lines.drop_last()), lines.last())
    }
}

fn line_of_update(u: &Upgrade) -> (r: String)
    ensures
        r@ == update_line(u@),
{
    let mut out = if u.aur {
        copy("aur")
    } else {
        copy("repo")
    };
    out.push_str("\t");
    out.push_str(u.name.as_str());
    out.push_str("\t");
    out.push_str(u.current.as_str());
    out.push_str("\t");
    out.push_str(u.new.as_str());
    out
}

/// Serialise: header lines `checked_at=<epoch>` / `error=<text>`, then one update per line
/// as `<repo|aur>\t<name>\t<current>\t<new>`.
pub fn to_text(s: &CheckState) -> (r: String)
    ensures
        r@ == written(state_lines(s@)),
{
    let mut ls: Vec<String> = Vec::new();
    ls.push(copy("# fuide-arch-update check state"));
    if let Some(t) = s.checked_at {
        let mut l = copy("checked_at=");
        l.push_str(to_decimal(t).as_str());
        ls.push(l);
    }
    if let Some(e) = &s.error {
        let mut l = copy("error=");
        l.push_str(string_of(&replace(&chars_of(e.as_str()), '\n', ' ')).as_str());
        ls.push(l);
    }
    let ghost head = crate::text::texts(ls@);
    assert(head =~= header_lines(s@));
    let ghost ups = upgrades(s.updates@);
    let mut i: usize = 0;
    assert(head =~= head + ups.take(0).map_values(|u: UpgradeView| update_line(u)));
    while i < s.updates.len()
        invariant
            i <= s.updates.len(),
            ups == upgrades(s.updates@),
            crate::text::texts(ls@) == head + ups.take(i as int).map_values(
                |u: UpgradeView| update_line(u),
            ),
        decreases s.updates.len() - i,
    {
        let ghost before = crate::text::texts(ls@);
        let l = line_of_update(&s.updates[i]);
        assert(l@ == update_line(ups[i as int]));
        ls.push(l);
        i += 1;
        assert(crate::text::texts(ls@) =~= before.push(l@));
        assert(crate::text::texts(ls@) =~= head + ups.take(i as int).map_values(
            |u: UpgradeView| update_line(u),
        ));
    }
    assert(ups.take(ups.len() as int) =~= ups);
    let ghost all = crate::text::texts(ls@);
    let mut out = String::new();
    let mut j: usize = 0;
    assert(all.skip(0) =~= all);
    assert(out@ + written(all.skip(0)) =~= written(all));
    while j < ls.len()
        invariant
            j <= ls.len(),
            all == crate::text::texts(ls@),
            out@ + written(all.skip(j as int)) == written(all),
        decreases ls.len() - j,
    {
        let ghost before = out@;
        assert(all.skip(j as int)[0] == ls@[j as int]@);
        assert(all.skip(j as int).drop_first() =~= all.skip(j + 1));
        out.push_str(ls[j].as_str());
        out.push('\n');
        assert(out@ + written(all.skip(j + 1)) =~= before + (ls@[j as int]@.push('\n') + written(
            all.skip(j + 1),
        )));
        j += 1;
    }
    assert(out@ + written(all.skip(j as int)) =~= out@);
    out
}

fn read_line(s: &mut CheckState, line: &[char])
    ensures
        final(s)@ == with_line(old(s)@, line@),
{
    if (line.len() > 0 && line[0] == '#') || trim(line).len() == 0 {
        return;
    }
    if let Some(v) = strip_prefix(line, "checked_at=") {
        s.checked_at = parse_u64(trim(v));
        return;
    }
    if let Some(v) = strip_prefix(line, "error=") {
        s.error = Some(string_of(trim(v)));
        return;
    }
    let f = split(line, '\t');
    let ghost fs = slices(f@);
    if f.len() == 4 {
        assert(fs[0] == f@[0]@ && fs[1] == f@[1]@ && fs[2] == f@[2]@ && fs[3] == f@[3]@);
        let u = Upgrade {
            name: string_of(f[1]),
            current: string_of(f[2]),
            new: string_of(f[3]),
            aur: is_text(f[0], "aur"),
        };
        let ghost v = u@;
        s.updates.push(u);
        assert(upgrades(s.updates@) =~= upgrades(old(s).updates@).push(v));
    }
}

/// The state that a text describes.
pub fn parse(text: &str) -> (r: CheckState)
    ensures
        r@ == parsed(lines_of(text@)),
{
    let cs = chars_of(text);
    let ls = lines(&cs);
    let ghost all = slices(ls@);
    let mut s = CheckState::default();
    let mut i: usize = 0;
    assert(s@ == parsed(all.take(0)));
    while i < ls.len()
        invariant
            i <= ls.len(),
            all == slices(ls@),
            s@ == parsed(all.take(i as int)),
        decreases ls.len() - i,
    {
        assert(all.take(i + 1).drop_last() =~= all.take(i as int));
        assert(all.take(i + 1).last() == ls@[i as int]@);
        read_line(&mut s, ls[i]);
        i += 1;
    }
    assert(all.take(all.len() as int) =~= all);
    s
}

/// The state that the contents of the file describe; never checked where it could not be read.
pub fn load_from(contents: Option<String>) -> (r: CheckState)
    ensures
        r@ == match contents {
            Some(t) => parsed(lines_of(t@)),
            None => StateView::never(),
        },
{
    match contents {
        Some(t) => parse(t.as_str()),
        None => CheckState::default(),
    }
}

// ------------------------------------------------------------------ laws

/// An update whose fields the format can carry: no tab or line end in them, and no carriage return
/// that would be taken for part of the line's end.
pub open spec fn carriable(u: UpgradeView) -> bool {
    &&& !u.name.contains('\t') && !u.name.contains('\n')
    &&& !u.current.contains('\t') && !u.current.contains('\n')
    &&& !u.new.contains('\t') && !u.new.contains('\n')
    &&& (u.new.len() == 0 || u.new.last() != '\r')
}

/// A state as it comes back from the file: the error message on one line, trimmed.
pub open spec fn on_one_line(s: StateView) -> StateView {
    StateView {
        error: match s.error {
            Some(e) => Some(trimmed(replaced(e, '\n', ' '))),
            None => None,
        },
        ..s
    }
}

proof fn lemma_lines_of_written(ls: Seq<Seq<char>>)
    requires
        forall|i: int| 0 <= i < ls.len() ==> !(#[trigger] ls[i]).contains('\n'),
    ensures
        lines_of(written(ls)) == ls.map_values(|l: Seq<char>| without_cr(l)),
    decreases ls.len(),
{
    if ls.len() == 0 {
        assert(lines_of(written(ls)) =~= ls.map_values(|l: Seq<char>| without_cr(l)));
    } else {
        let rest = ls.drop_first();
        assert forall|i: int| 0 <= i < rest.len() implies !(#[trigger] rest[i]).contains('\n') by {
            assert(rest[i] == ls[i + 1]);
        }
        lemma_lines_of_written(rest);
        crate::text::lines_of_line_and_rest(ls[0], written(rest));
        assert(lines_of(written(ls)) =~= ls.map_values(|l: Seq<char>| without_cr(l)));
    }
}

proof fn lemma_no_newline_in_decimal(n: nat)
    ensures
        !decimal(n).contains('\n'),
        decimal(n).len() > 0,
        trimmed(decimal(n)) == decimal(n),
        decimal(n).last() != '\r',
{
    crate::num::lemma_decimal(n);
    let d = decimal(n);
    assert forall|i: int| 0 <= i < d.len() implies d[i] != '\n' && !crate::text::is_white(d[i]) by {
        assert(crate::num::is_digit(d[i]));
    }
    crate::text::trimming_keeps_clean_text(d);
}

proof fn lemma_trimmed_without_cr(s: Seq<char>)
    ensures
        trimmed(without_cr(s)) == trimmed(s),
{
    if s.len() > 0 && s.last() == '\r' {
        let t = s.drop_last();
        lemma_trimmed_start_cr(t);
        assert(t.push('\r') =~= s);
    }
}

/// A carriage return at the end does not survive trimming.
proof fn lemma_trimmed_start_cr(t: Seq<char>)
    ensures
        trimmed(t.push('\r')) == trimmed(t),
    decreases t.len(),
{
    reveal_with_fuel(crate::text::trimmed_start, 2);
    let s = t.push('\r');
    if t.len() == 0 {
        assert(s.drop_first() =~= Seq::empty());
        assert(crate::text::trimmed_start(s) =~= Seq::empty());
        assert(crate::text::trimmed_start(t) =~= Seq::empty());
    } else if crate::text::is_white(t[0]) {
        assert(s[0] == t[0]);
        assert(s.drop_first() =~= t.drop_first().push('\r'));
        lemma_trimmed_start_cr(t.drop_first());
    } else {
        assert(s[0] == t[0]);
        assert(crate::text::trimmed_start(s) == s);
        assert(crate::text::trimmed_start(t) == t);
        assert(s.drop_last() =~= t);
    }
}

proof fn lemma_update_line(s: StateView, u: UpgradeView)
    requires
        carriable(u),
    ensures
        !update_line(u).contains('\n'),
        without_cr(update_line(u)) == update_line(u),
        with_line(s, update_line(u)) == (StateView { updates: s.updates.push(u), ..s }),
{
    reveal_strlit("\t");
    reveal_strlit("aur");
    reveal_strlit("repo");
    reveal_strlit("checked_at=");
    reveal_strlit("error=");
    let tag = if u.aur {
        "aur"@
    } else {
        "repo"@
    };
    let l = update_line(u);
    assert(l[0] == tag[0]);
    assert(tag[0] == 'a' || tag[0] == 'r');
    // the line is not blank, no comment and no header line
    crate::text::trimmed_has_no_white_ends(l);
    assert(trimmed(l).len() > 0) by {
        assert(crate::text::trimmed_start(l) == l);
        lemma_trimmed_end_not_empty(l);
    }
    assert("checked_at="@[0] != l[0] && "error="@[0] != l[0]);
    assert(!"checked_at="@.is_prefix_of(l)) by {
        if "checked_at="@.is_prefix_of(l) {
            assert(l.subrange(0, "checked_at="@.len() as int)[0] == l[0]);
        }
    }
    assert(!"error="@.is_prefix_of(l)) by {
        if "error="@.is_prefix_of(l) {
            assert(l.subrange(0, "error="@.len() as int)[0] == l[0]);
        }
    }
    // the four fields
    let r2 = u.current.push('\t') + u.new;
    let r1 = u.name.push('\t') + r2;
    assert(l =~= tag.push('\t') + r1);
    assert(!tag.contains('\t'));
    crate::text::pieces_of_piece_and_rest(tag, '\t', r1);
    crate::text::pieces_of_piece_and_rest(u.name, '\t', r2);
    crate::text::pieces_of_piece_and_rest(u.current, '\t', u.new);
    crate::text::pieces_of_piece_and_rest(u.new, '\t', Seq::empty());
    assert(pieces(l, '\t') =~= seq![tag, u.name, u.current, u.new]);
    assert((tag == "aur"@) == u.aur);
    assert forall|i: int| 0 <= i < l.len() implies l[i] != '\n' by {
        let n0 = tag.len() as int;
        let n1 = n0 + 1 + u.name.len();
        let n2 = n1 + 1 + u.current.len();
        if i < n0 {
            assert(l[i] == tag[i]);
        } else if i == n0 {
            assert(l[i] == '\t');
        } else if i < n1 {
            assert(l[i] == u.name[i - n0 - 1]);
            assert(u.name.contains(l[i]));
        } else if i == n1 {
            assert(l[i] == '\t');
        } else if i < n2 {
            assert(l[i] == u.current[i - n1 - 1]);
            assert(u.current.contains(l[i]));
        } else if i == n2 {
            assert(l[i] == '\t');
        } else {
            assert(l[i] == u.new[i - n2 - 1]);
            assert(u.new.contains(l[i]));
        }
    }
    assert(l.last() == if u.new.len() == 0 {
        '\t'
    } else {
        u.new.last()
    });
}

proof fn lemma_trimmed_end_not_empty(s: Seq<char>)
    requires
        s.len() > 0,
        !crate::text::is_white(s[0]),
    ensures
        crate::text::trimmed_end(s).len() > 0,
    decreases s.len(),
{
    if crate::text::is_white(s.last()) {
        assert(s.drop_last()[0] == s[0]);
        lemma_trimmed_end_not_empty(s.drop_last());
    }
}

proof fn lemma_header(s: StateView)
    ensures
        forall|i: int|
            0 <= i < header_lines(s).len() ==> !(#[trigger] header_lines(s)[i]).contains('\n'),
        parsed(header_lines(s).map_values(|l: Seq<char>| without_cr(l))) == on_one_line(
            StateView { updates: Seq::empty(), ..s },
        ),
{
    reveal_strlit("# fuide-arch-update check state");
    reveal_strlit("checked_at=");
    reveal_strlit("error=");
    reveal_with_fuel(parsed, 4);
    let title = "# fuide-arch-update check state"@;
    let h = header_lines(s);
    let g = h.map_values(|l: Seq<char>| without_cr(l));
    assert(!title.contains('\n'));
    assert(without_cr(title) == title);
    assert(title[0] == '#');
    assert(g[0] == title);
    assert(g.take(1) =~= seq![title]);
    assert(seq![title].drop_last() =~= Seq::empty());
    assert(parsed(g.take(1)) == StateView::never());
    let after_time = match s.checked_at {
        Some(t) => 2int,
        None => 1int,
    };
    if let Some(t) = s.checked_at {
        let l = "checked_at="@ + decimal(t as nat);
        lemma_no_newline_in_decimal(t as nat);
        assert forall|i: int| 0 <= i < l.len() implies l[i] != '\n' by {
            if i >= "checked_at="@.len() {
                assert(l[i] == decimal(t as nat)[i - "checked_at="@.len()]);
                assert(decimal(t as nat).contains(l[i]));
            } else {
                assert(l[i] == "checked_at="@[i]);
            }
        }
        assert(h[1] == l);
        assert(l.last() == decimal(t as nat).last());
        assert(without_cr(l) == l);
        assert(g[1] == l);
        assert(l[0] == 'c');
        assert(trimmed(l).len() > 0) by {
            assert(crate::text::trimmed_start(l) == l);
            lemma_trimmed_end_not_empty(l);
        }
        assert("checked_at="@.is_prefix_of(l));
        assert(l.skip("checked_at="@.len() as int) =~= decimal(t as nat));
        crate::num::decimal_is_read_back(t as nat, u64::MAX as nat);
        assert(g.take(2).drop_last() =~= g.take(1));
        assert(parsed(g.take(2)) == (StateView { checked_at: Some(t), ..StateView::never() }));
    }
    let base = StateView { checked_at: s.checked_at, ..StateView::never() };
    assert(parsed(g.take(after_time)) == base);
    if let Some(e) = s.error {
        let r = replaced(e, '\n', ' ');
        let l = "error="@ + r;
        assert(h[after_time] == l);
        assert forall|i: int| 0 <= i < l.len() implies l[i] != '\n' by {
            if i < "error="@.len() {
                assert(l[i] == "error="@[i]);
            } else {
                assert(l[i] == r[i - "error="@.len()]);
            }
        }
        let c = without_cr(l);
        assert(g[after_time] == c);
        assert(c[0] == 'e');
        assert(trimmed(c).len() > 0) by {
            assert(crate::text::trimmed_start(c) == c);
            lemma_trimmed_end_not_empty(c);
        }
        assert(!"checked_at="@.is_prefix_of(c)) by {
            if "checked_at="@.is_prefix_of(c) {
                assert(c.subrange(0, "checked_at="@.len() as int)[0] == c[0]);
            }
        }
        assert("error="@.is_prefix_of(c)) by {
            assert(c.subrange(0, "error="@.len() as int) =~= "error="@);
        }
        assert(c.skip("error="@.len() as int) =~= without_cr(r));
        lemma_trimmed_without_cr(r);
        assert(g.take(after_time + 1).drop_last() =~= g.take(after_time));
        assert(parsed(g.take(after_time + 1)) == (StateView { error: Some(trimmed(r)), ..base }));
        assert(g.take(after_time + 1) =~= g);
    } else {
        assert(g.take(after_time) =~= g);
    }
    assert forall|i: int| 0 <= i < h.len() implies !(#[trigger] h[i]).contains('\n') by {
        assert(i == 0 ==> h[i] == title);
    }
}

proof fn lemma_parsed_updates(
    g: Seq<Seq<char>>,
    base: StateView,
    ups: Seq<UpgradeView>,
)
    requires
        parsed(g) == base,
        base.updates.len() == 0,
        forall|i: int| 0 <= i < ups.len() ==> carriable(#[trigger] ups[i]),
    ensures
        parsed(g + ups.map_values(|u: UpgradeView| update_line(u))) == (StateView {
            updates: ups,
            ..base
        }),
    decreases ups.len(),
{
    let more = ups.map_values(|u: UpgradeView| update_line(u));
    if ups.len() == 0 {
        assert(g + more =~= g);
        assert(base.updates =~= ups);
    } else {
        let u = ups.last();
        let before = ups.drop_last();
        assert forall|i: int| 0 <= i < before.len() implies carriable(#[trigger] before[i]) by {
            assert(before[i] == ups[i]);
        }
        lemma_parsed_updates(g, base, before);
        let less = before.map_values(|u: UpgradeView| update_line(u));
        assert((g + more).drop_last() =~= g + less);
        assert((g + more).last() == update_line(u));
        lemma_update_line(StateView { updates: before, ..base }, u);
        assert(before.push(u) =~= ups);
    }
}

/// What is written is read back: the updates and the time as they were, the error message on one
/// line and trimmed.
pub proof fn state_is_read_back(s: StateView)
    requires
        forall|i: int| 0 <= i < s.updates.len() ==> carriable(#[trigger] s.updates[i]),
    ensures
        parsed(lines_of(written(state_lines(s)))) == on_one_line(s),
{
    let h = header_lines(s);
    let ups = s.updates.map_values(|u: UpgradeView| update_line(u));
    let ls = state_lines(s);
    lemma_header(s);
    assert forall|i: int| 0 <= i < ls.len() implies !(#[trigger] ls[i]).contains('\n') by {
        if i < h.len() {
            assert(ls[i] == h[i]);
        } else {
            assert(ls[i] == update_line(s.updates[i - h.len()]));
            lemma_update_line(StateView::never(), s.updates[i - h.len()]);
        }
    }
    lemma_lines_of_written(ls);
    let g = h.map_values(|l: Seq<char>| without_cr(l));
    assert(ls.map_values(|l: Seq<char>| without_cr(l)) =~= g + ups) by {
        assert forall|i: int| 0 <= i < ups.len() implies without_cr(#[trigger] ups[i])
            == ups[i] by {
            lemma_update_line(StateView::never(), s.updates[i]);
        }
    }
    let base = on_one_line(StateView { updates: Seq::empty(), ..s });
    lemma_parsed_updates(g, base, s.updates);
}

/// A state without an error comes back exactly as it was.
pub proof fn state_without_error_is_read_back(s: StateView)
    requires
        s.error is None,
        forall|i: int| 0 <= i < s.updates.len() ==> carriable(#[trigger] s.updates[i]),
    ensures
        parsed(lines_of(written(state_lines(s)))) == s,
{
    state_is_read_back(s);
}

} // verus!
