//! What the tools print is read back: laws of the parsers in [`crate::pacman`]. Each writes a
//! record as the tool prints it and says that reading gives the record again.

use crate::num::decimal;
use crate::pacman::{
    closed_packages, found, hit_of, info, open_fields, pending, synced, with_field, with_fields,
    HitView, PackageView, Reason, SyncView, UpgradeView,
};
use crate::text::{
    is_white, is_word, lines_of, lines_of_line_and_rest, trimmed, trimming_keeps_clean_text,
    words_of, words_of_one_word, words_of_word_and_rest,
};
use vstd::prelude::*;

verus! {

// ------------------------------------------------------------------ lines

/// Neither end of `s` is white space.
pub open spec fn neat(s: Seq<char>) -> bool {
    s.len() > 0 ==> !is_white(s[0]) && !is_white(s.last())
}

/// Some lines as a text, each ended by a line feed.
pub open spec fn page(lines: Seq<Seq<char>>) -> Seq<char>
    decreases lines.len(),
{
    if lines.len() == 0 {
        Seq::empty()
    } else {
        lines[0].push('\n') + page(lines.skip(1))
    }
}

/// `s` can stand on a line of its own.
pub open spec fn is_line(s: Seq<char>) -> bool {
    !s.contains('\n') && (s.len() > 0 ==> s.last() != '\r')
}

/// Lines that are written one below the other are read as those lines.
pub proof fn page_is_read_line_by_line(lines: Seq<Seq<char>>)
    requires
        forall|i: int| 0 <= i < lines.len() ==> is_line(#[trigger] lines[i]),
    ensures
        lines_of(page(lines)) == lines,
    decreases lines.len(),
{
    if lines.len() == 0 {
        assert(lines_of(page(lines)) =~= lines);
    } else {
        let rest = lines.skip(1);
        assert(is_line(lines[0]));
        assert forall|i: int| 0 <= i < rest.len() implies is_line(#[trigger] rest[i]) by {
            assert(rest[i] == lines[i + 1]);
        }
        page_is_read_line_by_line(rest);
        lines_of_line_and_rest(lines[0], page(rest));
        assert(seq![lines[0]] + rest =~= lines);
    }
}

// ------------------------------------------------------------------ updates

/// The updates of some lines are those of the first part, followed by those of the second: each
/// line counts for itself.
pub proof fn updates_of_two_parts(a: Seq<Seq<char>>, b: Seq<Seq<char>>, aur: bool)
    ensures
        pending(a + b, aur) == pending(a, aur) + pending(b, aur),
    decreases b.len(),
{
    if b.len() == 0 {
        assert(a + b =~= a);
        assert(pending(a, aur) + pending(b, aur) =~= pending(a, aur));
    } else {
        assert((a + b).drop_last() =~= a + b.drop_last());
        assert((a + b).last() == b.last());
        updates_of_two_parts(a, b.drop_last(), aur);
        assert(pending(a + b, aur) =~= pending(a, aur) + pending(b, aur));
    }
}

/// An update as it is printed.
pub open spec fn update_line(u: UpgradeView) -> Seq<char> {
    u.name + " "@ + (u.current + " "@ + ("->"@ + " "@ + u.new))
}

/// The name and the two versions of an update are words.
pub open spec fn has_words(u: UpgradeView) -> bool {
    is_word(u.name) && is_word(u.current) && is_word(u.new)
}

/// A line `name current -> new` is one update; it may have more behind it.
pub proof fn update_line_is_one_update(u: UpgradeView, rest: Seq<char>)
    requires
        has_words(u),
    ensures
        pending(seq![update_line(u)], u.aur) == seq![u],
        pending(seq![update_line(u) + " "@ + rest], u.aur) == seq![u],
{
    reveal_with_fuel(pending, 2);
    let l = update_line(u);
    lemma_update_words(u, rest);
    assert(seq![l].drop_last() =~= Seq::empty());
    let m = update_line(u) + " "@ + rest;
    assert(seq![m].drop_last() =~= Seq::empty());
    assert(pending(seq![l], u.aur) =~= seq![u]);
    assert(pending(seq![m], u.aur) =~= seq![u]);
}

proof fn lemma_update_words(u: UpgradeView, rest: Seq<char>)
    requires
        has_words(u),
    ensures
        words_of(update_line(u)) == seq![u.name, u.current, "->"@, u.new],
        words_of(update_line(u) + " "@ + rest) == seq![u.name, u.current, "->"@, u.new] + words_of(
            rest,
        ),
{
    reveal_strlit("->");
    assert(is_word("->"@));
    words_of_word_and_rest(u.name, u.current + " "@ + ("->"@ + " "@ + u.new));
    words_of_word_and_rest(u.current, "->"@ + " "@ + u.new);
    words_of_word_and_rest("->"@, u.new);
    words_of_one_word(u.new);
    assert(words_of(update_line(u)) =~= seq![u.name, u.current, "->"@, u.new]);
    let e = u.new + " "@ + rest;
    let d = "->"@ + " "@ + e;
    let c = u.current + " "@ + d;
    assert(update_line(u) + " "@ + rest =~= u.name + " "@ + c);
    words_of_word_and_rest(u.name, c);
    words_of_word_and_rest(u.current, d);
    words_of_word_and_rest("->"@, e);
    words_of_word_and_rest(u.new, rest);
    assert(words_of(update_line(u) + " "@ + rest) =~= seq![u.name, u.current, "->"@, u.new]
        + words_of(rest));
}

/// A line of fewer than four words, or one whose third word is not the arrow, is no update.
pub proof fn other_lines_are_no_updates(l: Seq<char>, aur: bool)
    requires
        words_of(l).len() < 4 || words_of(l)[2] != "->"@,
    ensures
        pending(seq![l], aur) == Seq::<UpgradeView>::empty(),
{
    reveal_with_fuel(pending, 2);
    assert(seq![l].drop_last() =~= Seq::empty());
}

/// Updates that are printed one per line are read as the same list: none is left out, none is
/// added, and they keep their order.
pub proof fn printed_updates_are_read_back(u: Seq<UpgradeView>, aur: bool)
    requires
        forall|i: int| 0 <= i < u.len() ==> has_words(#[trigger] u[i]) && u[i].aur == aur,
    ensures
        pending(u.map_values(|x: UpgradeView| update_line(x)), aur) == u,
        pending(lines_of(page(u.map_values(|x: UpgradeView| update_line(x)))), aur) == u,
    decreases u.len(),
{
    let lines = u.map_values(|x: UpgradeView| update_line(x));
    lemma_printed_updates(u, aur);
    assert forall|i: int| 0 <= i < lines.len() implies is_line(#[trigger] lines[i]) by {
        assert(has_words(u[i]));
        lemma_update_is_line(u[i]);
    }
    page_is_read_line_by_line(lines);
}

proof fn lemma_update_is_line(u: UpgradeView)
    requires
        has_words(u),
    ensures
        is_line(update_line(u)),
{
    reveal_strlit(" ");
    reveal_strlit("->");
    let l = update_line(u);
    assert forall|i: int| 0 <= i < l.len() implies l[i] != '\n' by {
        let a = u.name.len();
        let b = u.current.len();
        if i < a {
            assert(l[i] == u.name[i]);
        } else if i > a && i < a + 1 + b {
            assert(l[i] == u.current[i - a - 1]);
        } else if i > a + b + 4 {
            assert(l[i] == u.new[i - a - b - 5]);
        }
    }
    assert(l.last() == u.new.last());
}

proof fn lemma_printed_updates(u: Seq<UpgradeView>, aur: bool)
    requires
        forall|i: int| 0 <= i < u.len() ==> has_words(#[trigger] u[i]) && u[i].aur == aur,
    ensures
        pending(u.map_values(|x: UpgradeView| update_line(x)), aur) == u,
    decreases u.len(),
{
    let lines = u.map_values(|x: UpgradeView| update_line(x));
    if u.len() == 0 {
        assert(pending(lines, aur) =~= u);
    } else {
        let before = u.drop_last();
        assert forall|i: int| 0 <= i < before.len() implies has_words(#[trigger] before[i])
            && before[i].aur == aur by {
            assert(before[i] == u[i]);
        }
        lemma_printed_updates(before, aur);
        let first = before.map_values(|x: UpgradeView| update_line(x));
        assert(has_words(u.last()));
        assert(lines =~= first + seq![update_line(u.last())]);
        updates_of_two_parts(first, seq![update_line(u.last())], aur);
        update_line_is_one_update(u.last(), Seq::empty());
        assert(before + seq![u.last()] =~= u);
    }
}

// ------------------------------------------------------------------ packages

/// A field as it is printed.
pub open spec fn field_line(key: Seq<char>, value: Seq<char>) -> Seq<char> {
    key + " : "@ + value
}

/// `key` can stand before the colon of a field.
pub open spec fn is_key(key: Seq<char>) -> bool {
    key.len() > 0 && neat(key) && !key.contains(':')
}

/// Some entries with two spaces between them; `None` where there are none.
pub open spec fn printed_list(l: Seq<Seq<char>>) -> Seq<char>
    decreases l.len(),
{
    if l.len() == 0 {
        "None"@
    } else if l.len() == 1 {
        l[0]
    } else {
        l[0] + "  "@ + printed_list(l.skip(1))
    }
}

/// `s` can be an entry of a list: not blank, neat, and without two spaces side by side.
pub open spec fn is_entry(s: Seq<char>) -> bool {
    &&& s.len() > 0
    &&& neat(s)
    &&& forall|i: int| 0 <= i < s.len() - 1 ==> !(s[i] == ' ' && #[trigger] s[i + 1] == ' ')
}

/// `l` can be printed as a list.
pub open spec fn is_list(l: Seq<Seq<char>>) -> bool {
    &&& forall|i: int| 0 <= i < l.len() ==> is_entry(#[trigger] l[i])
    &&& l != seq!["None"@]
}

proof fn lemma_no_double(a: Seq<char>, rest: Seq<char>)
    requires
        is_entry(a),
    ensures
        crate::text::halves(a, "  "@) is None,
        crate::text::halves(a + "  "@ + rest, "  "@) == Some((a, rest)),
{
    reveal_strlit("  ");
    let p = "  "@;
    assert forall|i: int| !crate::text::occurs_at(a, p, i) by {
        if crate::text::occurs_at(a, p, i) {
            assert(a.subrange(i, i + 2)[0] == ' ');
            assert(a.subrange(i, i + 2)[1] == ' ');
            assert(a[i] == ' ' && a[i + 1] == ' ');
        }
    }
    let s = a + p + rest;
    let n = a.len() as int;
    assert(s.subrange(n, n + 2) =~= p);
    assert forall|j: int| 0 <= j < n implies !crate::text::occurs_at(s, p, j) by {
        if crate::text::occurs_at(s, p, j) {
            assert(s.subrange(j, j + 2)[0] == ' ');
            assert(s.subrange(j, j + 2)[1] == ' ');
            assert(s[j] == a[j]);
            if j + 1 < n {
                assert(s[j + 1] == a[j + 1]);
                assert(a[j] == ' ' && a[j + 1] == ' ');
            } else {
                assert(a.last() == ' ');
            }
        }
    }
    assert(crate::text::is_first(s, p, n));
    crate::text::lemma_first_at(s, p, n);
    assert(s.take(n) =~= a);
    assert(s.skip(n + 2) =~= rest);
}

proof fn lemma_nonblank_first(a: Seq<char>, more: Seq<Seq<char>>)
    requires
        a.len() > 0,
        neat(a),
    ensures
        crate::pacman::nonblank(seq![a] + more) == seq![a] + crate::pacman::nonblank(more),
    decreases more.len(),
{
    let all = seq![a] + more;
    trimming_keeps_clean_text(a);
    if more.len() == 0 {
        reveal_with_fuel(crate::pacman::nonblank, 2);
        assert(all.drop_last() =~= Seq::empty());
        assert(crate::pacman::nonblank(all) =~= seq![a] + crate::pacman::nonblank(more));
    } else {
        assert(all.drop_last() =~= seq![a] + more.drop_last());
        assert(all.last() == more.last());
        lemma_nonblank_first(a, more.drop_last());
        assert(crate::pacman::nonblank(all) =~= seq![a] + crate::pacman::nonblank(more));
    }
}

proof fn lemma_pieces_of_list(l: Seq<Seq<char>>)
    requires
        l.len() > 0,
        forall|i: int| 0 <= i < l.len() ==> is_entry(#[trigger] l[i]),
    ensures
        crate::pacman::nonblank(crate::text::pieces_by(printed_list(l), "  "@)) == l,
        printed_list(l).len() > 0,
        neat(printed_list(l)),
        l.len() > 1 ==> exists|i: int| 0 <= i < printed_list(l).len() && printed_list(l)[i] == ' ',
    decreases l.len(),
{
    reveal_strlit("  ");
    assert(is_entry(l[0]));
    let s = printed_list(l);
    if l.len() == 1 {
        lemma_no_double(l[0], Seq::empty());
        assert(crate::text::pieces_by(s, "  "@) == seq![l[0]]);
        lemma_nonblank_first(l[0], Seq::empty());
        assert(seq![l[0]] + Seq::<Seq<char>>::empty() =~= seq![l[0]]);
        assert(crate::pacman::nonblank(Seq::empty()) =~= Seq::empty());
        assert(l =~= seq![l[0]]);
    } else {
        let rest = l.skip(1);
        assert forall|i: int| 0 <= i < rest.len() implies is_entry(#[trigger] rest[i]) by {
            assert(rest[i] == l[i + 1]);
        }
        lemma_pieces_of_list(rest);
        lemma_no_double(l[0], printed_list(rest));
        lemma_nonblank_first(l[0], crate::text::pieces_by(printed_list(rest), "  "@));
        assert(seq![l[0]] + rest =~= l);
        assert(s[l[0].len() as int] == ' ');
        assert(s[0] == l[0][0]);
        assert(s.last() == printed_list(rest).last());
    }
}

/// A list is read back entry by entry.
pub proof fn printed_list_is_read_back(l: Seq<Seq<char>>)
    requires
        is_list(l),
    ensures
        crate::pacman::list_of(printed_list(l)) == l,
        neat(printed_list(l)),
{
    reveal_strlit("None");
    if l.len() == 0 {
        assert(l =~= Seq::empty());
    } else {
        lemma_pieces_of_list(l);
        if printed_list(l) == "None"@ {
            if l.len() > 1 {
                let i = choose|i: int|
                    0 <= i < printed_list(l).len() && printed_list(l)[i] == ' ';
                assert("None"@[i] == ' ');
            } else {
                assert(l =~= seq!["None"@]);
            }
        }
    }
}

/// A field line is one field more of the block that is open, and closes none.
proof fn lemma_field_line(before: Seq<Seq<char>>, key: Seq<char>, value: Seq<char>)
    requires
        is_key(key),
        neat(value),
    ensures
        open_fields(before.push(field_line(key, value))) == open_fields(before).push((key, value)),
        forall|installed: bool| #[trigger]
            closed_packages(before.push(field_line(key, value)), installed) == closed_packages(
                before,
                installed,
            ),
{
    reveal_strlit(" : ");
    reveal_strlit(":");
    let l = field_line(key, value);
    let lines = before.push(l);
    assert(lines.drop_last() =~= before);
    assert(l[0] == key[0]);
    assert(trimmed(l).len() > 0) by {
        crate::text::lemma_trimmed_start_len(l);
        assert(crate::text::trimmed_start(l) == l);
        lemma_trimmed_keeps_start(l);
    }
    assert(!crate::pacman::is_indented(l));
    let k = key.len() as int + 1;
    assert(l.subrange(k, k + 1) =~= ":"@);
    assert forall|j: int| 0 <= j < k implies !crate::text::occurs_at(l, ":"@, j) by {
        if crate::text::occurs_at(l, ":"@, j) {
            assert(l.subrange(j, j + 1)[0] == ':');
            if j < key.len() {
                assert(key[j] == ':');
            }
        }
    }
    assert(crate::text::is_first(l, ":"@, k));
    crate::text::lemma_first_at(l, ":"@, k);
    let a = l.take(k);
    let b = l.skip(k + 1);
    assert(crate::text::halves(l, ":"@) == Some((a, b)));
    assert(a.drop_last() =~= key);
    assert(b.skip(1) =~= value);
    lemma_trimmed_right(key, a);
    lemma_trimmed_left(value, b);
}

proof fn lemma_trimmed_keeps_start(s: Seq<char>)
    requires
        s.len() > 0,
        !is_white(s[0]),
    ensures
        crate::text::trimmed_end(s).len() > 0,
    decreases s.len(),
{
    if is_white(s.last()) {
        assert(s.len() > 1);
        lemma_trimmed_keeps_start(s.drop_last());
    }
}

proof fn lemma_trimmed_right(key: Seq<char>, a: Seq<char>)
    requires
        key.len() > 0,
        neat(key),
        a.len() == key.len() + 1,
        a.last() == ' ',
        a.drop_last() == key,
    ensures
        trimmed(a) == key,
{
    assert(a[0] == key[0]);
    assert(crate::text::trimmed_start(a) == a);
    assert(crate::text::trimmed_end(a) == crate::text::trimmed_end(a.drop_last()));
}

proof fn lemma_trimmed_left(value: Seq<char>, b: Seq<char>)
    requires
        neat(value),
        b.len() == value.len() + 1,
        b[0] == ' ',
        b.skip(1) == value,
    ensures
        trimmed(b) == value,
{
    assert(b.drop_first() =~= value);
    assert(crate::text::trimmed_start(b) == crate::text::trimmed_start(value));
    trimming_keeps_clean_text(value);
    assert(crate::text::trimmed_start(value) == value);
}

/// How a package is printed where there is a choice.
pub struct Wording {
    /// The key of the repo: that of `-Si` or of `-Qi`.
    pub repo_key: Seq<char>,
    /// The install reason in words.
    pub reason: Seq<char>,
    /// Since when it is out of date, or `No`.
    pub out_of_date: Seq<char>,
}

/// A value that may be empty, which is printed `None`.
pub open spec fn or_none(v: Seq<char>) -> Seq<char> {
    if v.len() == 0 {
        "None"@
    } else {
        v
    }
}

/// A value that may be absent, which is printed `None`.
pub open spec fn or_none_text(v: Option<Seq<char>>) -> Seq<char> {
    match v {
        Some(t) => t,
        None => "None"@,
    }
}

/// The votes, or `None`.
pub open spec fn printed_votes(v: Option<u32>) -> Seq<char> {
    match v {
        Some(n) => crate::num::decimal(n as nat),
        None => "None"@,
    }
}

/// What is printed of a package, in the order of its fields.
pub open spec fn printed_values(p: PackageView, w: Wording) -> Seq<Seq<char>> {
    seq![
        p.name,
        p.version,
        or_none(p.desc),
        p.repo,
        or_none(p.url),
        printed_list(p.licenses),
        printed_list(p.groups),
        printed_list(p.provides),
        printed_list(p.depends),
        printed_list(p.optdepends),
        printed_list(p.required_by),
        printed_list(p.conflicts),
        or_none_text(p.installed_size),
        or_none_text(p.download_size),
        p.build_date,
        p.install_date,
        w.reason,
        p.packager,
        p.maintainer,
        p.validated,
        printed_votes(p.votes),
        or_none_text(p.popularity),
        w.out_of_date,
        p.last_modified,
    ]
}

/// Some values under pacman's keys.
pub open spec fn keyed(v: Seq<Seq<char>>, w: Wording) -> Seq<(Seq<char>, Seq<char>)> {
    Seq::<(Seq<char>, Seq<char>)>::empty()
        .push(("Name"@, v[0]))
        .push(("Version"@, v[1]))
        .push(("Description"@, v[2]))
        .push((w.repo_key, v[3]))
        .push(("URL"@, v[4]))
        .push(("Licenses"@, v[5]))
        .push(("Groups"@, v[6]))
        .push(("Provides"@, v[7]))
        .push(("Depends On"@, v[8]))
        .push(("Optional Deps"@, v[9]))
        .push(("Required By"@, v[10]))
        .push(("Conflicts With"@, v[11]))
        .push(("Installed Size"@, v[12]))
        .push(("Download Size"@, v[13]))
        .push(("Build Date"@, v[14]))
        .push(("Install Date"@, v[15]))
        .push(("Install Reason"@, v[16]))
        .push(("Packager"@, v[17]))
        .push(("Maintainer"@, v[18]))
        .push(("Validated By"@, v[19]))
        .push(("Votes"@, v[20]))
        .push(("Popularity"@, v[21]))
        .push(("Out-of-date"@, v[22]))
        .push(("Last Modified"@, v[23]))
}

/// A package as the fields that are printed of it.
pub open spec fn printed_fields(p: PackageView, w: Wording) -> Seq<(Seq<char>, Seq<char>)> {
    keyed(printed_values(p, w), w)
}

/// A number and its unit.
pub open spec fn is_size(s: Seq<char>) -> bool {
    exists|n: Seq<char>, u: Seq<char>|
        is_word(n) && is_word(u) && crate::num::is_fraction(n) && s == #[trigger] (n + " "@ + u)
}

/// The words say what the package is.
pub open spec fn fits(p: PackageView, w: Wording) -> bool {
    &&& w.repo_key == "Repository"@ || w.repo_key == "Installed From"@
    &&& neat(w.reason) && neat(w.out_of_date)
    &&& p.reason == Reason::Explicit ==> "Explicitly"@.is_prefix_of(w.reason)
    &&& p.reason == Reason::Dependency ==> "Installed as a dependency"@.is_prefix_of(w.reason)
    &&& p.reason == Reason::Unknown ==> !"Explicitly"@.is_prefix_of(w.reason)
        && !"Installed as a dependency"@.is_prefix_of(w.reason)
    &&& p.out_of_date == (w.out_of_date != "No"@)
}

/// The package can be printed: it has a name, its texts are neat, its lists are lists, its numbers
/// numbers; and it holds nothing that is not printed.
pub open spec fn printable(p: PackageView) -> bool {
    &&& p.name.len() > 0
    &&& neat(p.name) && neat(p.version) && neat(p.desc) && neat(p.repo) && neat(p.url)
    &&& neat(p.build_date) && neat(p.install_date) && neat(p.packager) && neat(p.maintainer)
    &&& neat(p.validated) && neat(p.last_modified)
    &&& p.desc != "None"@ && p.url != "None"@
    &&& is_list(p.licenses) && is_list(p.groups) && is_list(p.provides) && is_list(p.depends)
    &&& is_list(p.optdepends) && is_list(p.required_by) && is_list(p.conflicts)
    &&& p.installed_size matches Some(t) ==> is_size(t)
    &&& p.download_size matches Some(t) ==> is_size(t)
    &&& p.popularity matches Some(t) ==> is_word(t) && crate::num::is_fraction(t)
    &&& p.size_rank == 0 && p.latest is None && !p.orphan
}

proof fn lemma_fields(fields: Seq<(Seq<char>, Seq<char>)>, installed: bool)
    requires
        forall|i: int|
            0 <= i < fields.len() ==> is_key((#[trigger] fields[i]).0) && neat(fields[i].1),
    ensures
        ({
            let lines = fields.map_values(|f: (Seq<char>, Seq<char>)| field_line(f.0, f.1));
            &&& open_fields(lines) == fields
            &&& closed_packages(lines, installed) == Seq::<PackageView>::empty()
        }),
    decreases fields.len(),
{
    let lines = fields.map_values(|f: (Seq<char>, Seq<char>)| field_line(f.0, f.1));
    if fields.len() == 0 {
        assert(open_fields(lines) =~= fields);
    } else {
        let before = fields.drop_last();
        assert forall|i: int| 0 <= i < before.len() implies is_key((#[trigger] before[i]).0)
            && neat(before[i].1) by {
            assert(before[i] == fields[i]);
        }
        lemma_fields(before, installed);
        let first = before.map_values(|f: (Seq<char>, Seq<char>)| field_line(f.0, f.1));
        let last = fields.last();
        assert(fields[fields.len() - 1] == last);
        lemma_field_line(first, last.0, last.1);
        assert(lines =~= first.push(field_line(last.0, last.1)));
        assert(before.push(last) =~= fields);
    }
}

proof fn lemma_step(
    start: PackageView,
    f: Seq<(Seq<char>, Seq<char>)>,
    k: Seq<char>,
    v: Seq<char>,
)
    requires
        neat(v),
    ensures
        with_fields(start, f.push((k, v))) == with_field(with_fields(start, f), k, v),
{
    assert(f.push((k, v)).drop_last() =~= f);
    trimming_keeps_clean_text(v);
}

/// What tells the keys apart: their lengths and some of their letters.
proof fn lemma_keys()
    ensures
        "Name"@.len() == 4,
        "Name"@[0] == 'N',
        "Name"@[1] == 'a',
        "Version"@.len() == 7,
        "Version"@[0] == 'V',
        "Version"@[1] == 'e',
        "Description"@.len() == 11,
        "Description"@[0] == 'D',
        "Description"@[1] == 'e',
        "URL"@.len() == 3,
        "URL"@[0] == 'U',
        "URL"@[1] == 'R',
        "Licenses"@.len() == 8,
        "Licenses"@[0] == 'L',
        "Licenses"@[1] == 'i',
        "Groups"@.len() == 6,
        "Groups"@[0] == 'G',
        "Groups"@[1] == 'r',
        "Provides"@.len() == 8,
        "Provides"@[0] == 'P',
        "Provides"@[1] == 'r',
        "Depends On"@.len() == 10,
        "Depends On"@[0] == 'D',
        "Depends On"@[1] == 'e',
        "Optional Deps"@.len() == 13,
        "Optional Deps"@[0] == 'O',
        "Optional Deps"@[1] == 'p',
        "Required By"@.len() == 11,
        "Required By"@[0] == 'R',
        "Required By"@[1] == 'e',
        "Conflicts With"@.len() == 14,
        "Conflicts With"@[0] == 'C',
        "Conflicts With"@[1] == 'o',
        "Conflicts With"@[7] == 't',
        "Conflicts With"@[10] == 'W',
        "Installed Size"@.len() == 14,
        "Installed Size"@[0] == 'I',
        "Installed Size"@[1] == 'n',
        "Installed Size"@[7] == 'e',
        "Installed Size"@[10] == 'S',
        "Download Size"@.len() == 13,
        "Download Size"@[0] == 'D',
        "Download Size"@[1] == 'o',
        "Build Date"@.len() == 10,
        "Build Date"@[0] == 'B',
        "Build Date"@[1] == 'u',
        "Install Date"@.len() == 12,
        "Install Date"@[0] == 'I',
        "Install Date"@[1] == 'n',
        "Install Reason"@.len() == 14,
        "Install Reason"@[0] == 'I',
        "Install Reason"@[1] == 'n',
        "Install Reason"@[7] == ' ',
        "Install Reason"@[10] == 'a',
        "Packager"@.len() == 8,
        "Packager"@[0] == 'P',
        "Packager"@[1] == 'a',
        "Maintainer"@.len() == 10,
        "Maintainer"@[0] == 'M',
        "Maintainer"@[1] == 'a',
        "Validated By"@.len() == 12,
        "Validated By"@[0] == 'V',
        "Validated By"@[1] == 'a',
        "Votes"@.len() == 5,
        "Votes"@[0] == 'V',
        "Votes"@[1] == 'o',
        "Popularity"@.len() == 10,
        "Popularity"@[0] == 'P',
        "Popularity"@[1] == 'o',
        "Out-of-date"@.len() == 11,
        "Out-of-date"@[0] == 'O',
        "Out-of-date"@[1] == 'u',
        "Last Modified"@.len() == 13,
        "Last Modified"@[0] == 'L',
        "Last Modified"@[1] == 'a',
        "Repository"@.len() == 10,
        "Repository"@[0] == 'R',
        "Repository"@[1] == 'e',
        "Installed From"@.len() == 14,
        "Installed From"@[0] == 'I',
        "Installed From"@[1] == 'n',
        "Installed From"@[7] == 'e',
        "Installed From"@[10] == 'F',
{
    reveal_strlit("Name");
    reveal_strlit("Version");
    reveal_strlit("Description");
    reveal_strlit("URL");
    reveal_strlit("Licenses");
    reveal_strlit("Groups");
    reveal_strlit("Provides");
    reveal_strlit("Depends On");
    reveal_strlit("Optional Deps");
    reveal_strlit("Required By");
    reveal_strlit("Conflicts With");
    reveal_strlit("Installed Size");
    reveal_strlit("Download Size");
    reveal_strlit("Build Date");
    reveal_strlit("Install Date");
    reveal_strlit("Install Reason");
    reveal_strlit("Packager");
    reveal_strlit("Maintainer");
    reveal_strlit("Validated By");
    reveal_strlit("Votes");
    reveal_strlit("Popularity");
    reveal_strlit("Out-of-date");
    reveal_strlit("Last Modified");
    reveal_strlit("Repository");
    reveal_strlit("Installed From");
}

/// The package after some fields.
#[verifier::opaque]
spec fn after_fields(start: PackageView, f: Seq<(Seq<char>, Seq<char>)>) -> PackageView {
    with_fields(start, f)
}

proof fn lemma_field_name(start: PackageView, f: Seq<(Seq<char>, Seq<char>)>, v: Seq<char>)
    requires
        neat(v),
    ensures
        after_fields(start, f.push(("Name"@, v))) == (PackageView { name: v, ..after_fields(start, f) }),
{
    reveal(after_fields);
    lemma_keys();
    lemma_step(start, f, "Name"@, v);
}

proof fn lemma_field_version(start: PackageView, f: Seq<(Seq<char>, Seq<char>)>, v: Seq<char>)
    requires
        neat(v),
    ensures
        after_fields(start, f.push(("Version"@, v))) == (PackageView { version: v, ..after_fields(start, f) }),
{
    reveal(after_fields);
    lemma_keys();
    lemma_step(start, f, "Version"@, v);
}

proof fn lemma_field_description(start: PackageView, f: Seq<(Seq<char>, Seq<char>)>, v: Seq<char>)
    requires
        neat(v),
    ensures
        after_fields(start, f.push(("Description"@, v))) == (PackageView { desc: crate::pacman::or_empty(v), ..after_fields(start, f) }),
{
    reveal(after_fields);
    lemma_keys();
    lemma_step(start, f, "Description"@, v);
}

proof fn lemma_field_url(start: PackageView, f: Seq<(Seq<char>, Seq<char>)>, v: Seq<char>)
    requires
        neat(v),
    ensures
        after_fields(start, f.push(("URL"@, v))) == (PackageView { url: crate::pacman::or_empty(v), ..after_fields(start, f) }),
{
    reveal(after_fields);
    lemma_keys();
    lemma_step(start, f, "URL"@, v);
}

proof fn lemma_field_licenses(start: PackageView, f: Seq<(Seq<char>, Seq<char>)>, v: Seq<char>)
    requires
        neat(v),
    ensures
        after_fields(start, f.push(("Licenses"@, v))) == (PackageView { licenses: crate::pacman::list_of(v), ..after_fields(start, f) }),
{
    reveal(after_fields);
    lemma_keys();
    lemma_step(start, f, "Licenses"@, v);
}

proof fn lemma_field_groups(start: PackageView, f: Seq<(Seq<char>, Seq<char>)>, v: Seq<char>)
    requires
        neat(v),
    ensures
        after_fields(start, f.push(("Groups"@, v))) == (PackageView { groups: crate::pacman::list_of(v), ..after_fields(start, f) }),
{
    reveal(after_fields);
    lemma_keys();
    lemma_step(start, f, "Groups"@, v);
}

proof fn lemma_field_provides(start: PackageView, f: Seq<(Seq<char>, Seq<char>)>, v: Seq<char>)
    requires
        neat(v),
    ensures
        after_fields(start, f.push(("Provides"@, v))) == (PackageView { provides: crate::pacman::list_of(v), ..after_fields(start, f) }),
{
    reveal(after_fields);
    lemma_keys();
    lemma_step(start, f, "Provides"@, v);
}

proof fn lemma_field_depends_on(start: PackageView, f: Seq<(Seq<char>, Seq<char>)>, v: Seq<char>)
    requires
        neat(v),
    ensures
        after_fields(start, f.push(("Depends On"@, v))) == (PackageView { depends: crate::pacman::list_of(v), ..after_fields(start, f) }),
{
    reveal(after_fields);
    lemma_keys();
    lemma_step(start, f, "Depends On"@, v);
}

proof fn lemma_field_optional_deps(start: PackageView, f: Seq<(Seq<char>, Seq<char>)>, v: Seq<char>)
    requires
        neat(v),
    ensures
        after_fields(start, f.push(("Optional Deps"@, v))) == (PackageView { optdepends: crate::pacman::list_of(v), ..after_fields(start, f) }),
{
    reveal(after_fields);
    lemma_keys();
    lemma_step(start, f, "Optional Deps"@, v);
}

proof fn lemma_field_required_by(start: PackageView, f: Seq<(Seq<char>, Seq<char>)>, v: Seq<char>)
    requires
        neat(v),
    ensures
        after_fields(start, f.push(("Required By"@, v))) == (PackageView { required_by: crate::pacman::list_of(v), ..after_fields(start, f) }),
{
    reveal(after_fields);
    lemma_keys();
    lemma_step(start, f, "Required By"@, v);
}

proof fn lemma_field_conflicts_with(start: PackageView, f: Seq<(Seq<char>, Seq<char>)>, v: Seq<char>)
    requires
        neat(v),
    ensures
        after_fields(start, f.push(("Conflicts With"@, v))) == (PackageView { conflicts: crate::pacman::list_of(v), ..after_fields(start, f) }),
{
    reveal(after_fields);
    lemma_keys();
    lemma_step(start, f, "Conflicts With"@, v);
}

proof fn lemma_field_installed_size(start: PackageView, f: Seq<(Seq<char>, Seq<char>)>, v: Seq<char>)
    requires
        neat(v),
    ensures
        after_fields(start, f.push(("Installed Size"@, v))) == (PackageView { installed_size: crate::pacman::size_text(v), ..after_fields(start, f) }),
{
    reveal(after_fields);
    lemma_keys();
    lemma_step(start, f, "Installed Size"@, v);
}

proof fn lemma_field_download_size(start: PackageView, f: Seq<(Seq<char>, Seq<char>)>, v: Seq<char>)
    requires
        neat(v),
    ensures
        after_fields(start, f.push(("Download Size"@, v))) == (PackageView { download_size: crate::pacman::size_text(v), ..after_fields(start, f) }),
{
    reveal(after_fields);
    lemma_keys();
    lemma_step(start, f, "Download Size"@, v);
}

proof fn lemma_field_build_date(start: PackageView, f: Seq<(Seq<char>, Seq<char>)>, v: Seq<char>)
    requires
        neat(v),
    ensures
        after_fields(start, f.push(("Build Date"@, v))) == (PackageView { build_date: v, ..after_fields(start, f) }),
{
    reveal(after_fields);
    lemma_keys();
    lemma_step(start, f, "Build Date"@, v);
}

proof fn lemma_field_install_date(start: PackageView, f: Seq<(Seq<char>, Seq<char>)>, v: Seq<char>)
    requires
        neat(v),
    ensures
        after_fields(start, f.push(("Install Date"@, v))) == (PackageView { install_date: v, ..after_fields(start, f) }),
{
    reveal(after_fields);
    lemma_keys();
    lemma_step(start, f, "Install Date"@, v);
}

proof fn lemma_field_install_reason(start: PackageView, f: Seq<(Seq<char>, Seq<char>)>, v: Seq<char>)
    requires
        neat(v),
    ensures
        after_fields(start, f.push(("Install Reason"@, v))) == (PackageView { reason: crate::pacman::reason_of(v), ..after_fields(start, f) }),
{
    reveal(after_fields);
    lemma_keys();
    lemma_step(start, f, "Install Reason"@, v);
}

proof fn lemma_field_packager(start: PackageView, f: Seq<(Seq<char>, Seq<char>)>, v: Seq<char>)
    requires
        neat(v),
    ensures
        after_fields(start, f.push(("Packager"@, v))) == (PackageView { packager: v, ..after_fields(start, f) }),
{
    reveal(after_fields);
    lemma_keys();
    lemma_step(start, f, "Packager"@, v);
}

proof fn lemma_field_maintainer(start: PackageView, f: Seq<(Seq<char>, Seq<char>)>, v: Seq<char>)
    requires
        neat(v),
    ensures
        after_fields(start, f.push(("Maintainer"@, v))) == (PackageView { maintainer: v, ..after_fields(start, f) }),
{
    reveal(after_fields);
    lemma_keys();
    lemma_step(start, f, "Maintainer"@, v);
}

proof fn lemma_field_validated_by(start: PackageView, f: Seq<(Seq<char>, Seq<char>)>, v: Seq<char>)
    requires
        neat(v),
    ensures
        after_fields(start, f.push(("Validated By"@, v))) == (PackageView { validated: v, ..after_fields(start, f) }),
{
    reveal(after_fields);
    lemma_keys();
    lemma_step(start, f, "Validated By"@, v);
}

proof fn lemma_field_votes(start: PackageView, f: Seq<(Seq<char>, Seq<char>)>, v: Seq<char>)
    requires
        neat(v),
    ensures
        after_fields(start, f.push(("Votes"@, v))) == (PackageView { votes: crate::pacman::u32_of(v), ..after_fields(start, f) }),
{
    reveal(after_fields);
    lemma_keys();
    lemma_step(start, f, "Votes"@, v);
}

proof fn lemma_field_popularity(start: PackageView, f: Seq<(Seq<char>, Seq<char>)>, v: Seq<char>)
    requires
        neat(v),
    ensures
        after_fields(start, f.push(("Popularity"@, v))) == (PackageView { popularity: crate::pacman::fraction_text(v), ..after_fields(start, f) }),
{
    reveal(after_fields);
    lemma_keys();
    lemma_step(start, f, "Popularity"@, v);
}

proof fn lemma_field_out_of_date(start: PackageView, f: Seq<(Seq<char>, Seq<char>)>, v: Seq<char>)
    requires
        neat(v),
    ensures
        after_fields(start, f.push(("Out-of-date"@, v))) == (PackageView { out_of_date: v != "No"@, ..after_fields(start, f) }),
{
    reveal(after_fields);
    lemma_keys();
    lemma_step(start, f, "Out-of-date"@, v);
}

proof fn lemma_field_last_modified(start: PackageView, f: Seq<(Seq<char>, Seq<char>)>, v: Seq<char>)
    requires
        neat(v),
    ensures
        after_fields(start, f.push(("Last Modified"@, v))) == (PackageView { last_modified: v, ..after_fields(start, f) }),
{
    reveal(after_fields);
    lemma_keys();
    lemma_step(start, f, "Last Modified"@, v);
}

proof fn lemma_field_repository(start: PackageView, f: Seq<(Seq<char>, Seq<char>)>, v: Seq<char>)
    requires
        neat(v),
    ensures
        after_fields(start, f.push(("Repository"@, v))) == (PackageView { repo: v, ..after_fields(start, f) }),
{
    reveal(after_fields);
    lemma_keys();
    lemma_step(start, f, "Repository"@, v);
}

proof fn lemma_field_installed_from(start: PackageView, f: Seq<(Seq<char>, Seq<char>)>, v: Seq<char>)
    requires
        neat(v),
    ensures
        after_fields(start, f.push(("Installed From"@, v))) == (PackageView { repo: v, ..after_fields(start, f) }),
{
    reveal(after_fields);
    lemma_keys();
    lemma_step(start, f, "Installed From"@, v);
}

proof fn lemma_is_key(k: Seq<char>)
    requires
        k == "Name"@
            || k == "Version"@
            || k == "Description"@
            || k == "URL"@
            || k == "Licenses"@
            || k == "Groups"@
            || k == "Provides"@
            || k == "Depends On"@
            || k == "Optional Deps"@
            || k == "Required By"@
            || k == "Conflicts With"@
            || k == "Installed Size"@
            || k == "Download Size"@
            || k == "Build Date"@
            || k == "Install Date"@
            || k == "Install Reason"@
            || k == "Packager"@
            || k == "Maintainer"@
            || k == "Validated By"@
            || k == "Votes"@
            || k == "Popularity"@
            || k == "Out-of-date"@
            || k == "Last Modified"@
            || k == "Repository"@
            || k == "Installed From"@,
    ensures
        is_key(k),
{
    reveal_strlit("Name");
    reveal_strlit("Version");
    reveal_strlit("Description");
    reveal_strlit("URL");
    reveal_strlit("Licenses");
    reveal_strlit("Groups");
    reveal_strlit("Provides");
    reveal_strlit("Depends On");
    reveal_strlit("Optional Deps");
    reveal_strlit("Required By");
    reveal_strlit("Conflicts With");
    reveal_strlit("Installed Size");
    reveal_strlit("Download Size");
    reveal_strlit("Build Date");
    reveal_strlit("Install Date");
    reveal_strlit("Install Reason");
    reveal_strlit("Packager");
    reveal_strlit("Maintainer");
    reveal_strlit("Validated By");
    reveal_strlit("Votes");
    reveal_strlit("Popularity");
    reveal_strlit("Out-of-date");
    reveal_strlit("Last Modified");
    reveal_strlit("Repository");
    reveal_strlit("Installed From");
}

proof fn lemma_none()
    ensures
        neat("None"@),
        crate::pacman::size_text("None"@) is None,
        crate::pacman::fraction_text("None"@) is None,
        crate::pacman::u32_of("None"@) is None,
{
    reveal_strlit("None");
    reveal_strlit("inf");
    reveal_strlit("infinity");
    reveal_strlit("nan");
    let n = "None"@;
    assert(is_word(n));
    words_of_one_word(n);
    assert(crate::num::unsigned(n) == n);
    assert(crate::num::after_digits(n) == n);
    assert(!crate::num::spells(n, "inf"@, "INF"@));
    assert(!crate::num::spells(n, "infinity"@, "INFINITY"@));
    assert(!crate::num::spells(n, "nan"@, "NAN"@));
    assert(!crate::num::is_fraction(n));
    assert(!crate::num::all_digits(n)) by {
        assert(!crate::num::is_digit(n[0]));
    }
}

proof fn lemma_size(t: Seq<char>)
    requires
        is_size(t),
    ensures
        neat(t),
        crate::pacman::size_text(t) == Some(t),
{
    let (n, u) = choose|n: Seq<char>, u: Seq<char>|
        is_word(n) && is_word(u) && crate::num::is_fraction(n) && t == #[trigger] (n + " "@ + u);
    words_of_word_and_rest(n, u);
    reveal_strlit(" ");
    assert(t[0] == n[0]);
    assert(t.last() == u.last());
}

proof fn lemma_printed_votes(v: Option<u32>)
    ensures
        neat(printed_votes(v)),
        crate::pacman::u32_of(printed_votes(v)) == v,
{
    lemma_none();
    if let Some(n) = v {
        let d = crate::num::decimal(n as nat);
        crate::num::lemma_decimal(n as nat);
        crate::num::decimal_is_read_back(n as nat, u32::MAX as nat);
        assert(crate::num::is_digit(d[0]));
        assert(crate::num::is_digit(d[d.len() - 1]));
    }
}

proof fn lemma_or_none(v: Seq<char>)
    requires
        neat(v),
        v != "None"@,
    ensures
        neat(or_none(v)),
        crate::pacman::or_empty(or_none(v)) == v,
{
    lemma_none();
    if v.len() == 0 {
        assert(v =~= Seq::empty());
    }
}

proof fn lemma_reason(p: PackageView, w: Wording)
    requires
        fits(p, w),
    ensures
        crate::pacman::reason_of(w.reason) == p.reason,
{
    reveal_strlit("Explicitly");
    reveal_strlit("Installed as a dependency");
    if "Installed as a dependency"@.is_prefix_of(w.reason) && "Explicitly"@.is_prefix_of(w.reason) {
        assert(w.reason.subrange(0, "Installed as a dependency"@.len() as int)[0] == 'I');
        assert(w.reason.subrange(0, "Explicitly"@.len() as int)[0] == 'E');
    }
}

/// What some fields make of a package.
proof fn lemma_all_fields(start: PackageView, v: Seq<Seq<char>>, w: Wording)
    requires
        v.len() == 24,
        forall|i: int| 0 <= i < 24 ==> neat(#[trigger] v[i]),
        w.repo_key == "Repository"@ || w.repo_key == "Installed From"@,
    ensures
        with_fields(start, keyed(v, w)) == (PackageView {
            name: v[0],
            version: v[1],
            desc: crate::pacman::or_empty(v[2]),
            repo: v[3],
            url: crate::pacman::or_empty(v[4]),
            licenses: crate::pacman::list_of(v[5]),
            groups: crate::pacman::list_of(v[6]),
            provides: crate::pacman::list_of(v[7]),
            depends: crate::pacman::list_of(v[8]),
            optdepends: crate::pacman::list_of(v[9]),
            required_by: crate::pacman::list_of(v[10]),
            conflicts: crate::pacman::list_of(v[11]),
            installed_size: crate::pacman::size_text(v[12]),
            download_size: crate::pacman::size_text(v[13]),
            build_date: v[14],
            install_date: v[15],
            reason: crate::pacman::reason_of(v[16]),
            packager: v[17],
            maintainer: v[18],
            validated: v[19],
            votes: crate::pacman::u32_of(v[20]),
            popularity: crate::pacman::fraction_text(v[21]),
            out_of_date: v[22] != "No"@,
            last_modified: v[23],
            ..start
        }),
        forall|i: int| 0 <= i < keyed(v, w).len() ==> is_key((#[trigger] keyed(v, w)[i]).0) && neat(
            keyed(v, w)[i].1,
        ),
{
    let g0 = Seq::<(Seq<char>, Seq<char>)>::empty();
    assert(after_fields(start, g0) == start) by {
        reveal(after_fields);
    }
    let g1 = g0.push(("Name"@, v[0]));
    lemma_field_name(start, g0, v[0]);
    let g2 = g1.push(("Version"@, v[1]));
    lemma_field_version(start, g1, v[1]);
    let g3 = g2.push(("Description"@, v[2]));
    lemma_field_description(start, g2, v[2]);
    let g4 = g3.push((w.repo_key, v[3]));
    if w.repo_key == "Repository"@ {
        lemma_field_repository(start, g3, v[3]);
    } else {
        lemma_field_installed_from(start, g3, v[3]);
    }
    let g5 = g4.push(("URL"@, v[4]));
    lemma_field_url(start, g4, v[4]);
    let g6 = g5.push(("Licenses"@, v[5]));
    lemma_field_licenses(start, g5, v[5]);
    let g7 = g6.push(("Groups"@, v[6]));
    lemma_field_groups(start, g6, v[6]);
    let g8 = g7.push(("Provides"@, v[7]));
    lemma_field_provides(start, g7, v[7]);
    let g9 = g8.push(("Depends On"@, v[8]));
    lemma_field_depends_on(start, g8, v[8]);
    let g10 = g9.push(("Optional Deps"@, v[9]));
    lemma_field_optional_deps(start, g9, v[9]);
    let g11 = g10.push(("Required By"@, v[10]));
    lemma_field_required_by(start, g10, v[10]);
    let g12 = g11.push(("Conflicts With"@, v[11]));
    lemma_field_conflicts_with(start, g11, v[11]);
    let g13 = g12.push(("Installed Size"@, v[12]));
    lemma_field_installed_size(start, g12, v[12]);
    let g14 = g13.push(("Download Size"@, v[13]));
    lemma_field_download_size(start, g13, v[13]);
    let g15 = g14.push(("Build Date"@, v[14]));
    lemma_field_build_date(start, g14, v[14]);
    let g16 = g15.push(("Install Date"@, v[15]));
    lemma_field_install_date(start, g15, v[15]);
    let g17 = g16.push(("Install Reason"@, v[16]));
    lemma_field_install_reason(start, g16, v[16]);
    let g18 = g17.push(("Packager"@, v[17]));
    lemma_field_packager(start, g17, v[17]);
    let g19 = g18.push(("Maintainer"@, v[18]));
    lemma_field_maintainer(start, g18, v[18]);
    let g20 = g19.push(("Validated By"@, v[19]));
    lemma_field_validated_by(start, g19, v[19]);
    let g21 = g20.push(("Votes"@, v[20]));
    lemma_field_votes(start, g20, v[20]);
    let g22 = g21.push(("Popularity"@, v[21]));
    lemma_field_popularity(start, g21, v[21]);
    let g23 = g22.push(("Out-of-date"@, v[22]));
    lemma_field_out_of_date(start, g22, v[22]);
    let g24 = g23.push(("Last Modified"@, v[23]));
    lemma_field_last_modified(start, g23, v[23]);
    assert(keyed(v, w) == g24);
    assert(with_fields(start, g24) == after_fields(start, g24)) by {
        reveal(after_fields);
    }
    assert forall|i: int| 0 <= i < g24.len() implies is_key((#[trigger] g24[i]).0) && neat(
        g24[i].1,
    ) by {
        lemma_is_key(g24[i].0);
        assert(g24[i].1 == v[i]);
    }
}

/// What is printed of a package is read as that package, field by field.
proof fn lemma_printed_fields(p: PackageView, w: Wording)
    requires
        printable(p),
        fits(p, w),
    ensures
        with_fields(
            PackageView { installed: p.installed, ..PackageView::blank() },
            printed_fields(p, w),
        ) == p,
        forall|i: int|
            0 <= i < printed_fields(p, w).len() ==> is_key((#[trigger] printed_fields(p, w)[i]).0)
                && neat(printed_fields(p, w)[i].1),
{
    let start = PackageView { installed: p.installed, ..PackageView::blank() };
    lemma_none();
    lemma_or_none(p.desc);
    lemma_or_none(p.url);
    lemma_printed_votes(p.votes);
    lemma_reason(p, w);
    printed_list_is_read_back(p.licenses);
    printed_list_is_read_back(p.groups);
    printed_list_is_read_back(p.provides);
    printed_list_is_read_back(p.depends);
    printed_list_is_read_back(p.optdepends);
    printed_list_is_read_back(p.required_by);
    printed_list_is_read_back(p.conflicts);
    if let Some(t) = p.installed_size {
        lemma_size(t);
    }
    if let Some(t) = p.download_size {
        lemma_size(t);
    }
    lemma_all_fields(start, printed_values(p, w), w);
}

/// A package as it is printed.
pub open spec fn printed_package(p: PackageView, w: Wording) -> Seq<Seq<char>> {
    printed_fields(p, w).map_values(|f: (Seq<char>, Seq<char>)| field_line(f.0, f.1))
}

/// A package that is printed under pacman's keys is read back with every field in its place, and
/// with nothing in any other.
pub proof fn printed_package_is_read_back(p: PackageView, w: Wording)
    requires
        printable(p),
        fits(p, w),
    ensures
        info(printed_package(p, w), p.installed) == seq![p],
{
    lemma_printed_fields(p, w);
    lemma_fields(printed_fields(p, w), p.installed);
    assert(Seq::<PackageView>::empty() + seq![p] =~= seq![p]);
}

/// An inventory that is printed, a blank line after each package, is read back: every package
/// once and in order.
#[verifier::rlimit(40)]
pub proof fn printed_inventory_is_read_back(
    pkgs: Seq<PackageView>,
    w: Seq<Wording>,
    installed: bool,
)
    requires
        pkgs.len() == w.len(),
        forall|i: int|
            0 <= i < pkgs.len() ==> printable(#[trigger] pkgs[i]) && fits(pkgs[i], w[i])
                && pkgs[i].installed == installed,
    ensures
        info(printed_inventory(pkgs, w), installed) == pkgs,
    decreases pkgs.len(),
{
    if pkgs.len() == 0 {
        assert(info(printed_inventory(pkgs, w), installed) =~= pkgs);
    } else {
        let before = pkgs.drop_last();
        let words = w.drop_last();
        assert forall|i: int| 0 <= i < before.len() implies printable(#[trigger] before[i]) && fits(
            before[i],
            words[i],
        ) && before[i].installed == installed by {
            assert(before[i] == pkgs[i]);
            assert(words[i] == w[i]);
        }
        printed_inventory_is_read_back(before, words, installed);
        let last = pkgs[pkgs.len() - 1];
        assert(printable(last) && fits(last, w.last()));
        printed_package_is_read_back(last, w.last());
        let a = printed_inventory(before, words);
        let b = printed_package(last, w.last());
        lemma_after_blank(a, b, installed);
        let all = printed_inventory(pkgs, w);
        crate::pacman::blank_line_separates_blocks(a + b, Seq::empty(), Seq::empty(), installed);
        assert((a + b).push(Seq::empty()) + Seq::<Seq<char>>::empty() =~= (a + b).push(Seq::empty()));
        assert(info(Seq::empty(), installed) =~= Seq::empty());
        assert(before + seq![last] =~= pkgs);
        assert(info(all, installed) =~= pkgs);
    }
}

/// Some packages as they are printed, a blank line after each.
pub open spec fn printed_inventory(pkgs: Seq<PackageView>, w: Seq<Wording>) -> Seq<Seq<char>>
    decreases pkgs.len(),
{
    if pkgs.len() == 0 {
        Seq::empty()
    } else {
        (printed_inventory(pkgs.drop_last(), w.drop_last()) + printed_package(
            pkgs.last(),
            w.last(),
        )).push(Seq::empty())
    }
}

/// Lines that end in a blank one, or are none, and what follows them are read each for itself.
proof fn lemma_after_blank(a: Seq<Seq<char>>, b: Seq<Seq<char>>, installed: bool)
    requires
        a.len() == 0 || a.last().len() == 0,
    ensures
        info(a + b, installed) == info(a, installed) + info(b, installed),
{
    if a.len() == 0 {
        assert(a + b =~= b);
        assert(info(a, installed) =~= Seq::empty());
        assert(info(a, installed) + info(b, installed) =~= info(b, installed));
    } else {
        let c = a.drop_last();
        let blank = a.last();
        assert(trimmed(blank).len() == 0);
        assert(a =~= c.push(blank));
        crate::pacman::blank_line_separates_blocks(c, blank, b, installed);
        crate::pacman::blank_line_separates_blocks(c, blank, Seq::empty(), installed);
        assert(c.push(blank) + Seq::<Seq<char>>::empty() =~= a);
        assert(info(Seq::empty(), installed) =~= Seq::empty());
        assert(info(c, installed) + info(Seq::empty(), installed) =~= info(c, installed));
    }
}

/// An indented line goes on with the field before it: it reads as if it stood behind that field's
/// value, two spaces between them.
pub proof fn indented_lines_continue_the_field(
    before: Seq<Seq<char>>,
    key: Seq<char>,
    value: Seq<char>,
    indent: char,
    more: Seq<char>,
    installed: bool,
)
    requires
        is_key(key),
        value.len() > 0,
        neat(value),
        more.len() > 0,
        neat(more),
        indent == ' ' || indent == '\t',
    ensures
        info(before.push(field_line(key, value)).push(seq![indent] + more), installed) == info(
            before.push(field_line(key, value + "  "@ + more)),
            installed,
        ),
{
    reveal_strlit("  ");
    lemma_field_line(before, key, value);
    let v = value + "  "@ + more;
    assert(v[0] == value[0]);
    assert(v.last() == more.last());
    lemma_field_line(before, key, v);
    let l = seq![indent] + more;
    let lines = before.push(field_line(key, value)).push(l);
    assert(lines.drop_last() =~= before.push(field_line(key, value)));
    assert(l.drop_first() =~= more);
    assert(crate::text::trimmed_start(l) == crate::text::trimmed_start(more));
    assert(crate::text::trimmed_start(more) == more);
    trimming_keeps_clean_text(more);
    assert(trimmed(l) == more);
    let f = open_fields(before);
    assert(f.push((key, value)).drop_last() =~= f);
    assert(open_fields(lines) =~= f.push((key, v)));
    assert(closed_packages(before.push(field_line(key, value)), installed) == closed_packages(
        before,
        installed,
    ));
    assert(lines.last() == l && trimmed(lines.last()).len() > 0);
    assert(closed_packages(lines, installed) == closed_packages(lines.drop_last(), installed));
}

// ------------------------------------------------------------------ search hits

/// What is printed of a hit behind its version: the votes with the popularity, since when it is
/// out of date, and whether it is installed, in which version where that is another one.
pub open spec fn hit_marks(h: HitView, since: Seq<char>) -> Seq<Seq<char>> {
    (match (h.votes, h.popularity) {
        (Some(n), Some(p)) => seq!["(+"@ + crate::num::decimal(n as nat), p + ")"@],
        _ => Seq::empty(),
    }) + (if h.out_of_date {
        seq!["[Out-of-date:"@, since]
    } else {
        Seq::empty()
    }) + (match h.installed_version {
        Some(v) => seq!["[installed:"@, v + "]"@],
        None => if h.installed {
            seq!["[installed]"@]
        } else {
            Seq::empty()
        },
    })
}

/// The hit can be printed: its parts are words, the repo has no slash, and what is printed
/// together is known together.
pub open spec fn printable_hit(h: HitView, since: Seq<char>) -> bool {
    &&& h.desc.len() == 0
    &&& !h.repo.contains('/')
    &&& h.votes is Some <==> h.popularity is Some
    &&& h.popularity matches Some(p) ==> crate::num::is_fraction(p) && p.len() > 0 && p.last() != ')'
    &&& h.installed_version matches Some(v) ==> h.installed && v.len() > 0 && v.last() != ']'
    &&& since.len() > 0 && since[0] == '2'
}

proof fn lemma_without_bracket(v: Seq<char>, c: char, close: Seq<char>)
    requires
        v.len() > 0,
        v.last() != c,
        close == seq![c],
    ensures
        crate::text::trimmed_end_of(v + close, close) == v,
{
    let s = v + close;
    assert(s.last() == c);
    assert(close.contains(s.last())) by {
        assert(close[0] == c);
    }
    assert(s.drop_last() =~= v);
    assert(!close.contains(v.last()));
    reveal_with_fuel(crate::text::trimmed_end_of, 3);
}

proof fn lemma_mark_words()
    ensures
        "[installed"@.is_prefix_of("[installed]"@),
        "[installed"@.is_prefix_of("[installed:"@),
        "[installed]"@ != "[installed:"@,
        crate::text::includes("[Out-of-date:"@, "Out-of-date"@),
        !"[installed"@.is_prefix_of("[Out-of-date:"@),
        crate::text::without_prefix("[Out-of-date:"@, "(+"@) is None,
        ")"@ == seq![')'],
        "]"@ == seq![']'],
{
    reveal_strlit("[installed");
    reveal_strlit("[installed]");
    reveal_strlit("[installed:");
    reveal_strlit("[Out-of-date:");
    reveal_strlit("Out-of-date");
    reveal_strlit("(+");
    reveal_strlit(")");
    reveal_strlit("]");
    assert("[installed]"@.subrange(0, 10) =~= "[installed"@);
    assert("[installed:"@.subrange(0, 10) =~= "[installed"@);
    assert("[installed]"@[10] != "[installed:"@[10]);
    assert("[Out-of-date:"@.subrange(1, 12) =~= "Out-of-date"@);
    assert(crate::text::occurs_at("[Out-of-date:"@, "Out-of-date"@, 1));
    assert("[Out-of-date:"@.subrange(0, 10)[1] != "[installed"@[1]);
    assert("[Out-of-date:"@.subrange(0, 2)[0] != "(+"@[0]);
    assert(")"@ =~= seq![')']);
    assert("]"@ =~= seq![']']);
}

proof fn lemma_since(since: Seq<char>)
    requires
        since.len() > 0,
        since[0] == '2',
    ensures
        !"[installed"@.is_prefix_of(since),
        crate::text::without_prefix(since, "(+"@) is None,
{
    reveal_strlit("[installed");
    reveal_strlit("(+");
    if "[installed"@.is_prefix_of(since) {
        assert(since.subrange(0, 10)[0] == "[installed"@[0]);
    }
    if "(+"@.is_prefix_of(since) {
        assert(since.subrange(0, 2)[0] == "(+"@[0]);
    }
}

proof fn lemma_votes_word(n: u32)
    ensures
        ({
            let w = "(+"@ + crate::num::decimal(n as nat);
            &&& !"[installed"@.is_prefix_of(w)
            &&& crate::text::without_prefix(w, "(+"@) == Some(crate::num::decimal(n as nat))
            &&& crate::pacman::u32_of(crate::num::decimal(n as nat)) == Some(n)
        }),
{
    reveal_strlit("[installed");
    reveal_strlit("(+");
    let d = crate::num::decimal(n as nat);
    let w = "(+"@ + d;
    assert(w.subrange(0, 2) =~= "(+"@);
    assert(w.skip(2) =~= d);
    if "[installed"@.is_prefix_of(w) {
        assert(w.subrange(0, 10)[0] == "[installed"@[0]);
    }
    crate::num::decimal_is_read_back(n as nat, u32::MAX as nat);
}

/// The marks behind a hit are read back, each as what it says.
proof fn lemma_hit_marks(h: HitView, since: Seq<char>, plain: HitView)
    requires
        printable_hit(h, since),
        plain == (HitView {
            installed: false,
            installed_version: None,
            votes: None,
            popularity: None,
            out_of_date: false,
            ..h
        }),
    ensures
        crate::pacman::with_marks(plain, hit_marks(h, since)) == h,
{
    lemma_mark_words();
    lemma_since(since);
    let m = hit_marks(h, since);
    // the three parts, one after the other
    let first: Seq<Seq<char>> = match (h.votes, h.popularity) {
        (Some(n), Some(p)) => seq!["(+"@ + crate::num::decimal(n as nat), p + ")"@],
        _ => Seq::empty(),
    };
    let second: Seq<Seq<char>> = if h.out_of_date {
        seq!["[Out-of-date:"@, since]
    } else {
        Seq::empty()
    };
    let third: Seq<Seq<char>> = match h.installed_version {
        Some(v) => seq!["[installed:"@, v + "]"@],
        None => if h.installed {
            seq!["[installed]"@]
        } else {
            Seq::empty()
        },
    };
    assert(m == first + second + third);
    let h1 = HitView { votes: h.votes, popularity: h.popularity, ..plain };
    assert(crate::pacman::with_marks(plain, m) == crate::pacman::with_marks(h1, second + third))
        by {
        if let (Some(n), Some(p)) = (h.votes, h.popularity) {
            lemma_votes_word(n);
            lemma_without_bracket(p, ')', ")"@);
            assert(m.skip(2) =~= second + third);
            assert(m[0] == first[0] && m[1] == first[1]);
        } else {
            assert(m =~= second + third);
        }
    }
    let h2 = HitView { out_of_date: h.out_of_date, ..h1 };
    assert(crate::pacman::with_marks(h1, second + third) == crate::pacman::with_marks(h2, third))
        by {
        let x = second + third;
        if h.out_of_date {
            assert(x[0] == "[Out-of-date:"@ && x[1] == since);
            let y = x.skip(1);
            assert(y[0] == since);
            assert(y.skip(1) =~= third);
            assert(crate::pacman::with_marks(h1, x) == crate::pacman::with_marks(h2, y));
            assert(crate::pacman::with_marks(h2, y) == crate::pacman::with_marks(h2, third));
        } else {
            assert(x =~= third);
        }
    }
    assert(crate::pacman::with_marks(h2, third) == h) by {
        reveal_with_fuel(crate::pacman::with_marks, 2);
        if let Some(v) = h.installed_version {
            lemma_without_bracket(v, ']', "]"@);
            assert(third.skip(2) =~= Seq::empty());
        } else if h.installed {
            assert(third.skip(1) =~= Seq::empty());
        }
    }
}

/// A hit as its words, `repo/name version` and the marks, is read back.
pub proof fn printed_hit_is_read_back(h: HitView, since: Seq<char>, line: Seq<char>)
    requires
        printable_hit(h, since),
        !(line.len() > 0 && (line[0] == ' ' || line[0] == '\t')),
        words_of(line) == seq![h.repo + "/"@ + h.name, h.version] + hit_marks(h, since),
    ensures
        found(seq![line]) == seq![h],
{
    reveal_with_fuel(found, 2);
    reveal_strlit("/");
    let w = words_of(line);
    let id = h.repo + "/"@ + h.name;
    assert(w[0] == id && w[1] == h.version);
    assert(w.skip(2) =~= hit_marks(h, since));
    let k = h.repo.len() as int;
    assert(id.subrange(k, k + 1) =~= "/"@);
    assert forall|j: int| 0 <= j < k implies !crate::text::occurs_at(id, "/"@, j) by {
        if crate::text::occurs_at(id, "/"@, j) {
            assert(id.subrange(j, j + 1)[0] == '/');
            assert(h.repo[j] == '/');
        }
    }
    assert(crate::text::is_first(id, "/"@, k));
    crate::text::lemma_first_at(id, "/"@, k);
    assert(id.take(k) =~= h.repo);
    assert(id.skip(k + 1) =~= h.name);
    let plain = HitView {
        installed: false,
        installed_version: None,
        votes: None,
        popularity: None,
        out_of_date: false,
        ..h
    };
    assert(h.desc =~= Seq::empty());
    lemma_hit_marks(h, since, plain);
    assert(hit_of(w) == Some(h));
    assert(seq![line].drop_last() =~= Seq::empty());
    assert(found(seq![line]) =~= seq![h]);
}

/// The hits of lines that begin with one of their own are added to those before; the first
/// indented line behind a hit that has no description yet is its description.
pub proof fn hits_follow_each_other(
    a: Seq<Seq<char>>,
    l: Seq<char>,
    indent: char,
    desc: Seq<char>,
)
    requires
        desc.len() > 0,
        neat(desc),
        indent == ' ' || indent == '\t',
        !(l.len() > 0 && (l[0] == ' ' || l[0] == '\t')),
    ensures
        found(a.push(l)) == found(a) + found(seq![l]),
        found(a).len() > 0 && found(a).last().desc.len() == 0 ==> found(
            a.push(seq![indent] + desc),
        ) == found(a).drop_last().push(HitView { desc, ..found(a).last() }),
        found(a).len() > 0 && found(a).last().desc.len() > 0 ==> found(
            a.push(seq![indent] + desc),
        ) == found(a),
{
    reveal_with_fuel(found, 2);
    assert(a.push(l).drop_last() =~= a);
    assert(seq![l].drop_last() =~= Seq::empty());
    assert(found(a.push(l)) =~= found(a) + found(seq![l]));
    let d = seq![indent] + desc;
    assert(a.push(d).drop_last() =~= a);
    assert(d.drop_first() =~= desc);
    assert(crate::text::trimmed_start(d) == crate::text::trimmed_start(desc));
    assert(crate::text::trimmed_start(desc) == desc);
    trimming_keeps_clean_text(desc);
    assert(trimmed(d) == desc);
}

// ------------------------------------------------------------------ the sync databases

/// A line `repo name version` of the sync databases is an entry, unless one of that name stands
/// before it.
pub proof fn sync_lines_are_entries(
    a: Seq<Seq<char>>,
    repo: Seq<char>,
    name: Seq<char>,
    version: Seq<char>,
)
    requires
        is_word(repo),
        is_word(name),
        is_word(version),
    ensures
        ({
            let b = synced(a.push(repo + " "@ + (name + " "@ + version)));
            let there = exists|i: int| 0 <= i < synced(a).len() && (#[trigger] synced(a)[i]).name
                == name;
            &&& there ==> b == synced(a)
            &&& !there ==> b == synced(a).push(SyncView { name, repo, version })
        }),
{
    let l = repo + " "@ + (name + " "@ + version);
    words_of_word_and_rest(repo, name + " "@ + version);
    words_of_word_and_rest(name, version);
    words_of_one_word(version);
    assert(words_of(l) =~= seq![repo, name, version]);
    assert(a.push(l).drop_last() =~= a);
    lemma_entry(synced(a), name);
}

proof fn lemma_entry(v: Seq<SyncView>, name: Seq<char>)
    ensures
        crate::pacman::entry_at(v, name) < v.len() <==> exists|i: int|
            0 <= i < v.len() && (#[trigger] v[i]).name == name,
        crate::pacman::entry_at(v, name) <= v.len(),
        crate::pacman::entry_at(v, name) < v.len() ==> v[crate::pacman::entry_at(
            v,
            name,
        ) as int].name == name,
    decreases v.len(),
{
    if v.len() > 0 && v[0].name != name {
        let t = v.drop_first();
        lemma_entry(t, name);
        if exists|i: int| 0 <= i < v.len() && (#[trigger] v[i]).name == name {
            let i = choose|i: int| 0 <= i < v.len() && (#[trigger] v[i]).name == name;
            assert(t[i - 1].name == name);
        }
        if crate::pacman::entry_at(t, name) < t.len() {
            let k = crate::pacman::entry_at(t, name) as int;
            assert(v[k + 1] == t[k]);
        }
    }
}

/// An installed package is marked from what the other queries say: it is an orphan just when it is
/// among the orphans; its repo is `aur` (`local` without a helper) just when it is foreign, else
/// what its record says, or, where that says nothing, what the sync databases say of it.
pub proof fn packages_are_marked(
    p: PackageView,
    foreign: Seq<Seq<char>>,
    orphans: Seq<Seq<char>>,
    sync: Seq<SyncView>,
    helper: bool,
    k: int,
)
    ensures
        ({
            let q = crate::pacman::placed_package(p, foreign, orphans, sync, helper);
            &&& q.orphan <==> orphans.contains(p.name)
            &&& foreign.contains(p.name) && helper ==> q.repo == "aur"@
            &&& foreign.contains(p.name) && !helper ==> q.repo == "local"@
            &&& !foreign.contains(p.name) && p.repo.len() > 0 && p.repo != "None"@ ==> q.repo
                == p.repo
            &&& !foreign.contains(p.name) && (p.repo.len() == 0 || p.repo == "None"@) ==> {
                &&& 0 <= k < sync.len() && sync[k].name == p.name && (forall|j: int|
                    0 <= j < k ==> (#[trigger] sync[j]).name != p.name) ==> q.repo == sync[k].repo
                &&& (forall|j: int| 0 <= j < sync.len() ==> (#[trigger] sync[j]).name != p.name)
                    ==> q.repo == "repo"@
            }
            &&& q == (PackageView { repo: q.repo, orphan: q.orphan, ..p })
        }),
{
    lemma_entry(sync, p.name);
    if 0 <= k < sync.len() && sync[k].name == p.name && (forall|j: int|
        0 <= j < k ==> (#[trigger] sync[j]).name != p.name) {
        lemma_first_entry(sync, p.name, k);
    }
}

proof fn lemma_first_entry(v: Seq<SyncView>, name: Seq<char>, k: int)
    requires
        0 <= k < v.len(),
        v[k].name == name,
        forall|j: int| 0 <= j < k ==> (#[trigger] v[j]).name != name,
    ensures
        crate::pacman::entry_at(v, name) == k,
    decreases k,
{
    if k > 0 {
        assert(v[0].name != name);
        let t = v.drop_first();
        assert(t[k - 1] == v[k]);
        assert forall|j: int| 0 <= j < k - 1 implies (#[trigger] t[j]).name != name by {
            assert(t[j] == v[j + 1]);
        }
        lemma_first_entry(t, name, k - 1);
    }
}

/// A listing of names, one per line, gives just those names.
pub proof fn printed_names_are_read_back(names: Seq<Seq<char>>)
    requires
        forall|i: int| 0 <= i < names.len() ==> is_word(#[trigger] names[i]),
    ensures
        crate::pacman::names_of(page(names)) == names,
{
    assert forall|i: int| 0 <= i < names.len() implies is_line(#[trigger] names[i]) by {
        let w = names[i];
        assert(is_word(w));
        assert forall|j: int| 0 <= j < w.len() implies w[j] != '\n' && w[j] != '\r' by {
            assert(!is_white(w[j]));
        }
    }
    page_is_read_line_by_line(names);
    assert forall|i: int| 0 <= i < names.len() implies trimmed(#[trigger] names[i]) == names[i] by {
        let w = names[i];
        assert(is_word(w));
        assert(!is_white(w[0]) && !is_white(w[w.len() - 1]));
        trimming_keeps_clean_text(w);
    }
    assert(crate::pacman::names_of(page(names)) =~= names);
}

/// What a program printed is its result where it succeeded; where it failed, what it complained
/// of, or its exit code.
pub proof fn results_of_programs(
    code: i32,
    out: Seq<char>,
    err: Seq<char>,
)
    requires
        err.len() > 0,
        neat(err),
    ensures
        crate::pacman::ended(true, Some(code), out, err) == Ok::<
            Seq<char>,
            crate::pacman::FailureView,
        >(out),
        crate::pacman::ended(false, Some(code), out, err) == Err::<
            Seq<char>,
            crate::pacman::FailureView,
        >(crate::pacman::FailureView::Message(err)),
        crate::pacman::ended(false, Some(code), out, Seq::empty()) == Err::<
            Seq<char>,
            crate::pacman::FailureView,
        >(crate::pacman::FailureView::Exit(code)),
        crate::pacman::lenient(
            crate::pacman::ended(false, Some(code), out, Seq::empty()),
        ) == Ok::<Seq<char>, Seq<char>>(Seq::empty()),
        crate::pacman::lenient(crate::pacman::ended(false, Some(code), out, err)) == Err::<
            Seq<char>,
            Seq<char>,
        >(err),
        crate::pacman::lenient(crate::pacman::ended(true, Some(code), out, err)) == Ok::<
            Seq<char>,
            Seq<char>,
        >(out),
        crate::pacman::checked(crate::pacman::ended(true, Some(code), out, err)) == Ok::<
            Seq<char>,
            Seq<char>,
        >(out),
        crate::pacman::checked(
            crate::pacman::ended(false, Some(2i32), out, Seq::empty()),
        ) == Ok::<Seq<char>, Seq<char>>(Seq::empty()),
        code != 2 ==> crate::pacman::checked(
            crate::pacman::ended(false, Some(code), out, Seq::empty()),
        ) is Err,
        crate::pacman::checked(crate::pacman::ended(false, Some(2i32), out, err)) == Err::<
            Seq<char>,
            Seq<char>,
        >(err),
{
    trimming_keeps_clean_text(err);
    trimming_keeps_clean_text(Seq::empty());
}

/// The time of the last sync is that of the newest database: it is the time of one of them, and
/// none is newer.
pub proof fn last_sync_is_the_newest(files: Seq<(Seq<char>, u64)>, i: int)
    ensures
        crate::pacman::newest(files) matches Some(t) ==> exists|k: int|
            0 <= k < files.len() && (#[trigger] files[k]).1 == t && ".db"@.is_suffix_of(files[k].0),
        0 <= i < files.len() && ".db"@.is_suffix_of(files[i].0) && files[i].0 != ".db"@
            ==> crate::pacman::newest(files) is Some && files[i].1 <= crate::pacman::newest(files)->0,
    decreases files.len(),
{
    reveal_strlit(".db");
    if files.len() > 0 {
        let before = files.drop_last();
        last_sync_is_the_newest(before, i);
        if crate::pacman::newest(before) is Some {
            let k = choose|k: int|
                0 <= k < before.len() && (#[trigger] before[k]).1 == crate::pacman::newest(before)->0
                    && ".db"@.is_suffix_of(before[k].0);
            assert(files[k] == before[k]);
        }
        assert(files[files.len() - 1] == files.last());
        if 0 <= i < before.len() {
            assert(before[i] == files[i]);
        }
        if 0 <= i < files.len() && ".db"@.is_suffix_of(files[i].0) && files[i].0 != ".db"@ {
            let n = files[i].0;
            if n.len() == 3 {
                assert(n =~= ".db"@);
            }
        }
    }
}

// ------------------------------------------------------------------ sizes and the cache

/// A printed size is a number and a unit, each unit 1024 times the one before; without a unit it is
/// in bytes.
pub proof fn printed_sizes_are_read(n: Seq<char>)
    requires
        is_word(n),
        crate::num::is_fraction(n),
    ensures
        crate::pacman::size_words(n) == Some((n, 0u32)),
        crate::pacman::size_words(n + " "@ + "B"@) == Some((n, 0u32)),
        crate::pacman::size_words(n + " "@ + "KiB"@) == Some((n, 1u32)),
        crate::pacman::size_words(n + " "@ + "MiB"@) == Some((n, 2u32)),
        crate::pacman::size_words(n + " "@ + "GiB"@) == Some((n, 3u32)),
        crate::pacman::size_words(n + " "@ + "TiB"@) == Some((n, 4u32)),
{
    reveal_strlit("B");
    reveal_strlit("KiB");
    reveal_strlit("MiB");
    reveal_strlit("GiB");
    reveal_strlit("TiB");
    words_of_one_word(n);
    lemma_unit(n, "B"@);
    lemma_unit(n, "KiB"@);
    lemma_unit(n, "MiB"@);
    lemma_unit(n, "GiB"@);
    lemma_unit(n, "TiB"@);
    assert("B"@.len() == 1);
    assert("KiB"@[0] == 'K' && "MiB"@[0] == 'M' && "GiB"@[0] == 'G' && "TiB"@[0] == 'T');
    assert("KiB"@.len() == 3 && "MiB"@.len() == 3 && "GiB"@.len() == 3 && "TiB"@.len() == 3);
}

proof fn lemma_unit(n: Seq<char>, unit: Seq<char>)
    requires
        is_word(n),
        is_word(unit),
    ensures
        words_of(n + " "@ + unit) == seq![n, unit],
{
    words_of_word_and_rest(n, unit);
    words_of_one_word(unit);
    assert(seq![n] + seq![unit] =~= seq![n, unit]);
}

/// The report on the cache says before the word how many files can go; the first line that says so
/// counts.
pub proof fn cache_report_is_read(a: Seq<char>, n: u32, b: Seq<char>, more: Seq<Seq<char>>)
    requires
        !crate::text::includes(a, " candidate"@),
    ensures
        crate::pacman::candidates(seq![a + " "@ + decimal(n as nat) + " candidate"@ + b] + more) == n,
        crate::pacman::candidates(seq![a] + more) == crate::pacman::candidates(more),
        crate::pacman::candidates(Seq::empty()) == 0,
{
    let line = a + " "@ + decimal(n as nat) + " candidate"@ + b;
    lemma_candidates_in(a, n, b);
    assert((seq![line] + more)[0] == line);
    assert((seq![a] + more)[0] == a);
    assert((seq![a] + more).drop_first() =~= more);
}

proof fn lemma_candidates_in(a: Seq<char>, n: u32, b: Seq<char>)
    requires
        !crate::text::includes(a, " candidate"@),
    ensures
        crate::pacman::candidates_in(a + " "@ + decimal(n as nat) + " candidate"@ + b) == Some(n),
{
    let p = " candidate"@;
    assert(p.len() == 10 && p[0] == ' ' && p[1] == 'c' && forall|i: int|
        0 < i < 10 ==> #[trigger] p[i] != ' ') by {
        reveal_strlit(" candidate");
    }
    assert(" "@.len() == 1 && " "@[0] == ' ') by {
        reveal_strlit(" ");
    }
    let d = decimal(n as nat);
    crate::num::lemma_decimal(n as nat);
    crate::num::decimal_is_read_back(n as nat, u32::MAX as nat);
    let line = a + " "@ + d + p + b;
    let k = (a.len() + 1 + d.len()) as int;
    assert(line.subrange(k, k + 10) =~= p);
    assert forall|j: int| 0 <= j < k implies !crate::text::occurs_at(line, p, j) by {
        if crate::text::occurs_at(line, p, j) {
            let t = line.subrange(j, j + 10);
            assert(t == p);
            if j + 10 <= a.len() {
                assert(a.subrange(j, j + 10) =~= t);
                assert(crate::text::occurs_at(a, p, j));
            } else if j < a.len() {
                assert(t[a.len() - j] == line[a.len() as int]);
                assert(line[a.len() as int] == ' ');
            } else if j == a.len() {
                assert(t[1] == line[j + 1]);
                assert(line[j + 1] == d[0]);
                assert(crate::num::is_digit(d[0]));
            } else {
                assert(t[0] == line[j]);
                assert(line[j] == d[j - a.len() - 1]);
                assert(crate::num::is_digit(d[j - a.len() - 1]));
            }
        }
    }
    assert(crate::text::is_first(line, p, k));
    crate::text::lemma_first_at(line, p, k);
    assert(line.take(k) =~= a + " "@ + d);
    lemma_last_word(a, d);
    assert(crate::num::is_digit(d[0]) && crate::num::is_digit(d[d.len() - 1]));
    trimming_keeps_clean_text(d);
}

proof fn lemma_last_word(a: Seq<char>, d: Seq<char>)
    requires
        crate::num::all_digits(d),
    ensures
        crate::pacman::last_word(a + " "@ + d) == d,
    decreases d.len(),
{
    reveal_strlit(" ");
    let s = a + " "@ + d;
    if d.len() == 0 {
        assert(s.last() == ' ');
        assert(d =~= Seq::empty());
    } else {
        assert(crate::num::is_digit(d[d.len() - 1]));
        assert(s.last() == d.last());
        assert(s.drop_last() =~= a + " "@ + d.drop_last());
        assert(crate::num::all_digits(d.drop_last())) by {
            assert forall|i: int| 0 <= i < d.drop_last().len() implies crate::num::is_digit(
                #[trigger] d.drop_last()[i],
            ) by {
                assert(crate::num::is_digit(d[i]));
            }
        }
        lemma_last_word(a, d.drop_last());
        assert(d.drop_last().push(d.last()) =~= d);
    }
}

/// Which packages are in no repository, which come from the AUR, and which do not say.
pub proof fn origins_are_told_apart(p: PackageView)
    ensures
        p.is_aur() <==> p.repo == "aur"@,
        p.is_foreign() <==> p.repo == "aur"@ || p.repo == "local"@,
        crate::pacman::lacks_repo(p) <==> p.repo == Seq::<char>::empty() || p.repo == "None"@,
        crate::pacman::or_aur(p).repo == (if p.repo == Seq::<char>::empty() {
            "aur"@
        } else {
            p.repo
        }),
        crate::pacman::or_aur(p) == (PackageView { repo: crate::pacman::or_aur(p).repo, ..p }),
{
    assert(p.repo.len() == 0 ==> p.repo =~= Seq::<char>::empty());
}

} // verus!
