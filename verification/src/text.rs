//! Text as sequences of characters: trimming, splitting, searching, and decimal numbers.
//!
//! Every function here works on `&[char]` and is specified over `Seq<char>`; [`chars_of`] and
//! [`string_of`] move between these and `str` / `String`.

use vstd::prelude::*;
use vstd::slice::slice_subrange;
use vstd::utf8::{encode_utf8, encode_utf8_decode_utf8};

verus! {

/// `String::push` appends one character.
pub assume_specification[ String::push ](s: &mut String, c: char)
    ensures
        final(s)@ == old(s)@.push(c),
;

/// `String::push_str` appends a whole string slice.
pub assume_specification[ String::push_str ](s: &mut String, t: &str)
    ensures
        final(s)@ == old(s)@ + t@,
;

/// The views of a sequence of strings.
pub open spec fn texts(v: Seq<String>) -> Seq<Seq<char>> {
    v.map_values(|s: String| s@)
}

/// The view of a string that may be absent.
pub open spec fn opt(s: Option<String>) -> Option<Seq<char>> {
    match s {
        Some(s) => Some(s@),
        None => None,
    }
}

/// A copy of a string that may be absent.
pub fn copy_opt(s: &Option<String>) -> (r: Option<String>)
    ensures
        opt(r) == opt(*s),
{
    match s {
        Some(s) => Some(s.clone()),
        None => None,
    }
}

/// The characters of a string, in order.
pub fn chars_of(s: &str) -> (r: Vec<char>)
    ensures
        r@ == s@,
{
    let mut v: Vec<char> = Vec::new();
    for c in it: s.chars()
        invariant
            it.seq() == s@,
            v@ == s@.take(it.index()),
    {
        v.push(c);
        assert(v@ =~= s@.take(it.index() + 1));
    }
    assert(s@.take(s@.len() as int) =~= s@);
    v
}

/// The string made of the given characters.
pub fn string_of(cs: &[char]) -> (r: String)
    ensures
        r@ == cs@,
{
    let mut s = String::new();
    let mut i: usize = 0;
    while i < cs.len()
        invariant
            i <= cs.len(),
            s@ == cs@.take(i as int),
        decreases cs.len() - i,
    {
        s.push(cs[i]);
        i += 1;
        assert(s@ =~= cs@.take(i as int));
    }
    assert(cs@.take(cs@.len() as int) =~= cs@);
    s
}


// ------------------------------------------------------------------ white space

/// Unicode white space: the characters with the `White_Space` property.
pub open spec fn is_white(c: char) -> bool {
    ||| '\u{9}' <= c <= '\u{d}'
    ||| c == '\u{20}'
    ||| c == '\u{85}'
    ||| c == '\u{a0}'
    ||| c == '\u{1680}'
    ||| '\u{2000}' <= c <= '\u{200a}'
    ||| c == '\u{2028}'
    ||| c == '\u{2029}'
    ||| c == '\u{202f}'
    ||| c == '\u{205f}'
    ||| c == '\u{3000}'
}

/// Whether `c` is white space.
pub fn white(c: char) -> (r: bool)
    ensures
        r == is_white(c),
{
    ('\u{9}' <= c && c <= '\u{d}') || c == '\u{20}' || c == '\u{85}' || c == '\u{a0}' || c
        == '\u{1680}' || ('\u{2000}' <= c && c <= '\u{200a}') || c == '\u{2028}' || c == '\u{2029}'
        || c == '\u{202f}' || c == '\u{205f}' || c == '\u{3000}'
}

/// `s` without its leading white space.
pub open spec fn trimmed_start(s: Seq<char>) -> Seq<char>
    decreases s.len(),
{
    if s.len() > 0 && is_white(s[0]) {
        trimmed_start(s.drop_first())
    } else {
        s
    }
}

/// `s` without its trailing white space.
pub open spec fn trimmed_end(s: Seq<char>) -> Seq<char>
    decreases s.len(),
{
    if s.len() > 0 && is_white(s.last()) {
        trimmed_end(s.drop_last())
    } else {
        s
    }
}

/// `s` without white space at either end.
pub open spec fn trimmed(s: Seq<char>) -> Seq<char> {
    trimmed_end(trimmed_start(s))
}

/// `s` without the leading characters that occur in `set`.
pub open spec fn trimmed_start_of(s: Seq<char>, set: Seq<char>) -> Seq<char>
    decreases s.len(),
{
    if s.len() > 0 && set.contains(s[0]) {
        trimmed_start_of(s.drop_first(), set)
    } else {
        s
    }
}

/// `s` without the trailing characters that occur in `set`.
pub open spec fn trimmed_end_of(s: Seq<char>, set: Seq<char>) -> Seq<char>
    decreases s.len(),
{
    if s.len() > 0 && set.contains(s.last()) {
        trimmed_end_of(s.drop_last(), set)
    } else {
        s
    }
}

/// `str::trim_start`.
pub fn trim_start<'a>(s: &'a [char]) -> (r: &'a [char])
    ensures
        r@ == trimmed_start(s@),
{
    let mut i: usize = 0;
    assert(s@.skip(0) =~= s@);
    while i < s.len() && white(s[i])
        invariant
            i <= s.len(),
            trimmed_start(s@) == trimmed_start(s@.skip(i as int)),
        decreases s.len() - i,
    {
        assert(s@.skip(i as int).drop_first() =~= s@.skip(i + 1));
        i += 1;
    }
    slice_subrange(s, i, s.len())
}

/// `str::trim_end`.
pub fn trim_end<'a>(s: &'a [char]) -> (r: &'a [char])
    ensures
        r@ == trimmed_end(s@),
{
    let mut n: usize = s.len();
    assert(s@.take(n as int) =~= s@);
    while n > 0 && white(s[n - 1])
        invariant
            n <= s.len(),
            trimmed_end(s@) == trimmed_end(s@.take(n as int)),
        decreases n,
    {
        assert(s@.take(n as int).drop_last() =~= s@.take(n - 1));
        n -= 1;
    }
    slice_subrange(s, 0, n)
}

/// `str::trim`.
pub fn trim<'a>(s: &'a [char]) -> (r: &'a [char])
    ensures
        r@ == trimmed(s@),
{
    trim_end(trim_start(s))
}

/// Whether `c` occurs in `set`.
pub fn member(c: char, set: &[char]) -> (r: bool)
    ensures
        r == set@.contains(c),
{
    let mut i: usize = 0;
    while i < set.len()
        invariant
            i <= set.len(),
            forall|j: int| 0 <= j < i ==> set@[j] != c,
        decreases set.len() - i,
    {
        if set[i] == c {
            return true;
        }
        i += 1;
    }
    false
}

/// `str::trim_start_matches` for a set of characters.
pub fn trim_start_of<'a>(s: &'a [char], set: &str) -> (r: &'a [char])
    ensures
        r@ == trimmed_start_of(s@, set@),
{
    let set_chars = chars_of(set);
    let mut i: usize = 0;
    assert(s@.skip(0) =~= s@);
    while i < s.len() && member(s[i], &set_chars)
        invariant
            i <= s.len(),
            set_chars@ == set@,
            trimmed_start_of(s@, set@) == trimmed_start_of(s@.skip(i as int), set@),
        decreases s.len() - i,
    {
        assert(s@.skip(i as int).drop_first() =~= s@.skip(i + 1));
        i += 1;
    }
    slice_subrange(s, i, s.len())
}

/// `str::trim_end_matches` for a set of characters.
pub fn trim_end_of<'a>(s: &'a [char], set: &str) -> (r: &'a [char])
    ensures
        r@ == trimmed_end_of(s@, set@),
{
    let set_chars = chars_of(set);
    let mut n: usize = s.len();
    assert(s@.take(n as int) =~= s@);
    while n > 0 && member(s[n - 1], &set_chars)
        invariant
            n <= s.len(),
            set_chars@ == set@,
            trimmed_end_of(s@, set@) == trimmed_end_of(s@.take(n as int), set@),
        decreases n,
    {
        assert(s@.take(n as int).drop_last() =~= s@.take(n - 1));
        n -= 1;
    }
    slice_subrange(s, 0, n)
}

// ------------------------------------------------------------------ comparing and searching

/// `p` stands in `s` at index `i`.
pub open spec fn occurs_at(s: Seq<char>, p: Seq<char>, i: int) -> bool {
    0 <= i && i + p.len() <= s.len() && s.subrange(i, i + p.len()) == p
}

/// `p` stands somewhere in `s`.
pub open spec fn includes(s: Seq<char>, p: Seq<char>) -> bool {
    exists|i: int| occurs_at(s, p, i)
}

/// `i` is the first index at which `p` stands in `s`.
pub open spec fn is_first(s: Seq<char>, p: Seq<char>, i: int) -> bool {
    occurs_at(s, p, i) && forall|j: int| 0 <= j < i ==> !occurs_at(s, p, j)
}

/// `i` is the last index at which `p` stands in `s`.
pub open spec fn is_last(s: Seq<char>, p: Seq<char>, i: int) -> bool {
    occurs_at(s, p, i) && forall|j: int| i < j ==> !occurs_at(s, p, j)
}

/// The first index at which `p` stands in `s`.
pub open spec fn first_at(s: Seq<char>, p: Seq<char>) -> Option<int> {
    if includes(s, p) {
        Some(choose|i: int| is_first(s, p, i))
    } else {
        None
    }
}

/// The last index at which `p` stands in `s`.
pub open spec fn last_at(s: Seq<char>, p: Seq<char>) -> Option<int> {
    if includes(s, p) {
        Some(choose|i: int| is_last(s, p, i))
    } else {
        None
    }
}

/// What stands before and after the first `p` in `s`.
pub open spec fn halves(s: Seq<char>, p: Seq<char>) -> Option<(Seq<char>, Seq<char>)> {
    match first_at(s, p) {
        Some(i) => Some((s.take(i), s.skip(i + p.len()))),
        None => None,
    }
}

pub(crate) proof fn lemma_first_at(s: Seq<char>, p: Seq<char>, i: int)
    requires
        is_first(s, p, i),
    ensures
        includes(s, p),
        first_at(s, p) == Some(i),
{
    let c = choose|i: int| is_first(s, p, i);
    assert(is_first(s, p, c));
    if c < i {
        assert(!occurs_at(s, p, c));
    } else if i < c {
        assert(!occurs_at(s, p, i));
    }
}

pub(crate) proof fn lemma_last_at(s: Seq<char>, p: Seq<char>, i: int)
    requires
        is_last(s, p, i),
    ensures
        includes(s, p),
        last_at(s, p) == Some(i),
{
    let c = choose|i: int| is_last(s, p, i);
    assert(is_last(s, p, c));
    if c < i {
        assert(!occurs_at(s, p, i));
    } else if i < c {
        assert(!occurs_at(s, p, c));
    }
}

/// Whether two character slices hold the same text.
pub fn same(a: &[char], b: &[char]) -> (r: bool)
    ensures
        r == (a@ == b@),
{
    if a.len() != b.len() {
        return false;
    }
    let mut i: usize = 0;
    while i < a.len()
        invariant
            i <= a.len(),
            a.len() == b.len(),
            forall|j: int| 0 <= j < i ==> a@[j] == b@[j],
        decreases a.len() - i,
    {
        if a[i] != b[i] {
            return false;
        }
        i += 1;
    }
    assert(a@ =~= b@);
    true
}

/// Whether the characters `a` spell `b`.
pub fn is_text(a: &[char], b: &str) -> (r: bool)
    ensures
        r == (a@ == b@),
{
    same(a, &chars_of(b))
}

/// Whether two strings hold the same text.
pub fn same_str(a: &str, b: &str) -> (r: bool)
    ensures
        r == (a@ == b@),
{
    let x = a.as_bytes();
    let y = b.as_bytes();
    if x.len() != y.len() {
        return false;
    }
    let mut i: usize = 0;
    while i < x.len()
        invariant
            i <= x.len(),
            x.len() == y.len(),
            x@ == encode_utf8(a@),
            y@ == encode_utf8(b@),
            forall|j: int| 0 <= j < i ==> x@[j] == y@[j],
        decreases x.len() - i,
    {
        if x[i] != y[i] {
            return false;
        }
        i += 1;
    }
    proof {
        assert(x@ =~= y@);
        encode_utf8_decode_utf8(a@);
        encode_utf8_decode_utf8(b@);
    }
    true
}

/// Whether `p` stands in `s` at index `i`.
fn occurs(s: &[char], p: &[char], i: usize) -> (r: bool)
    requires
        i <= s.len(),
    ensures
        r == occurs_at(s@, p@, i as int),
{
    if p.len() > s.len() - i {
        return false;
    }
    same(slice_subrange(s, i, i + p.len()), p)
}

/// The first index at which `p` stands in `s` (`str::find`, counting characters).
pub fn find(s: &[char], p: &[char]) -> (r: Option<usize>)
    ensures
        match r {
            Some(i) => first_at(s@, p@) == Some(i as int) && is_first(s@, p@, i as int),
            None => first_at(s@, p@) is None && !includes(s@, p@),
        },
{
    let mut i: usize = 0;
    loop
        invariant
            i <= s.len(),
            forall|j: int| 0 <= j < i ==> !occurs_at(s@, p@, j),
        decreases s.len() - i,
    {
        if occurs(s, p, i) {
            proof {
                lemma_first_at(s@, p@, i as int);
            }
            return Some(i);
        }
        if i == s.len() {
            assert(!includes(s@, p@));
            return None;
        }
        i += 1;
    }
}

/// The last index at which `p` stands in `s` (`str::rfind`, counting characters).
pub fn rfind(s: &[char], p: &[char]) -> (r: Option<usize>)
    ensures
        match r {
            Some(i) => last_at(s@, p@) == Some(i as int) && is_last(s@, p@, i as int),
            None => last_at(s@, p@) is None && !includes(s@, p@),
        },
{
    let mut i: usize = s.len();
    loop
        invariant
            i <= s.len(),
            forall|j: int| i < j ==> !occurs_at(s@, p@, j),
        decreases i,
    {
        if occurs(s, p, i) {
            proof {
                lemma_last_at(s@, p@, i as int);
            }
            return Some(i);
        }
        if i == 0 {
            assert(!includes(s@, p@));
            return None;
        }
        i -= 1;
    }
}

/// `str::contains` for a piece of text.
pub fn contains(s: &[char], p: &str) -> (r: bool)
    ensures
        r == includes(s@, p@),
{
    find(s, &chars_of(p)).is_some()
}

/// `str::starts_with` for a piece of text.
pub fn starts_with(s: &[char], p: &str) -> (r: bool)
    ensures
        r == p@.is_prefix_of(s@),
{
    let pc = chars_of(p);
    if pc.len() > s.len() {
        return false;
    }
    let r = same(slice_subrange(s, 0, pc.len()), &pc);
    assert(r == p@.is_prefix_of(s@));
    r
}

/// `str::strip_prefix` for a piece of text.
pub open spec fn without_prefix(s: Seq<char>, p: Seq<char>) -> Option<Seq<char>> {
    if p.is_prefix_of(s) {
        Some(s.skip(p.len() as int))
    } else {
        None
    }
}

/// `str::strip_prefix` for a piece of text.
pub fn strip_prefix<'a>(s: &'a [char], p: &str) -> (r: Option<&'a [char]>)
    ensures
        match r {
            Some(rest) => without_prefix(s@, p@) == Some(rest@),
            None => without_prefix(s@, p@) is None,
        },
{
    if starts_with(s, p) {
        let n: usize = chars_of(p).len();
        Some(slice_subrange(s, n, s.len()))
    } else {
        None
    }
}

/// `str::split_once`: what stands before and after the first `p`.
pub fn split_once<'a>(s: &'a [char], p: &str) -> (r: Option<(&'a [char], &'a [char])>)
    ensures
        match r {
            Some((a, b)) => halves(s@, p@) == Some((a@, b@)),
            None => halves(s@, p@) is None,
        },
{
    let pc = chars_of(p);
    match find(s, &pc) {
        Some(i) => {
            let n: usize = s.len();
            assert(occurs_at(s@, pc@, i as int));
            Some((slice_subrange(s, 0, i), slice_subrange(s, i + pc.len(), n)))
        },
        None => None,
    }
}

// ------------------------------------------------------------------ splitting

/// The views of a sequence of character slices.
pub open spec fn slices(v: Seq<&[char]>) -> Seq<Seq<char>> {
    v.map_values(|s: &[char]| s@)
}

/// The index of the first `c` in `s`, or the length of `s`.
pub open spec fn upto(s: Seq<char>, c: char) -> nat
    decreases s.len(),
{
    if s.len() == 0 || s[0] == c {
        0
    } else {
        1 + upto(s.drop_first(), c)
    }
}

/// `upto` finds the first `c`, or runs to the end of `s`.
pub proof fn lemma_upto(s: Seq<char>, c: char)
    ensures
        upto(s, c) <= s.len(),
        upto(s, c) < s.len() ==> s[upto(s, c) as int] == c,
        forall|j: int| 0 <= j < upto(s, c) ==> s[j] != c,
    decreases s.len(),
{
    if s.len() != 0 && s[0] != c {
        lemma_upto(s.drop_first(), c);
        assert forall|j: int| 0 <= j < upto(s, c) implies s[j] != c by {
            if j > 0 {
                assert(s.drop_first()[j - 1] == s[j]);
            }
        }
    }
}

pub(crate) proof fn lemma_upto_is(s: Seq<char>, c: char, n: int)
    requires
        0 <= n <= s.len(),
        n < s.len() ==> s[n] == c,
        forall|j: int| 0 <= j < n ==> s[j] != c,
    ensures
        upto(s, c) == n,
{
    lemma_upto(s, c);
    if upto(s, c) < n {
        assert(s[upto(s, c) as int] != c);
    }
}

/// `s` cut at every `c`: one piece more than there are `c`s.
pub open spec fn pieces(s: Seq<char>, c: char) -> Seq<Seq<char>>
    decreases s.len(),
{
    let k = upto(s, c) as int;
    if k >= s.len() {
        seq![s]
    } else {
        seq![s.take(k)] + pieces(s.skip(k + 1), c)
    }
}

/// `line` without the carriage return that may end it.
pub open spec fn without_cr(line: Seq<char>) -> Seq<char> {
    if line.len() > 0 && line.last() == '\r' {
        line.drop_last()
    } else {
        line
    }
}

/// The lines of a text, as `str::lines` gives them: each ends at `\n` or `\r\n`, neither of which
/// is part of it; the last line needs no end.
pub open spec fn lines_of(s: Seq<char>) -> Seq<Seq<char>>
    decreases s.len(),
{
    let k = upto(s, '\n') as int;
    if s.len() == 0 {
        Seq::empty()
    } else if k >= s.len() {
        seq![s]
    } else {
        seq![without_cr(s.take(k))] + lines_of(s.skip(k + 1))
    }
}

/// The index of the first white space in `s`, or the length of `s`.
pub open spec fn upto_white(s: Seq<char>) -> nat
    decreases s.len(),
{
    if s.len() == 0 || is_white(s[0]) {
        0
    } else {
        1 + upto_white(s.drop_first())
    }
}

/// `upto_white` stays within `s` and passes over a first character that is not white space.
pub proof fn lemma_upto_white(s: Seq<char>)
    ensures
        upto_white(s) <= s.len(),
        s.len() > 0 && !is_white(s[0]) ==> upto_white(s) > 0,
    decreases s.len(),
{
    if s.len() != 0 && !is_white(s[0]) {
        lemma_upto_white(s.drop_first());
    }
}

/// `trimmed_start` leaves a suffix that does not begin with white space.
pub proof fn lemma_trimmed_start_len(s: Seq<char>)
    ensures
        trimmed_start(s).len() <= s.len(),
        trimmed_start(s).len() > 0 ==> !is_white(trimmed_start(s)[0]),
    decreases s.len(),
{
    if s.len() > 0 && is_white(s[0]) {
        lemma_trimmed_start_len(s.drop_first());
    }
}

/// The maximal runs of characters that are not white space, in order.
pub open spec fn words_of(s: Seq<char>) -> Seq<Seq<char>>
    decreases s.len(),
{
    let t = trimmed_start(s);
    let k = upto_white(t) as int;
    if t.len() == 0 {
        Seq::empty()
    } else {
        proof {
            lemma_trimmed_start_len(s);
            lemma_upto_white(t);
        }
        seq![t.take(k)] + words_of(t.skip(k))
    }
}

/// The index of the first `c` at or after `from`, or the length of `s`.
pub fn next_index(s: &[char], c: char, from: usize) -> (r: usize)
    requires
        from <= s.len(),
    ensures
        r == from + upto(s@.skip(from as int), c),
        from <= r <= s.len(),
        r < s.len() ==> s@[r as int] == c,
{
    let mut i: usize = from;
    while i < s.len() && s[i] != c
        invariant
            from <= i <= s.len(),
            forall|j: int| from <= j < i ==> s@[j] != c,
        decreases s.len() - i,
    {
        i += 1;
    }
    proof {
        lemma_upto_is(s@.skip(from as int), c, i - from);
    }
    i
}

/// `str::split` at a character.
pub fn split<'a>(s: &'a [char], c: char) -> (r: Vec<&'a [char]>)
    ensures
        slices(r@) == pieces(s@, c),
        r.len() > 0,
{
    let mut out: Vec<&'a [char]> = Vec::new();
    let mut from: usize = 0;
    assert(s@.skip(0) =~= s@);
    assert(slices(out@) + pieces(s@.skip(0), c) =~= pieces(s@, c));
    loop
        invariant
            from <= s.len(),
            slices(out@) + pieces(s@.skip(from as int), c) == pieces(s@, c),
        decreases s.len() - from,
    {
        let ghost rest = s@.skip(from as int);
        let k: usize = next_index(s, c, from);
        let ghost before = out@;
        out.push(slice_subrange(s, from, k));
        assert(slices(out@) =~= slices(before).push(s@.subrange(from as int, k as int)));
        assert(s@.subrange(from as int, k as int) =~= rest.take(k - from));
        if k == s.len() {
            assert(rest.take(k - from) =~= rest);
            assert(slices(out@) =~= slices(before) + seq![rest]);
            return out;
        }
        assert(rest.skip(k - from + 1) =~= s@.skip(k + 1));
        assert(slices(out@) + pieces(s@.skip(k + 1), c) =~= slices(before) + (seq![
            rest.take(k - from),
        ] + pieces(s@.skip(k + 1), c)));
        from = k + 1;
    }
}

/// `str::lines`.
pub fn lines<'a>(s: &'a [char]) -> (r: Vec<&'a [char]>)
    ensures
        slices(r@) == lines_of(s@),
{
    let mut out: Vec<&'a [char]> = Vec::new();
    let mut from: usize = 0;
    assert(s@.skip(0) =~= s@);
    assert(slices(out@) + lines_of(s@.skip(0)) =~= lines_of(s@));
    while from < s.len()
        invariant
            from <= s.len(),
            slices(out@) + lines_of(s@.skip(from as int)) == lines_of(s@),
        decreases s.len() - from,
    {
        let ghost rest = s@.skip(from as int);
        let k: usize = next_index(s, '\n', from);
        let ghost before = out@;
        if k == s.len() {
            out.push(slice_subrange(s, from, k));
            assert(slices(out@) =~= slices(before).push(rest)) by {
                assert(s@.subrange(from as int, k as int) =~= rest);
            }
            assert(slices(out@) =~= slices(before) + seq![rest]);
            return out;
        }
        let mut end: usize = k;
        if from < end && s[end - 1] == '\r' {
            end -= 1;
        }
        out.push(slice_subrange(s, from, end));
        assert(slices(out@) =~= slices(before).push(s@.subrange(from as int, end as int)));
        assert(s@.subrange(from as int, end as int) =~= without_cr(rest.take(k - from)));
        assert(rest.skip(k - from + 1) =~= s@.skip(k + 1));
        assert(slices(out@) + lines_of(s@.skip(k + 1)) =~= slices(before) + (seq![
            without_cr(rest.take(k - from)),
        ] + lines_of(s@.skip(k + 1))));
        from = k + 1;
    }
    assert(lines_of(s@.skip(from as int)) =~= Seq::<Seq<char>>::empty());
    assert(slices(out@) + Seq::<Seq<char>>::empty() =~= slices(out@));
    out
}

/// `str::split_whitespace`.
pub fn words<'a>(s: &'a [char]) -> (r: Vec<&'a [char]>)
    ensures
        slices(r@) == words_of(s@),
{
    let mut out: Vec<&'a [char]> = Vec::new();
    let mut rest: &'a [char] = s;
    assert(slices(out@) + words_of(s@) =~= words_of(s@));
    loop
        invariant
            slices(out@) + words_of(rest@) == words_of(s@),
        decreases rest.len(),
    {
        let t = trim_start(rest);
        proof {
            lemma_trimmed_start_len(rest@);
            lemma_upto_white(t@);
        }
        if t.len() == 0 {
            assert(slices(out@) + Seq::<Seq<char>>::empty() =~= slices(out@));
            return out;
        }
        let mut k: usize = 0;
        assert(t@.skip(0) =~= t@);
        while k < t.len() && !white(t[k])
            invariant
                k <= t.len(),
                upto_white(t@) == k + upto_white(t@.skip(k as int)),
            decreases t.len() - k,
        {
            assert(t@.skip(k as int).drop_first() =~= t@.skip(k + 1));
            k += 1;
        }
        let ghost before = out@;
        out.push(slice_subrange(t, 0, k));
        assert(slices(out@) =~= slices(before).push(t@.take(k as int)));
        let next = slice_subrange(t, k, t.len());
        assert(next@ == t@.skip(k as int));
        assert(slices(out@) + words_of(next@) =~= slices(before) + (seq![t@.take(k as int)]
            + words_of(next@)));
        rest = next;
    }
}

/// Text that occurs at all has a first occurrence.
pub proof fn lemma_first_exists(s: Seq<char>, p: Seq<char>, i: int)
    requires
        occurs_at(s, p, i),
    ensures
        first_at(s, p) is Some,
        is_first(s, p, first_at(s, p)->0),
        first_at(s, p)->0 <= i,
    decreases i,
{
    if exists|j: int| 0 <= j < i && occurs_at(s, p, j) {
        let j = choose|j: int| 0 <= j < i && occurs_at(s, p, j);
        lemma_first_exists(s, p, j);
    } else {
        assert(is_first(s, p, i));
        lemma_first_at(s, p, i);
    }
}

/// What `halves` gives puts together to the whole text again.
pub proof fn lemma_halves(s: Seq<char>, p: Seq<char>)
    ensures
        match halves(s, p) {
            Some((a, b)) => s == a + p + b && a.len() + p.len() + b.len() == s.len() && !includes(
                a,
                p,
            ) || p.len() == 0,
            None => !includes(s, p),
        },
{
    if includes(s, p) {
        let i = choose|i: int| occurs_at(s, p, i);
        lemma_first_exists(s, p, i);
        let k = first_at(s, p)->0;
        let (a, b) = halves(s, p)->0;
        assert(s =~= a + s.subrange(k, k + p.len()) + b);
        if p.len() > 0 && includes(a, p) {
            let j = choose|j: int| occurs_at(a, p, j);
            assert(a.subrange(j, j + p.len()) =~= s.subrange(j, j + p.len()));
            assert(occurs_at(s, p, j));
        }
    }
}

/// `s` cut at every `p`, from the left.
pub open spec fn pieces_by(s: Seq<char>, p: Seq<char>) -> Seq<Seq<char>>
    decreases s.len(),
{
    proof {
        lemma_halves(s, p);
    }
    match halves(s, p) {
        Some((a, b)) => if p.len() > 0 {
            seq![a] + pieces_by(b, p)
        } else {
            seq![s]
        },
        None => seq![s],
    }
}

/// `str::split` at a piece of text that is not empty.
pub fn split_by<'a>(s: &'a [char], p: &str) -> (r: Vec<&'a [char]>)
    requires
        p@.len() > 0,
    ensures
        slices(r@) == pieces_by(s@, p@),
{
    let mut out: Vec<&'a [char]> = Vec::new();
    let mut rest: &'a [char] = s;
    assert(slices(out@) + pieces_by(s@, p@) =~= pieces_by(s@, p@));
    loop
        invariant
            p@.len() > 0,
            slices(out@) + pieces_by(rest@, p@) == pieces_by(s@, p@),
        decreases rest.len(),
    {
        let ghost before = out@;
        proof {
            lemma_halves(rest@, p@);
        }
        match split_once(rest, p) {
            Some((a, b)) => {
                out.push(a);
                assert(slices(out@) =~= slices(before).push(a@));
                assert(slices(out@) + pieces_by(b@, p@) =~= slices(before) + (seq![a@] + pieces_by(
                    b@,
                    p@,
                )));
                rest = b;
            },
            None => {
                out.push(rest);
                assert(slices(out@) =~= slices(before).push(rest@));
                assert(slices(out@) =~= slices(before) + seq![rest@]);
                return out;
            },
        }
    }
}

// ------------------------------------------------------------------ case, replacing, joining

/// The lower-case form of an ASCII capital; any other character as it is.
pub open spec fn lower_ascii_char(c: char) -> char {
    if 'A' <= c <= 'Z' {
        (c as int + 32) as char
    } else {
        c
    }
}

/// `str::to_ascii_lowercase`.
pub open spec fn lower_ascii(s: Seq<char>) -> Seq<char> {
    s.map_values(|c: char| lower_ascii_char(c))
}

/// `str::to_ascii_lowercase`.
pub fn to_lower_ascii(s: &[char]) -> (r: Vec<char>)
    ensures
        r@ == lower_ascii(s@),
{
    let mut out: Vec<char> = Vec::new();
    let mut i: usize = 0;
    while i < s.len()
        invariant
            i <= s.len(),
            out@ == lower_ascii(s@.take(i as int)),
        decreases s.len() - i,
    {
        let c = s[i];
        let d = if 'A' <= c && c <= 'Z' {
            ((c as u8) + 32) as char
        } else {
            c
        };
        out.push(d);
        i += 1;
        assert(out@ =~= lower_ascii(s@.take(i as int)));
    }
    assert(s@.take(s@.len() as int) =~= s@);
    out
}

/// `s` with every `from` replaced by `to`.
pub open spec fn replaced(s: Seq<char>, from: char, to: char) -> Seq<char> {
    s.map_values(
        |c: char|
            if c == from {
                to
            } else {
                c
            },
    )
}

/// `str::replace` of one character by another.
pub fn replace(s: &[char], from: char, to: char) -> (r: Vec<char>)
    ensures
        r@ == replaced(s@, from, to),
{
    let mut out: Vec<char> = Vec::new();
    let mut i: usize = 0;
    while i < s.len()
        invariant
            i <= s.len(),
            out@ == replaced(s@.take(i as int), from, to),
        decreases s.len() - i,
    {
        let c = s[i];
        out.push(
            if c == from {
                to
            } else {
                c
            },
        );
        i += 1;
        assert(out@ =~= replaced(s@.take(i as int), from, to));
    }
    assert(s@.take(s@.len() as int) =~= s@);
    out
}

/// `parts` with `sep` between each two of them.
pub open spec fn joined(parts: Seq<Seq<char>>, sep: Seq<char>) -> Seq<char>
    decreases parts.len(),
{
    if parts.len() == 0 {
        Seq::empty()
    } else if parts.len() == 1 {
        parts[0]
    } else {
        joined(parts.drop_last(), sep) + sep + parts.last()
    }
}

/// `[String]::join`.
pub fn join(parts: &[String], sep: &str) -> (r: String)
    ensures
        r@ == joined(texts(parts@), sep@),
{
    let mut out = String::new();
    let mut i: usize = 0;
    while i < parts.len()
        invariant
            i <= parts.len(),
            out@ == joined(texts(parts@).take(i as int), sep@),
        decreases parts.len() - i,
    {
        if i > 0 {
            out.push_str(sep);
        }
        out.push_str(parts[i].as_str());
        i += 1;
        let ghost t = texts(parts@).take(i as int);
        assert(t.drop_last() =~= texts(parts@).take(i - 1));
        assert(t.last() == parts@[i - 1]@);
        if i == 1 {
            assert(Seq::<char>::empty() + t.last() =~= t.last());
        }
    }
    assert(texts(parts@).take(parts@.len() as int) =~= texts(parts@));
    out
}

/// A copy of a string slice.
pub fn copy(s: &str) -> (r: String)
    ensures
        r@ == s@,
{
    s.to_string()
}

/// A copy of `s` added to some strings.
pub fn push_copy(v: &mut Vec<String>, s: &str)
    ensures
        texts(final(v)@) == texts(old(v)@).push(s@),
{
    v.push(copy(s));
    assert(texts(v@) =~= texts(old(v)@).push(s@));
}

/// A copy of some strings.
pub fn copies(v: &[String]) -> (r: Vec<String>)
    ensures
        texts(r@) == texts(v@),
{
    let mut out: Vec<String> = Vec::new();
    let mut i: usize = 0;
    while i < v.len()
        invariant
            i <= v.len(),
            out.len() == i,
            forall|j: int| 0 <= j < i ==> out@[j]@ == v@[j]@,
        decreases v.len() - i,
    {
        out.push(v[i].clone());
        i += 1;
    }
    assert(texts(out@) =~= texts(v@));
    out
}

/// The lower-case form of a text by the Unicode rules, as `str::to_lowercase` gives it.
pub uninterp spec fn lowercase(s: Seq<char>) -> Seq<char>;

/// The upper-case form of a text by the Unicode rules, as `str::to_uppercase` gives it.
pub uninterp spec fn uppercase(s: Seq<char>) -> Seq<char>;

/// `str::to_lowercase`: the result depends on the text alone and is named [`lowercase`].
#[verifier::external_body]
pub(crate) fn to_lowercase(s: &str) -> (r: String)
    ensures
        r@ == lowercase(s@),
{
    s.to_lowercase()
}

/// `str::to_uppercase`: the result depends on the text alone and is named [`uppercase`].
#[verifier::external_body]
pub(crate) fn to_uppercase(s: &str) -> (r: String)
    ensures
        r@ == uppercase(s@),
{
    s.to_uppercase()
}

/// A text in quotes with its special characters escaped, as `{:?}` writes a `str`.
pub uninterp spec fn debug_text(s: Seq<char>) -> Seq<char>;

/// The `Debug` form of a `str`: the result depends on the text alone and is named [`debug_text`].
#[verifier::external_body]
pub(crate) fn to_debug(s: &str) -> (r: String)
    ensures
        r@ == debug_text(s@),
{
    format!("{:?}", s)
}

// ------------------------------------------------------------------ paths

/// The name of a file: the last part of a `/`-separated path, as `Path::file_name` gives it. Empty
/// parts and `.` do not count; there is none where the last part is `..`.
pub open spec fn file_name_of(path: Seq<char>) -> Option<Seq<char>> {
    last_name(pieces(path, '/'))
}

/// The last of some path parts that is neither empty nor `.`, unless it is `..`.
pub open spec fn last_name(parts: Seq<Seq<char>>) -> Option<Seq<char>>
    decreases parts.len(),
{
    if parts.len() == 0 {
        None
    } else if parts.last().len() == 0 || parts.last() == "."@ {
        last_name(parts.drop_last())
    } else if parts.last() == ".."@ {
        None
    } else {
        Some(parts.last())
    }
}

/// `Path::file_name`.
pub fn file_name<'a>(path: &'a [char]) -> (r: Option<&'a [char]>)
    ensures
        match r {
            Some(n) => file_name_of(path@) == Some(n@),
            None => file_name_of(path@) is None,
        },
{
    let parts = split(path, '/');
    let mut i: usize = parts.len();
    let ghost all = slices(parts@);
    assert(all.take(i as int) =~= all);
    while i > 0
        invariant
            i <= parts.len(),
            all == slices(parts@),
            last_name(all) == last_name(all.take(i as int)),
            all == pieces(path@, '/'),
        decreases i,
    {
        let p = parts[i - 1];
        assert(all.take(i as int).last() == p@);
        assert(all.take(i as int).drop_last() =~= all.take(i - 1));
        if p.len() > 0 && !is_text(p, ".") {
            if is_text(p, "..") {
                return None;
            }
            return Some(p);
        }
        i -= 1;
    }
    None
}

/// `base` and `name` with one `/` between them, as `Path::join` puts a relative name.
pub open spec fn path_joined(base: Seq<char>, name: Seq<char>) -> Seq<char> {
    if base.len() == 0 || base.last() == '/' {
        base + name
    } else {
        base.push('/') + name
    }
}

/// `Path::join` for a relative name.
pub fn path_join(base: &str, name: &str) -> (r: String)
    requires
        name@.len() == 0 || name@[0] != '/',
    ensures
        r@ == path_joined(base@, name@),
{
    let cs = chars_of(base);
    let mut out = copy(base);
    if cs.len() > 0 && cs[cs.len() - 1] != '/' {
        out.push('/');
    }
    out.push_str(name);
    out
}

// ------------------------------------------------------------------ laws of trimming

/// Neither end of a trimmed text is white space.
pub proof fn trimmed_has_no_white_ends(s: Seq<char>)
    ensures
        trimmed(s).len() > 0 ==> !is_white(trimmed(s)[0]) && !is_white(trimmed(s).last()),
{
    lemma_trimmed_start_len(s);
    lemma_trimmed_end(trimmed_start(s));
}

/// Text whose ends are not white space stays as it is.
pub proof fn trimming_keeps_clean_text(s: Seq<char>)
    requires
        s.len() > 0 ==> !is_white(s[0]) && !is_white(s.last()),
    ensures
        trimmed(s) == s,
{
}

/// Trimming twice is trimming once.
pub proof fn trimming_is_idempotent(s: Seq<char>)
    ensures
        trimmed(trimmed(s)) == trimmed(s),
{
    trimmed_has_no_white_ends(s);
    trimming_keeps_clean_text(trimmed(s));
}

pub(crate) proof fn lemma_trimmed_end(s: Seq<char>)
    ensures
        trimmed_end(s).len() <= s.len(),
        trimmed_end(s) == s.take(trimmed_end(s).len() as int),
        trimmed_end(s).len() > 0 ==> !is_white(trimmed_end(s).last()),
        trimmed_end(s).len() > 0 ==> trimmed_end(s)[0] == s[0],
    decreases s.len(),
{
    if s.len() > 0 && is_white(s.last()) {
        lemma_trimmed_end(s.drop_last());
        let n = trimmed_end(s).len() as int;
        assert(s.drop_last().take(n) =~= s.take(n));
    } else {
        assert(s.take(s.len() as int) =~= s);
    }
}

// ------------------------------------------------------------------ laws of splitting

/// `w` is one word: not empty, and without white space.
pub open spec fn is_word(w: Seq<char>) -> bool {
    w.len() > 0 && forall|i: int| 0 <= i < w.len() ==> !is_white(#[trigger] w[i])
}

proof fn lemma_upto_white_word(w: Seq<char>, rest: Seq<char>)
    requires
        forall|i: int| 0 <= i < w.len() ==> !is_white(#[trigger] w[i]),
        rest.len() > 0 ==> is_white(rest[0]),
    ensures
        upto_white(w + rest) == w.len(),
    decreases w.len(),
{
    if w.len() == 0 {
        assert(w + rest =~= rest);
    } else {
        assert((w + rest)[0] == w[0]);
        assert((w + rest).drop_first() =~= w.drop_first() + rest);
        assert forall|i: int| 0 <= i < w.drop_first().len() implies !is_white(
            #[trigger] w.drop_first()[i],
        ) by {
            assert(w.drop_first()[i] == w[i + 1]);
        }
        lemma_upto_white_word(w.drop_first(), rest);
    }
}

/// A word and a space before some text are the first word of the whole.
pub proof fn words_of_word_and_rest(w: Seq<char>, rest: Seq<char>)
    requires
        is_word(w),
    ensures
        words_of(w + " "@ + rest) == seq![w] + words_of(rest),
{
    reveal_strlit(" ");
    let tail = " "@ + rest;
    let s = w + " "@ + rest;
    assert(s =~= w + tail);
    assert(tail[0] == ' ');
    lemma_upto_white_word(w, tail);
    assert(s[0] == w[0]);
    assert(s.take(w.len() as int) =~= w);
    assert(s.skip(w.len() as int) =~= tail);
    assert(tail.drop_first() =~= rest);
    assert(trimmed_start(tail) == trimmed_start(rest));
    assert(words_of(tail) == words_of(rest));
}

/// One word alone is the only word.
pub proof fn words_of_one_word(w: Seq<char>)
    requires
        is_word(w),
    ensures
        words_of(w) == seq![w],
{
    lemma_upto_white_word(w, Seq::empty());
    assert(w + Seq::<char>::empty() =~= w);
    assert(w.take(w.len() as int) =~= w);
    assert(words_of(w.skip(w.len() as int)) =~= Seq::empty());
    assert(words_of(w) =~= seq![w] + Seq::<Seq<char>>::empty());
}

/// A line that ends in `\n` and does not itself hold one is the first line of a text.
pub proof fn lines_of_line_and_rest(line: Seq<char>, rest: Seq<char>)
    requires
        !line.contains('\n'),
    ensures
        lines_of(line.push('\n') + rest) == seq![without_cr(line)] + lines_of(rest),
{
    let s = line.push('\n') + rest;
    assert(s[line.len() as int] == '\n');
    assert forall|j: int| 0 <= j < line.len() implies s[j] != '\n' by {
        assert(s[j] == line[j]);
        assert(line.contains(line[j]));
    }
    lemma_upto_is(s, '\n', line.len() as int);
    assert(s.take(line.len() as int) =~= line);
    assert(s.skip(line.len() as int + 1) =~= rest);
}

/// Text without the separator is one piece; with it, the first piece ends there.
pub proof fn pieces_of_piece_and_rest(a: Seq<char>, c: char, rest: Seq<char>)
    requires
        !a.contains(c),
    ensures
        pieces(a, c) == seq![a],
        pieces(a.push(c) + rest, c) == seq![a] + pieces(rest, c),
{
    assert forall|j: int| 0 <= j < a.len() implies a[j] != c by {
        assert(a.contains(a[j]));
    }
    lemma_upto_is(a, c, a.len() as int);
    let s = a.push(c) + rest;
    assert(s[a.len() as int] == c);
    assert forall|j: int| 0 <= j < a.len() implies s[j] != c by {
        assert(s[j] == a[j]);
    }
    lemma_upto_is(s, c, a.len() as int);
    assert(s.take(a.len() as int) =~= a);
    assert(s.skip(a.len() as int + 1) =~= rest);
}

} // verus!
