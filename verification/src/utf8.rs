//! Bytes as text: decoding UTF-8 that may be cut off at its end or hold bytes that are not UTF-8.

use crate::text::{chars_of, string_of};
use vstd::prelude::*;
use vstd::slice::slice_subrange;
use vstd::utf8::{decode_utf8, valid_utf8};

verus! {

/// Some bytes could be added to `b` so that the whole is valid UTF-8.
pub open spec fn completable(b: Seq<u8>) -> bool {
    exists|t: Seq<u8>| valid_utf8(#[trigger] (b + t))
}

/// `n` is the length of the longest prefix of `b` that is valid UTF-8.
pub open spec fn is_valid_len(b: Seq<u8>, n: int) -> bool {
    &&& 0 <= n <= b.len()
    &&& valid_utf8(b.take(n))
    &&& forall|m: int| n < m <= b.len() ==> !valid_utf8(#[trigger] b.take(m))
}

/// The length of the longest prefix of `b` that is valid UTF-8.
pub open spec fn valid_len(b: Seq<u8>) -> int {
    choose|n: int| is_valid_len(b, n)
}

/// `m` is the length of the bad sequence that `c` begins with: the longest that could still have
/// become a character, or else one byte.
pub open spec fn is_bad_len(c: Seq<u8>, m: int) -> bool {
    &&& 1 <= m <= c.len()
    &&& m == 1 || completable(c.take(m))
    &&& forall|j: int| m < j <= c.len() ==> !completable(#[trigger] c.take(j))
}

/// The length of the bad sequence that `c` begins with.
pub open spec fn bad_len(c: Seq<u8>) -> int {
    choose|m: int| is_bad_len(c, m)
}

/// The text that some bytes hold, and the bytes to keep for later: a character that the end cuts
/// off waits for its other bytes; each sequence that can never become UTF-8 is replaced.
pub open spec fn decoded(b: Seq<u8>) -> (Seq<char>, Seq<u8>)
    decreases b.len(),
{
    if completable(b) {
        (decode_utf8(b.take(valid_len(b))), b.skip(valid_len(b)))
    } else {
        proof {
            broken_bytes_hold_a_bad_sequence(b);
        }
        let n = valid_len(b);
        let k = bad_len(b.skip(n));
        let (text, rest) = decoded(b.skip(n + k));
        (decode_utf8(b.take(n)).push('\u{FFFD}') + text, rest)
    }
}

/// The text of some bytes with each sequence that is not UTF-8 replaced by U+FFFD, a character
/// that the end cuts off among them.
pub open spec fn lossy(b: Seq<u8>) -> Seq<char> {
    let (text, rest) = decoded(b);
    if rest.len() == 0 {
        text
    } else {
        text.push('\u{FFFD}')
    }
}

/// What `std::str::from_utf8` says of some bytes.
enum Utf8 {
    /// Valid: this text.
    Whole(String),
    /// The end cuts a character off; this many bytes before it are valid.
    Cut(usize),
    /// After this many valid bytes stands a bad sequence, of this length.
    Broken(usize, usize),
}

/// `std::str::from_utf8`: the text of valid bytes; else `valid_up_to`, the largest index up to
/// which they are valid. Where `error_len` is `None`, the end was reached within a character,
/// which more bytes could complete. Where it is `Some`, an unexpected byte was met, after which no
/// bytes make the whole valid, and it is the length of the bad sequence: what could still have
/// become a character, or one byte.
#[verifier::external_body]
fn from_utf8(b: &[u8]) -> (r: Utf8)
    ensures
        match r {
            Utf8::Whole(s) => valid_utf8(b@) && s@ == decode_utf8(b@),
            Utf8::Cut(n) => !valid_utf8(b@) && completable(b@) && is_valid_len(b@, n as int),
            Utf8::Broken(n, k) => !completable(b@) && is_valid_len(b@, n as int) && k == bad_len(
                b@.skip(n as int),
            ),
        },
{
    match std::str::from_utf8(b) {
        Ok(s) => Utf8::Whole(s.to_string()),
        Err(e) => match e.error_len() {
            None => Utf8::Cut(e.valid_up_to()),
            Some(k) => Utf8::Broken(e.valid_up_to(), k),
        },
    }
}

/// The text of the valid bytes that `b` begins with, `n` of them.
fn decode_valid(b: &[u8], n: usize) -> (r: Vec<char>)
    requires
        n <= b@.len(),
        valid_utf8(b@.take(n as int)),
    ensures
        r@ == decode_utf8(b@.take(n as int)),
{
    let head = slice_subrange(b, 0, n);
    assert(head@ =~= b@.take(n as int));
    proof {
        assert(head@ + Seq::empty() =~= head@);
        assert(completable(head@));
    }
    match from_utf8(head) {
        Utf8::Whole(s) => chars_of(s.as_str()),
        _ => Vec::new(),
    }
}

/// The text of some bytes and the bytes to keep for later.
pub fn decode(b: &[u8]) -> (r: (Vec<char>, Vec<u8>))
    ensures
        (r.0@, r.1@) == decoded(b@),
{
    let mut out: Vec<char> = Vec::new();
    let mut i: usize = 0;
    assert(b@.skip(0) =~= b@);
    assert(out@ + decoded(b@).0 =~= decoded(b@).0);
    loop
        invariant
            i <= b@.len(),
            decoded(b@).0 == out@ + decoded(b@.skip(i as int)).0,
            decoded(b@).1 == decoded(b@.skip(i as int)).1,
        decreases b@.len() - i,
    {
        let left = slice_subrange(b, i, b.len());
        assert(left@ =~= b@.skip(i as int));
        match from_utf8(left) {
            Utf8::Whole(s) => {
                proof {
                    lemma_decoded_valid(left@);
                }
                let mut text = chars_of(s.as_str());
                out.append(&mut text);
                return (out, Vec::new());
            },
            Utf8::Cut(n) => {
                proof {
                    lemma_valid_len(left@, n as int);
                }
                let mut text = decode_valid(left, n);
                out.append(&mut text);
                return (out, vstd::slice::slice_to_vec(slice_subrange(left, n, left.len())));
            },
            Utf8::Broken(n, k) => {
                proof {
                    broken_bytes_hold_a_bad_sequence(left@);
                    lemma_valid_len(left@, n as int);
                    assert(left@.skip(n + k) =~= b@.skip(i + n + k));
                }
                let ghost before = out@;
                let mut text = decode_valid(left, n);
                let ghost head = text@;
                out.append(&mut text);
                out.push('\u{FFFD}');
                assert(out@ + decoded(left@.skip(n + k)).0 =~= before + (head.push('\u{FFFD}')
                    + decoded(left@.skip(n + k)).0));
                i += n + k;
            },
        }
    }
}

/// The text of some bytes, whatever is not UTF-8 replaced.
pub fn from_utf8_lossy(b: &[u8]) -> (r: String)
    ensures
        r@ == lossy(b@),
{
    let (mut text, rest) = decode(b);
    if rest.len() > 0 {
        text.push('\u{FFFD}');
    }
    string_of(&text)
}

// ------------------------------------------------------------------ laws

proof fn lemma_valid_len(b: Seq<u8>, n: int)
    requires
        is_valid_len(b, n),
    ensures
        valid_len(b) == n,
{
    let m = valid_len(b);
    assert(is_valid_len(b, m));
    if m < n {
        assert(!valid_utf8(b.take(n)));
    } else if n < m {
        assert(!valid_utf8(b.take(m)));
    }
}

proof fn lemma_bad_len(c: Seq<u8>, m: int)
    requires
        is_bad_len(c, m),
    ensures
        bad_len(c) == m,
{
    let k = bad_len(c);
    assert(is_bad_len(c, k));
    if k < m {
        assert(!completable(c.take(m)));
    } else if m < k {
        assert(!completable(c.take(k)));
    }
}

proof fn lemma_bad_len_exists(c: Seq<u8>, m: int)
    requires
        1 <= m <= c.len(),
        m == 1 || completable(c.take(m)),
    ensures
        is_bad_len(c, bad_len(c)),
    decreases c.len() - m,
{
    if exists|j: int| m < j <= c.len() && completable(#[trigger] c.take(j)) {
        let j = choose|j: int| m < j <= c.len() && completable(#[trigger] c.take(j));
        lemma_bad_len_exists(c, j);
    } else {
        assert(is_bad_len(c, m));
    }
}

/// Valid bytes keep nothing for later.
proof fn lemma_decoded_valid(b: Seq<u8>)
    requires
        valid_utf8(b),
    ensures
        decoded(b) == (decode_utf8(b), Seq::<u8>::empty()),
{
    assert(b + Seq::empty() =~= b);
    assert(completable(b));
    assert(b.take(b.len() as int) =~= b);
    assert(is_valid_len(b, b.len() as int));
    lemma_valid_len(b, b.len() as int);
    assert(b.skip(b.len() as int) =~= Seq::empty());
}

/// Bytes that nothing can complete hold a bad sequence, right behind their valid prefix.
pub proof fn broken_bytes_hold_a_bad_sequence(b: Seq<u8>)
    requires
        !completable(b),
    ensures
        is_valid_len(b, valid_len(b)),
        is_bad_len(b.skip(valid_len(b)), bad_len(b.skip(valid_len(b)))),
{
    assert(b.take(0) =~= Seq::empty());
    lemma_valid_len_exists(b, 0);
    let n = valid_len(b);
    if n == b.len() {
        assert(b.take(n) =~= b + Seq::empty());
    }
    lemma_bad_len_exists(b.skip(n), 1);
}

proof fn lemma_valid_prefix(p: Seq<u8>, q: Seq<u8>)
    requires
        valid_utf8(p),
    ensures
        valid_utf8(p + q) == valid_utf8(q),
        valid_utf8(q) ==> decode_utf8(p + q) == decode_utf8(p) + decode_utf8(q),
    decreases p.len(),
{
    if p.len() == 0 {
        assert(p + q =~= q);
        assert(valid_utf8(q) ==> decode_utf8(p) + decode_utf8(q) =~= decode_utf8(q));
    } else {
        let n = vstd::utf8::length_of_first_scalar(p);
        let rest = vstd::utf8::pop_first_scalar(p);
        assert forall|i: int| 0 <= i < p.len() implies (p + q)[i] == p[i] by {}
        assert(vstd::utf8::valid_first_scalar(p + q));
        assert(vstd::utf8::pop_first_scalar(p + q) =~= rest + q);
        lemma_valid_prefix(rest, q);
        if valid_utf8(q) {
            assert(valid_utf8(p + q));
            let c = seq![vstd::utf8::decode_first_scalar(p) as char];
            assert(decode_utf8(p + q) == c + decode_utf8(rest + q));
            assert(c + (decode_utf8(rest) + decode_utf8(q)) =~= (c + decode_utf8(rest))
                + decode_utf8(q));
        }
    }
}

proof fn lemma_valid_len_exists(b: Seq<u8>, n: int)
    requires
        0 <= n <= b.len(),
        valid_utf8(b.take(n)),
    ensures
        is_valid_len(b, valid_len(b)),
        valid_len(b) >= n,
    decreases b.len() - n,
{
    if exists|m: int| n < m <= b.len() && valid_utf8(#[trigger] b.take(m)) {
        let m = choose|m: int| n < m <= b.len() && valid_utf8(#[trigger] b.take(m));
        lemma_valid_len_exists(b, m);
    } else {
        assert(is_valid_len(b, n));
        lemma_valid_len(b, n);
    }
}

/// Valid bytes in front are decoded for themselves.
proof fn lemma_decoded_prefix(p: Seq<u8>, y: Seq<u8>)
    requires
        valid_utf8(p),
    ensures
        decoded(p + y).0 == decode_utf8(p) + decoded(y).0,
        decoded(p + y).1 == decoded(y).1,
        completable(p + y) == completable(y),
{
    let x = p + y;
    let k = p.len() as int;
    // `y` can be completed as `x` can
    assert forall|t: Seq<u8>| valid_utf8(#[trigger] (x + t)) implies completable(y) by {
        assert(x + t =~= p + (y + t));
        lemma_valid_prefix(p, y + t);
    }
    assert forall|t: Seq<u8>| valid_utf8(#[trigger] (y + t)) implies completable(x) by {
        assert(x + t =~= p + (y + t));
        lemma_valid_prefix(p, y + t);
    }
    // the valid prefix of `x` is `p` with that of `y`
    assert(y.take(0) =~= Seq::empty());
    lemma_valid_len_exists(y, 0);
    let m = valid_len(y);
    assert(x.take(k + m) =~= p + y.take(m));
    lemma_valid_prefix(p, y.take(m));
    assert forall|j: int| k + m < j <= x.len() implies !valid_utf8(#[trigger] x.take(j)) by {
        assert(x.take(j) =~= p + y.take(j - k));
        lemma_valid_prefix(p, y.take(j - k));
        assert(!valid_utf8(y.take(j - k)));
    }
    assert(is_valid_len(x, k + m));
    lemma_valid_len(x, k + m);
    assert(x.skip(k + m) =~= y.skip(m));
    if !completable(y) {
        let b = bad_len(y.skip(m));
        broken_bytes_hold_a_bad_sequence(y);
        assert(x.skip(k + m + b) =~= y.skip(m + b));
        let rest = decoded(y.skip(m + b)).0;
        assert((decode_utf8(p) + decode_utf8(y.take(m))).push('\u{FFFD}') + rest =~= decode_utf8(p)
            + (decode_utf8(y.take(m)).push('\u{FFFD}') + rest));
    }
}

proof fn lemma_completable_start(a: Seq<u8>, b: Seq<u8>)
    requires
        completable(a + b),
    ensures
        completable(a),
{
    let t = choose|t: Seq<u8>| valid_utf8(#[trigger] (a + b + t));
    assert(a + (b + t) =~= a + b + t);
}

/// Where bytes are cut makes no difference: what is kept of the first part goes before the second.
pub proof fn decoding_in_parts(a: Seq<u8>, b: Seq<u8>)
    ensures
        decoded(a + b).0 == decoded(a).0 + decoded(decoded(a).1 + b).0,
        decoded(a + b).1 == decoded(decoded(a).1 + b).1,
    decreases a.len(),
{
    let x = a + b;
    assert(a.take(0) =~= Seq::empty());
    lemma_valid_len_exists(a, 0);
    let n = valid_len(a);
    let p = a.take(n);
    let c = a.skip(n);
    assert(a =~= p + c);
    if completable(a) {
        assert(x =~= p + (c + b));
        lemma_decoded_prefix(p, c + b);
    } else {
        // what makes `a` bad makes `x` bad, at the same place
        broken_bytes_hold_a_bad_sequence(a);
        let k = bad_len(c);
        if completable(x) {
            lemma_completable_start(a, b);
        }
        assert(x.take(n) =~= p);
        assert forall|j: int| n < j <= x.len() implies !valid_utf8(#[trigger] x.take(j)) by {
            if j <= a.len() {
                assert(x.take(j) =~= a.take(j));
            } else {
                assert(x.take(j) =~= a + b.take(j - a.len()));
            }
        }
        assert(is_valid_len(x, n));
        lemma_valid_len(x, n);
        lemma_decoded_prefix(p, c);
        let d = x.skip(n);
        assert(d =~= c + b);
        assert(d.take(k) =~= c.take(k));
        assert forall|j: int| k < j <= d.len() implies !completable(#[trigger] d.take(j)) by {
            if j <= c.len() {
                assert(d.take(j) =~= c.take(j));
            } else if completable(d.take(j)) {
                assert(d.take(j) =~= c + b.take(j - c.len()));
                lemma_completable_start(c, b.take(j - c.len()));
            }
        }
        assert(is_bad_len(d, k));
        lemma_bad_len(d, k);
        let r = a.skip(n + k);
        assert(x.skip(n + k) =~= r + b);
        decoding_in_parts(r, b);
        let head = decode_utf8(p).push('\u{FFFD}');
        assert(head + (decoded(r).0 + decoded(decoded(r).1 + b).0) =~= (head + decoded(r).0)
            + decoded(decoded(r).1 + b).0);
    }
}

/// Bytes that are UTF-8 stand for the text they encode: nothing in it is replaced.
pub proof fn valid_bytes_are_kept(b: Seq<u8>)
    requires
        valid_utf8(b),
    ensures
        lossy(b) == decode_utf8(b),
{
    lemma_decoded_valid(b);
}

} // verus!
