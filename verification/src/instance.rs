//! One GUI per session. The first instance takes a lock in the runtime directory and listens on
//! a Unix socket next to it; a later launch (the tray's click, a second menu click) hands its
//! start-up request to that socket and exits, and the running window comes to the front.
//!
//! Wire format: one line per connection — `show`, `upgrade`, or `select NAME`.

use crate::app::StartUp;
use crate::text::{
    chars_of, copy, halves, includes, is_text, opt, path_join, path_joined, split_once, string_of,
    trim, trimmed,
};
use std::collections::hash_map::DefaultHasher;
use std::hash::BuildHasher;
use std::path::Path;
use vstd::prelude::*;
use vstd::utf8::encode_utf8;

verus! {

/// What a second launch asks the running instance to do.
#[derive(Debug, PartialEq, Eq)]
pub enum Request {
    Show,
    Upgrade,
    Select(String),
}

/// The model of a [`Request`].
#[verifier::ext_equal]
pub enum RequestView {
    Show,
    Upgrade,
    Select(Seq<char>),
}

impl View for Request {
    type V = RequestView;

    open spec fn view(&self) -> RequestView {
        match self {
            Request::Show => RequestView::Show,
            Request::Upgrade => RequestView::Upgrade,
            Request::Select(name) => RequestView::Select(name@),
        }
    }
}

impl Clone for Request {
    fn clone(&self) -> (r: Self)
        ensures
            r@ == self@,
    {
        match self {
            Request::Show => Request::Show,
            Request::Upgrade => Request::Upgrade,
            Request::Select(name) => Request::Select(name.clone()),
        }
    }
}

/// The views of some requests.
pub open spec fn requests(v: Seq<Request>) -> Seq<RequestView> {
    v.map_values(|r: Request| r@)
}

/// The request on the wire.
pub open spec fn encoded(r: RequestView) -> Seq<char> {
    match r {
        RequestView::Show => "show\n"@,
        RequestView::Upgrade => "upgrade\n"@,
        RequestView::Select(name) => "select "@ + name + "\n"@,
    }
}

/// The request that a line from the wire states.
pub open spec fn decoded(line: Seq<char>) -> Option<RequestView> {
    let t = trimmed(line);
    match halves(t, " "@) {
        None => if t == "show"@ {
            Some(RequestView::Show)
        } else if t == "upgrade"@ {
            Some(RequestView::Upgrade)
        } else {
            None
        },
        Some((word, name)) => if word == "select"@ && name.len() > 0 {
            Some(RequestView::Select(name))
        } else {
            None
        },
    }
}

impl Request {
    /// What a launch with these start-up flags asks for.
    pub fn from_start(start: &StartUp) -> (r: Self)
        ensures
            r@ == (if start.upgrade {
                RequestView::Upgrade
            } else {
                match opt(start.select) {
                    Some(name) => RequestView::Select(name),
                    None => RequestView::Show,
                }
            }),
    {
        if start.upgrade {
            Request::Upgrade
        } else if let Some(name) = &start.select {
            Request::Select(name.clone())
        } else {
            Request::Show
        }
    }

    /// The line to send.
    pub fn encode(&self) -> (r: String)
        ensures
            r@ == encoded(self@),
    {
        match self {
            Request::Show => copy("show\n"),
            Request::Upgrade => copy("upgrade\n"),
            Request::Select(name) => {
                let mut out = copy("select ");
                out.push_str(name.as_str());
                out.push_str("\n");
                out
            },
        }
    }

    /// The request that a received line states, if any.
    pub fn decode(line: &str) -> (r: Option<Self>)
        ensures
            match r {
                Some(q) => decoded(line@) == Some(q@),
                None => decoded(line@) is None,
            },
    {
        let cs = chars_of(line);
        let t = trim(&cs);
        match split_once(t, " ") {
            None => if is_text(t, "show") {
                Some(Request::Show)
            } else if is_text(t, "upgrade") {
                Some(Request::Upgrade)
            } else {
                None
            },
            Some((word, name)) => if is_text(word, "select") && name.len() > 0 {
                Some(Request::Select(string_of(name)))
            } else {
                None
            },
        }
    }
}

/// The wire can carry the request: a name to select is not empty and does not end in white space
/// (which could not be told from the end of the line).
pub open spec fn sendable(r: RequestView) -> bool {
    match r {
        RequestView::Select(name) => name.len() > 0 && !crate::text::is_white(name.last()),
        _ => true,
    }
}

/// What one launch sends, the other understands.
pub proof fn request_is_understood(r: RequestView)
    requires
        sendable(r),
    ensures
        decoded(encoded(r)) == Some(r),
{
    reveal_strlit("show\n");
    reveal_strlit("upgrade\n");
    reveal_strlit("select ");
    reveal_strlit("show");
    reveal_strlit("upgrade");
    reveal_strlit("select");
    reveal_strlit("\n");
    reveal_strlit(" ");
    let s = encoded(r);
    let body = match r {
        RequestView::Show => "show"@,
        RequestView::Upgrade => "upgrade"@,
        RequestView::Select(name) => "select "@ + name,
    };
    assert(s =~= body.push('\n'));
    assert(!crate::text::is_white(body[0]));
    assert(!crate::text::is_white(body.last()));
    // only the line's end is trimmed away
    assert(s[0] == body[0]);
    assert(crate::text::trimmed_start(s) == s);
    assert(s.last() == '\n');
    assert(s.drop_last() =~= body);
    assert(crate::text::trimmed_end(body) == body);
    assert(trimmed(s) == body);
    match r {
        RequestView::Select(name) => {
            let k = "select"@.len() as int;
            assert(crate::text::occurs_at(body, " "@, k)) by {
                assert(body.subrange(k, k + 1) =~= " "@);
            }
            assert forall|j: int| 0 <= j < k implies !crate::text::occurs_at(body, " "@, j) by {
                assert(body[j] == "select"@[j]);
                if crate::text::occurs_at(body, " "@, j) {
                    assert(body.subrange(j, j + 1)[0] == " "@[0]);
                }
            }
            assert(crate::text::is_first(body, " "@, k));
            crate::text::lemma_first_at(body, " "@, k);
            assert(body.take(k) =~= "select"@);
            assert(body.skip(k + 1) =~= name);
        },
        _ => {
            assert(!includes(body, " "@)) by {
                if includes(body, " "@) {
                    let i = choose|i: int| crate::text::occurs_at(body, " "@, i);
                    assert(body.subrange(i, i + 1)[0] == " "@[0]);
                    assert(body[i] == ' ');
                }
            }
        },
    }
}

// ------------------------------------------------------------------ claiming

/// Outcome of [`claim`].
#[derive(Debug, PartialEq, Eq)]
pub enum Claim {
    /// This process is the instance.
    Primary {
        /// It listens for later launches.
        listening: bool,
        /// The socket file to remove at the end.
        socket: Option<String>,
        /// What to say about it on the standard error.
        notice: Option<String>,
    },
    /// Another instance took the request; exit.
    Forwarded,
}

/// The model of a [`Claim`].
#[verifier::ext_equal]
pub enum ClaimView {
    Primary { listening: bool, socket: Option<Seq<char>>, notice: Option<Seq<char>> },
    Forwarded,
}

impl View for Claim {
    type V = ClaimView;

    open spec fn view(&self) -> ClaimView {
        match self {
            Claim::Primary { listening, socket, notice } => ClaimView::Primary {
                listening: *listening,
                socket: opt(*socket),
                notice: opt(*notice),
            },
            Claim::Forwarded => ClaimView::Forwarded,
        }
    }
}

/// What is tried while an instance claims its place.
#[derive(Debug, PartialEq, Eq)]
pub enum Attempt {
    /// The lock was got; the socket could be opened, or not and why.
    Locked { bound: Result<(), String> },
    /// Another process holds the lock; it took the request, or not.
    Taken { forwarded: bool },
}

/// What is said when another instance holds the lock and does not answer.
pub open spec fn no_answer(lock: Seq<char>, socket: Seq<char>) -> Seq<char> {
    "fuide-arch-update: another instance holds "@ + lock + " but does not answer on "@ + socket
        + "; starting anyway"@
}

/// What is said when the socket cannot be opened.
pub open spec fn no_listen(socket: Seq<char>, error: Seq<char>) -> Seq<char> {
    "fuide-arch-update: cannot listen on "@ + socket + ": "@ + error
        + "; later launches open new windows"@
}

/// What comes of an attempt to become the instance.
pub open spec fn claimed(a: Attempt, lock: Seq<char>, socket: Seq<char>) -> ClaimView {
    match a {
        Attempt::Locked { bound: Ok(_) } => ClaimView::Primary {
            listening: true,
            socket: Some(socket),
            notice: None,
        },
        Attempt::Locked { bound: Err(e) } => ClaimView::Primary {
            listening: false,
            socket: Some(socket),
            notice: Some(no_listen(socket, e@)),
        },
        Attempt::Taken { forwarded: true } => ClaimView::Forwarded,
        Attempt::Taken { forwarded: false } => ClaimView::Primary {
            listening: false,
            socket: None,
            notice: Some(no_answer(lock, socket)),
        },
    }
}

/// Become the instance, or hand the request to the one that is running. When the lock is taken but
/// the socket does not answer, run anyway: a window beats nothing. `lock` and `socket` are the
/// paths of both.
pub fn claim(a: &Attempt, lock: &str, socket: &str) -> (r: Claim)
    ensures
        r@ == claimed(*a, lock@, socket@),
{
    match a {
        Attempt::Locked { bound: Ok(_) } => Claim::Primary {
            listening: true,
            socket: Some(copy(socket)),
            notice: None,
        },
        Attempt::Locked { bound: Err(e) } => Claim::Primary {
            listening: false,
            socket: Some(copy(socket)),
            notice: Some(no_listen_notice(socket, e.as_str())),
        },
        Attempt::Taken { forwarded } => if *forwarded {
            Claim::Forwarded
        } else {
            Claim::Primary {
                listening: false,
                socket: None,
                notice: Some(no_answer_notice(lock, socket)),
            }
        },
    }
}

/// What is said when another instance holds the lock and does not answer.
fn no_answer_notice(lock: &str, socket: &str) -> (r: String)
    ensures
        r@ == no_answer(lock@, socket@),
{
    let mut out = copy("fuide-arch-update: another instance holds ");
    out.push_str(lock);
    out.push_str(" but does not answer on ");
    out.push_str(socket);
    out.push_str("; starting anyway");
    out
}

/// What is said when the socket cannot be opened.
fn no_listen_notice(socket: &str, error: &str) -> (r: String)
    ensures
        r@ == no_listen(socket@, error@),
{
    let mut out = copy("fuide-arch-update: cannot listen on ");
    out.push_str(socket);
    out.push_str(": ");
    out.push_str(error);
    out.push_str("; later launches open new windows");
    out
}

/// What the running instance holds: its socket's file, and the requests that have arrived.
#[derive(Debug, PartialEq, Eq)]
pub struct Guard {
    /// The file to remove at the end.
    pub socket: Option<String>,
    /// Requests that arrived since the last [`Guard::drain`], oldest first.
    pub arrived: Vec<Request>,
}

/// The model of a [`Guard`].
#[verifier::ext_equal]
pub struct GuardView {
    pub socket: Option<Seq<char>>,
    pub arrived: Seq<RequestView>,
}

impl View for Guard {
    type V = GuardView;

    open spec fn view(&self) -> GuardView {
        GuardView { socket: opt(self.socket), arrived: requests(self.arrived@) }
    }
}

impl ClaimView {
    /// The guard of an instance that has just become one; none where another took the request.
    pub open spec fn guard(self) -> Option<GuardView> {
        match self {
            ClaimView::Primary { socket, .. } => Some(GuardView { socket, arrived: Seq::empty() }),
            ClaimView::Forwarded => None,
        }
    }
}

impl GuardView {
    /// After a line from a connection: a request is added, any other line is passed over.
    pub open spec fn received(self, line: Seq<char>) -> GuardView {
        match decoded(line) {
            Some(q) => GuardView { arrived: self.arrived.push(q), ..self },
            None => self,
        }
    }

    /// After some lines, one from each connection, in order.
    pub open spec fn received_all(self, lines: Seq<Seq<char>>) -> GuardView
        decreases lines.len(),
    {
        if lines.len() == 0 {
            self
        } else {
            self.received_all(lines.drop_last()).received(lines.last())
        }
    }

    /// After the requests have been taken out.
    pub open spec fn drained(self) -> GuardView {
        GuardView { arrived: Seq::empty(), ..self }
    }
}

impl Guard {
    /// The guard of an instance that has just become one; `None` where another took the request.
    pub fn new(c: Claim) -> (r: Option<Guard>)
        ensures
            match r {
                Some(g) => c@.guard() == Some(g@),
                None => c@.guard() is None,
            },
    {
        match c {
            Claim::Primary { socket, .. } => {
                let g = Guard { socket, arrived: Vec::new() };
                assert(g@.arrived =~= Seq::empty());
                Some(g)
            },
            Claim::Forwarded => None,
        }
    }

    /// A line has come from a connection. Whether it is a request, so that the window is to wake.
    pub fn receive(&mut self, line: &str) -> (r: bool)
        ensures
            final(self)@ == old(self)@.received(line@),
            r == decoded(line@) is Some,
    {
        match Request::decode(line) {
            Some(q) => {
                let ghost before = self.arrived@;
                self.arrived.push(q);
                assert(requests(self.arrived@) =~= requests(before).push(q@));
                true
            },
            None => false,
        }
    }

    /// Requests that arrived since the last call.
    pub fn drain(&mut self) -> (r: Vec<Request>)
        ensures
            requests(r@) == old(self)@.arrived,
            final(self)@ == old(self)@.drained(),
    {
        let mut out: Vec<Request> = Vec::new();
        std::mem::swap(&mut out, &mut self.arrived);
        assert(requests(self.arrived@) =~= Seq::empty());
        out
    }
}

/// The lock file in the runtime directory.
pub fn lock_path(dir: &str) -> (r: String)
    ensures
        r@ == path_joined(dir@, "fuide-arch-update.lock"@),
{
    proof {
        reveal_strlit("fuide-arch-update.lock");
    }
    path_join(dir, "fuide-arch-update.lock")
}

/// The lower-case hexadecimal digit of `d`, which is below sixteen.
pub open spec fn hex_digit(d: int) -> char {
    if d < 10 {
        (48 + d) as char
    } else {
        (87 + d) as char
    }
}

/// The `len` lowest hexadecimal digits of `n`.
pub open spec fn hex(n: nat, len: nat) -> Seq<char>
    decreases len,
{
    if len == 0 {
        Seq::empty()
    } else {
        hex(n / 16, (len - 1) as nat).push(hex_digit((n % 16) as int))
    }
}

fn hex_chars(n: u64, len: usize) -> (r: Vec<char>)
    ensures
        r@ == hex(n as nat, len as nat),
    decreases len,
{
    if len == 0 {
        return Vec::new();
    }
    let mut out = hex_chars(n / 16, len - 1);
    let d: u8 = (n % 16) as u8;
    out.push(
        if d < 10 {
            (48 + d) as char
        } else {
            (87 + d) as char
        },
    );
    out
}

/// The socket's path: next to the lock where that is short enough for a Unix socket address, else
/// in the temp directory under a name made of `hash`.
pub open spec fn socket_path_of(dir: Seq<char>, temp: Seq<char>, hash: u64) -> Seq<char> {
    let near = path_joined(dir, "fuide-arch-update.sock"@);
    if encode_utf8(near).len() < 100 {
        near
    } else {
        path_joined(temp, "fuide-arch-update-"@ + hex(hash as nat, 16) + ".sock"@)
    }
}

/// The socket's path for the runtime directory `dir`, `hash` being a hash of it.
pub fn socket_path_for(dir: &str, temp: &str, hash: u64) -> (r: String)
    ensures
        r@ == socket_path_of(dir@, temp@, hash),
{
    proof {
        reveal_strlit("fuide-arch-update.sock");
        reveal_strlit("fuide-arch-update-");
    }
    let near = path_join(dir, "fuide-arch-update.sock");
    if near.as_str().as_bytes().len() < 100 {
        return near;
    }
    let mut name = copy("fuide-arch-update-");
    name.push_str(string_of(&hex_chars(hash, 16)).as_str());
    name.push_str(".sock");
    path_join(temp, name.as_str())
}

/// `hash` is a number that std's `DefaultHasher` makes of the path `path`, in some release of std
/// on some platform. Which one it is, std leaves open.
pub uninterp spec fn hashes_to(path: Seq<char>, hash: u64) -> bool;

/// `BuildHasher::hash_one` of std's `DefaultHasher` on a path. Of the number nothing is promised
/// but that it was made of this path: std leaves open how, across releases and platforms.
#[verifier::external_body]
fn path_hash(path: &str) -> (r: u64)
    ensures
        hashes_to(path@, r),
{
    std::hash::BuildHasherDefault::<DefaultHasher>::default().hash_one(Path::new(path))
}

/// Unix socket addresses are short (108 bytes): a long runtime dir falls back to the temp dir,
/// keyed by a hash of the runtime dir so different ones still get different sockets.
pub fn socket_path(dir: &str, temp: &str) -> (r: String)
    ensures
        exists|hash: u64| #[trigger]
            hashes_to(dir@, hash) && r@ == socket_path_of(dir@, temp@, hash),
{
    let hash: u64 = path_hash(dir);
    socket_path_for(dir, temp, hash)
}

/// The first of the two variables that is set and not empty (`FUIDE_ARCH_RUNTIME_DIR`, then
/// `XDG_RUNTIME_DIR`), else the temp dir.
pub fn runtime_dir(var: Option<String>, xdg: Option<String>, temp: String) -> (r: String)
    ensures
        r@ == (if opt(var) is Some && opt(var)->0.len() > 0 {
            opt(var)->0
        } else if opt(xdg) is Some && opt(xdg)->0.len() > 0 {
            opt(xdg)->0
        } else {
            temp@
        }),
{
    if let Some(d) = var {
        if chars_of(d.as_str()).len() > 0 {
            return d;
        }
    }
    if let Some(d) = xdg {
        if chars_of(d.as_str()).len() > 0 {
            return d;
        }
    }
    temp
}

/// Whoever gets the lock becomes the instance, and whoever does not becomes it only where the one
/// that holds the lock took no request; it then leaves the other's socket alone.
pub proof fn lock_holder_is_the_instance(a: Attempt, lock: Seq<char>, socket: Seq<char>)
    ensures
        a is Locked ==> claimed(a, lock, socket) is Primary,
        claimed(a, lock, socket) is Forwarded <==> a == (Attempt::Taken { forwarded: true }),
        a is Taken ==> !(claimed(a, lock, socket) matches ClaimView::Primary {
            socket: Some(_),
            ..
        }),
{
}

/// What later launches hand over is drained as it was sent: each request once, in order, behind
/// those that were there; and the next drain begins anew.
pub proof fn forwarded_requests_are_drained_in_order(g: GuardView, sent: Seq<RequestView>)
    requires
        forall|i: int| 0 <= i < sent.len() ==> sendable(#[trigger] sent[i]),
    ensures
        g.received_all(sent.map_values(|r: RequestView| encoded(r))).arrived == g.arrived + sent,
        g.received_all(sent.map_values(|r: RequestView| encoded(r))).socket == g.socket,
        g.drained().arrived.len() == 0,
        g.drained().received_all(sent.map_values(|r: RequestView| encoded(r))).arrived == sent,
    decreases sent.len(),
{
    let lines = sent.map_values(|r: RequestView| encoded(r));
    if sent.len() == 0 {
        assert(g.arrived + sent =~= g.arrived);
        assert(g.drained().arrived =~= sent);
    } else {
        let before = sent.drop_last();
        assert(lines.drop_last() =~= before.map_values(|r: RequestView| encoded(r)));
        assert(lines.last() == encoded(sent.last()));
        assert forall|i: int| 0 <= i < before.len() implies sendable(#[trigger] before[i]) by {
            assert(before[i] == sent[i]);
        }
        forwarded_requests_are_drained_in_order(g, before);
        request_is_understood(sent.last());
        assert((g.arrived + before).push(sent.last()) =~= g.arrived + sent);
        assert(before.push(sent.last()) =~= sent);
    }
}

/// An instance removes at its end the socket that it opened, and only that: one that runs beside
/// the holder of the lock leaves the holder's socket alone. Whoever then gets the lock is the next
/// instance.
pub proof fn instance_removes_its_own_socket(a: Attempt, lock: Seq<char>, socket: Seq<char>)
    ensures
        a is Locked ==> claimed(a, lock, socket).guard() is Some && claimed(
            a,
            lock,
            socket,
        ).guard()->0.socket == Some(socket),
        a is Taken && claimed(a, lock, socket).guard() is Some ==> claimed(
            a,
            lock,
            socket,
        ).guard()->0.socket is None,
{
}

proof fn lemma_hex_injective(a: nat, b: nat, len: nat)
    requires
        hex(a, len) == hex(b, len),
    ensures
        a % pow16(len) == b % pow16(len),
    decreases len,
{
    if len > 0 {
        let n = (len - 1) as nat;
        let p = pow16(n);
        lemma_pow16(n);
        assert(hex(a, len).drop_last() =~= hex(a / 16, n));
        assert(hex(b, len).drop_last() =~= hex(b / 16, n));
        assert(hex(a, len).last() == hex_digit((a % 16) as int));
        assert(hex(b, len).last() == hex_digit((b % 16) as int));
        assert(a % 16 == b % 16);
        lemma_hex_injective(a / 16, b / 16, n);
        lemma_mod_step(a, p);
        lemma_mod_step(b, p);
    }
}

/// The number of values of `len` hexadecimal digits.
pub open spec fn pow16(len: nat) -> nat
    decreases len,
{
    if len == 0 {
        1
    } else {
        16 * pow16((len - 1) as nat)
    }
}

proof fn lemma_pow16(len: nat)
    ensures
        pow16(len) > 0,
    decreases len,
{
    if len > 0 {
        lemma_pow16((len - 1) as nat);
    }
}

proof fn lemma_mod_step(a: nat, p: nat)
    requires
        p > 0,
    ensures
        a % (16 * p) == 16 * ((a / 16) % p) + a % 16,
{
    vstd::arithmetic::div_mod::lemma_mod_breakdown(a as int, 16, p as int);
}

/// Different hashes give different sockets in the temp directory.
pub proof fn sockets_differ_with_the_hash(temp: Seq<char>, a: u64, b: u64)
    requires
        a != b,
    ensures
        path_joined(temp, "fuide-arch-update-"@ + hex(a as nat, 16) + ".sock"@) != path_joined(
            temp,
            "fuide-arch-update-"@ + hex(b as nat, 16) + ".sock"@,
        ),
{
    let p = "fuide-arch-update-"@;
    let q = ".sock"@;
    let x = p + hex(a as nat, 16) + q;
    let y = p + hex(b as nat, 16) + q;
    lemma_hex_len(a as nat, 16);
    lemma_hex_len(b as nat, 16);
    let fx = path_joined(temp, x);
    let fy = path_joined(temp, y);
    if fx == fy {
        let head = (fx.len() - x.len()) as int;
        assert(fx.skip(head) =~= x);
        assert(fy.skip(head) =~= y);
        assert(x.subrange(p.len() as int, p.len() as int + 16) =~= hex(a as nat, 16));
        assert(y.subrange(p.len() as int, p.len() as int + 16) =~= hex(b as nat, 16));
        lemma_hex_injective(a as nat, b as nat, 16);
        reveal_with_fuel(pow16, 17);
        assert(pow16(16) == 0x1_0000_0000_0000_0000);
        vstd::arithmetic::div_mod::lemma_small_mod(a as nat, pow16(16));
        vstd::arithmetic::div_mod::lemma_small_mod(b as nat, pow16(16));
    }
}

proof fn lemma_hex_len(n: nat, len: nat)
    ensures
        hex(n, len).len() == len,
    decreases len,
{
    if len > 0 {
        lemma_hex_len(n / 16, (len - 1) as nat);
    }
}

} // verus!
