//! archpkg — pacman / AUR-helper access and the program logic of the FUIDE Arch-Update GUI and its
//! tray applet, verified.
//!
//! Everything that decides or computes is here; reading, running and painting is the application's
//! part, which hands plain values in and takes plain values back.
//!
//! - [`pacman`] says which read-only query (`pacman -Qi`, `-Ss`, `-Si`, `checkupdates`,
//!   `<helper> -Qua` …) is run with which arguments, and parses its output into plain structs.
//! - [`state`] is the small file the GUI and the tray share (pending updates + check time).
//! - [`app`] is the state of the console and all that changes it, [`backend`] what is in flight,
//!   [`panels`] what the window shows of it, [`order`] the order of the listing.
//! - [`tray`] is the applet: its icon, its menu, its notifications.
//! - [`instance`] keeps the GUI to one window per session, [`setup`] plans its desktop entries.
//! - [`pty`] runs a command in a pseudo-terminal, [`term`] is the screen of that terminal,
//!   [`prompt`] reads the questions on it.
//! - [`text`] and [`num`] are the texts and numbers all of it is written in, [`utf8`] makes bytes
//!   texts.
//!
//! [`laws`] states what holds of the console as a whole. [`readings`] says that what the tools print
//! is read back, [`purposes`] what each operation asks for and changes, [`appearances`] what is shown
//! and offered, [`dialogues`] what a program in the terminal shows and asks, and [`exchanges`] what
//! goes to other programs and comes back.

use vstd::prelude::*;

pub mod app;
pub mod appearances;
pub mod backend;
pub mod dialogues;
pub mod exchanges;
pub mod instance;
pub mod laws;
pub mod num;
pub mod order;
pub mod pacman;
pub mod panels;
pub mod prompt;
pub mod pty;
pub mod purposes;
pub mod readings;
pub mod setup;
pub mod state;
pub mod term;
pub mod text;
pub mod tray;
pub mod utf8;

pub use crate::pacman::{Package, Reason, SearchHit, Upgrade};

verus! {

/// A number of at most two digits, written with two.
pub open spec fn two_digits(n: nat) -> Seq<char> {
    if n < 10 {
        "0"@ + num::decimal(n)
    } else {
        num::decimal(n)
    }
}

/// A time span: the largest two of days, hours, minutes; or the minutes; or the seconds.
pub open spec fn duration_text(s: nat) -> Seq<char> {
    if s >= 86_400 {
        num::decimal(s / 86_400) + "d "@ + num::decimal(s / 3_600 % 24) + "h"@
    } else if s >= 3_600 {
        num::decimal(s / 3_600) + "h "@ + two_digits(s / 60 % 60) + "m"@
    } else if s >= 60 {
        num::decimal(s / 60) + "m"@
    } else {
        num::decimal(s) + "s"@
    }
}

/// `3h 22m` / `12m` / `40s` / `2d 1h` from a number of seconds.
pub fn fmt_duration(s: u64) -> (r: String)
    ensures
        r@ == duration_text(s as nat),
{
    let days: u64 = s / 86_400;
    let h: u64 = s / 3_600 % 24;
    let m: u64 = s / 60 % 60;
    let sec: u64 = s % 60;
    if days > 0 {
        let mut out = num::to_decimal(days);
        out.push_str("d ");
        out.push_str(num::to_decimal(h).as_str());
        out.push_str("h");
        out
    } else if h > 0 {
        let mut out = num::to_decimal(h);
        out.push_str("h ");
        if m < 10 {
            let mut mm = text::copy("0");
            mm.push_str(num::to_decimal(m).as_str());
            out.push_str(mm.as_str());
        } else {
            out.push_str(num::to_decimal(m).as_str());
        }
        out.push_str("m");
        out
    } else if m > 0 {
        let mut out = num::to_decimal(m);
        out.push_str("m");
        out
    } else {
        let mut out = num::to_decimal(sec);
        out.push_str("s");
        out
    }
}

/// Seconds since the epoch, now: `SystemTime::now` less `UNIX_EPOCH`; 0 where the clock is before
/// it. Nothing is promised of the clock.
#[verifier::external_body]
pub fn now_epoch() -> u64 {
    std::time::SystemTime::now().duration_since(std::time::UNIX_EPOCH).map_or(0, |d| d.as_secs())
}

/// How long before `now` the time `t` was; nothing where it is later.
pub open spec fn ago_text(t: u64, now: u64) -> Seq<char> {
    duration_text(
        if now >= t {
            (now - t) as nat
        } else {
            0
        },
    ) + " ago"@
}

/// "3h 22m ago" from two unix times.
pub fn fmt_ago_at(t: u64, now: u64) -> (r: String)
    ensures
        r@ == ago_text(t, now),
{
    let mut out = fmt_duration(now.saturating_sub(t));
    out.push_str(" ago");
    out
}

/// "3h 22m ago" from a unix time, by the clock.
pub fn fmt_ago(t: u64) -> (r: String)
    ensures
        exists|now: u64| r@ == ago_text(t, now),
{
    let now: u64 = now_epoch();
    fmt_ago_at(t, now)
}

/// A date and time of the form `2026-09-06 15:14`.
pub open spec fn is_stamp(s: Seq<char>) -> bool {
    &&& s.len() == 16
    &&& s[4] == '-' && s[7] == '-' && s[10] == ' ' && s[13] == ':'
    &&& forall|i: int|
        0 <= i < 16 && i != 4 && i != 7 && i != 10 && i != 13 ==> num::is_digit(#[trigger] s[i])
}

/// `2026-09-06 15:14` from a unix time (local time): chrono's `DateTime<Local>` of that time,
/// formatted by `%Y-%m-%d %H:%M`. Up to the year 9999 the result has that form. Which date it is
/// depends on the machine's time zone and is left open. Times after the last that chrono can
/// hold are not accepted.
#[verifier::external_body]
pub fn fmt_epoch(t: u64) -> (r: String)
    requires
        t <= 8_210_266_876_799,
    ensures
        t <= 253_402_214_399 ==> is_stamp(r@),
{
    let dt: chrono::DateTime<chrono::Local> =
        (std::time::UNIX_EPOCH + std::time::Duration::from_secs(t)).into();
    dt.format("%Y-%m-%d %H:%M").to_string()
}

} // verus!
