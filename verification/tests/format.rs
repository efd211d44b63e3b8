use archpkg::{fmt_ago, fmt_ago_at, fmt_duration, fmt_epoch, now_epoch};

#[test]
fn sizes_and_durations() {
    assert_eq!(fmt_duration(40), "40s");
    assert_eq!(fmt_duration(3 * 3600 + 22 * 60), "3h 22m");
    assert_eq!(fmt_duration(2 * 86_400 + 3600), "2d 1h");
}

#[test]
fn durations_at_the_edges() {
    assert_eq!(fmt_duration(0), "0s");
    assert_eq!(fmt_duration(59), "59s");
    assert_eq!(fmt_duration(60), "1m");
    assert_eq!(fmt_duration(3600), "1h 00m");
    assert_eq!(fmt_duration(3600 + 9 * 60), "1h 09m");
    assert_eq!(fmt_duration(86_399), "23h 59m");
    assert_eq!(fmt_duration(86_400), "1d 0h");
    assert_eq!(fmt_duration(u64::MAX), "213503982334601d 7h");
}

#[test]
fn times_ago() {
    assert_eq!(fmt_ago_at(100, 160), "1m ago");
    assert_eq!(fmt_ago_at(160, 100), "0s ago");
    let now = now_epoch();
    assert!(now > 1_600_000_000);
    assert_eq!(fmt_ago(now + 1000), "0s ago");
    assert!(fmt_ago(now - 7200).starts_with("2h 0"));
}

#[test]
fn dates() {
    let s = fmt_epoch(1_788_675_272);
    assert_eq!(s.len(), 16);
    assert!(s.starts_with("2026-09-0"));
    assert_eq!(&s[4..5], "-");
    assert_eq!(&s[10..11], " ");
    assert_eq!(&s[13..14], ":");
    assert!(fmt_epoch(8_210_266_876_799).len() >= 16);
}
