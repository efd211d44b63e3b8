use archpkg::state::{load_from, parse, state_dir, state_file, tmp_name, to_text, CheckState};
use archpkg::Upgrade;

#[test]
fn round_trip() {
    let s = CheckState {
        updates: vec![
            Upgrade {
                name: "bash".into(),
                current: "5.3-1".into(),
                new: "5.3-2".into(),
                aur: false,
            },
            Upgrade {
                name: "yay".into(),
                current: "13.0.0-1".into(),
                new: "13.0.1-1".into(),
                aur: true,
            },
        ],
        checked_at: Some(1_788_675_272),
        error: None,
    };
    assert_eq!(parse(&to_text(&s)), s);
    let e = CheckState {
        error: Some("network\ndown".into()),
        ..Default::default()
    };
    assert_eq!(parse(&to_text(&e)).error.as_deref(), Some("network down"));
    assert_eq!(parse("garbage\n\n"), CheckState::default());
}

#[test]
fn lines_that_are_not_understood_are_skipped() {
    let s = parse("# a comment\nchecked_at=x\nupdate=a 1 2\nerror=\n");
    assert_eq!(s.checked_at, None);
    assert_eq!(load_from(None), CheckState::default());
    assert_eq!(load_from(Some("checked_at=5\n".into())).checked_at, Some(5));
}

#[test]
fn places_of_the_state() {
    assert_eq!(
        state_dir(None, None, Some("/home/u".into())),
        "/home/u/.local/state/fuide-arch-update"
    );
    assert_eq!(
        state_dir(None, Some("/s".into()), Some("/home/u".into())),
        "/s/fuide-arch-update"
    );
    assert_eq!(state_dir(Some("/x".into()), Some("/s".into()), None), "/x");
    assert_eq!(
        state_dir(None, None, None),
        "/.local/state/fuide-arch-update"
    );
    assert_eq!(state_file("/x"), "/x/check");
    assert_eq!(tmp_name("check", 42), ".check.tmp-42");
}
