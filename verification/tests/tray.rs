use archpkg::state::{load_from, to_text, CheckState};
use archpkg::tray::{
    action_args, gui_beside, gui_binary, lock_path, notification, IconKind, MenuItem, Tray,
    TrayAction, TrayArgs,
};
use archpkg::Upgrade;

fn up(name: &str, aur: bool) -> Upgrade {
    Upgrade {
        name: name.into(),
        current: "1".into(),
        new: "2".into(),
        aur,
    }
}

fn tray(updates: Vec<Upgrade>) -> Tray {
    Tray {
        state: CheckState {
            checked_at: Some(1000),
            updates,
            error: None,
        },
        checking: false,
    }
}

fn labels(t: &Tray, left: Option<u64>) -> Vec<String> {
    t.menu(1060, left)
        .iter()
        .map(|m| match m {
            MenuItem::Standard(e) => e.label.clone(),
            MenuItem::SubMenu { label, items } => format!("{label} > {}", items.len()),
            MenuItem::Separator => "--".into(),
        })
        .collect()
}

fn args(a: &[&str]) -> Vec<String> {
    a.iter().map(|s| s.to_string()).collect()
}

#[test]
fn summaries_and_icons() {
    let mut t = tray(Vec::new());
    assert_eq!(t.summary(), "System is up to date");
    assert_eq!(t.icon_kind(), IconKind::Current);
    t.state.error = Some("offline".into());
    assert_eq!(t.summary(), "Check failed: offline");
    assert_eq!(t.icon_kind(), IconKind::Error);
    t.state.updates = vec![up("a", false)];
    assert_eq!(t.summary(), "1 update available");
    assert_eq!(t.icon_kind(), IconKind::Updates);
    t.state.updates.push(up("b", true));
    assert_eq!(t.summary(), "2 updates available");
    t.checking = true;
    assert_eq!(t.icon_kind(), IconKind::Checking);
    assert_eq!(t.tool_tip(1060), "2 updates available\nLast check 1m ago");
    assert_eq!(IconKind::Updates.colour(), (0xFF, 0xAA, 0x28));
    assert_eq!(IconKind::Current.colour(), (0x00, 0xE5, 0xFF));
    assert_eq!(IconKind::Checking.colour(), (0x5A, 0x8C, 0x9B));
    assert_eq!(IconKind::Error.colour(), (0xFF, 0x46, 0x5A));
}

#[test]
fn menu_of_an_idle_tray() {
    let t = tray(Vec::new());
    assert_eq!(
        labels(&t, Some(3599)),
        [
            "System is up to date",
            "--",
            "Last check 1m ago",
            "Next check in 59m",
            "--",
            "Open FUIDE Arch-Update",
            "Upgrade now…",
            "Check for updates",
            "--",
            "Quit"
        ]
    );
}

#[test]
fn menu_lists_updates() {
    let mut list: Vec<Upgrade> = (0..27).map(|i| up(&format!("p{i}"), false)).collect();
    list.push(up("yay", true));
    let mut t = tray(list);
    t.checking = true;
    let l = labels(&t, Some(10));
    assert_eq!(l[0], "28 updates available");
    assert_eq!(l[1], "Repositories (27) > 26");
    assert_eq!(l[2], "AUR (1) > 1");
    assert_eq!(l[5], "Checking…");
    let menu = t.menu(1060, None);
    let MenuItem::SubMenu { items, .. } = &menu[1] else {
        panic!("no list");
    };
    assert_eq!(items[0].label, "p0  1 → 2");
    assert_eq!(
        items[0].action,
        TrayAction::OpenGui(args(&["--select", "p0"]))
    );
    assert_eq!(items[25].label, "… 2 more");
    assert!(!items[25].enabled && items[24].enabled);
    let MenuItem::Standard(check) = &menu[9] else {
        panic!("no entry");
    };
    assert_eq!(check.action, TrayAction::Check);
    assert!(!check.enabled);
    let MenuItem::Standard(upgrade) = &menu[8] else {
        panic!("no entry");
    };
    assert_eq!(upgrade.action, TrayAction::OpenGui(args(&["--upgrade"])));
    assert!(upgrade.enabled);
    let MenuItem::Standard(quit) = &menu[11] else {
        panic!("no entry");
    };
    assert_eq!(quit.action, TrayAction::Quit);
}

#[test]
fn only_new_updates_are_notified() {
    let mut t = tray(vec![up("a", false)]);
    t.begin_check();
    assert!(t.checking);
    // the file is not re-read in the middle of a check
    t.reload(CheckState::default());
    assert_eq!(t.count(), 1);
    let (saved, fresh) = t.end_check(
        CheckState::default(),
        &Ok(vec![up("a", false), up("b", false)]),
        5,
    );
    assert_eq!(fresh, ["b"]);
    assert_eq!(saved.checked_at, Some(5));
    assert!(!t.checking);
    assert_eq!(
        notification(t.count(), &fresh),
        Some(("2 updates available".to_string(), "b".to_string()))
    );
    t.begin_check();
    let (_, fresh) = t.end_check(saved, &Err("offline".into()), 6);
    assert!(fresh.is_empty());
    assert_eq!(t.count(), 2);
    assert_eq!(t.state.error.as_deref(), Some("offline"));
    assert_eq!(notification(2, &fresh), None);
    t.reload(CheckState::default());
    assert_eq!(t.count(), 0);
}

#[test]
fn notification_is_cut() {
    let fresh: Vec<String> = (0..8).map(|i| format!("p{i}")).collect();
    assert_eq!(
        notification(1, &fresh),
        Some((
            "1 update available".to_string(),
            "p0, p1, p2, p3, p4, p5 … (+2)".to_string()
        ))
    );
    assert_eq!(action_args("open"), Some(Vec::new()));
    assert_eq!(action_args("default"), Some(Vec::new()));
    assert_eq!(action_args("upgrade"), Some(args(&["--upgrade"])));
    assert_eq!(action_args("__closed"), None);
}

#[test]
fn command_line() {
    let a = TrayArgs::parse(&Vec::new());
    assert_eq!((a.interval, a.initial_check, a.version), (3600, true, false));
    assert_eq!(a.first_delay(), 20);
    let a = TrayArgs::parse(&args(&["--interval", "300", "--no-initial-check", "-x"]));
    assert_eq!((a.interval, a.initial_check), (300, false));
    assert_eq!(a.unknown, ["-x"]);
    assert_eq!(a.first_delay(), 300);
    assert_eq!(TrayArgs::parse(&args(&["--interval", "5"])).interval, 60);
    assert_eq!(TrayArgs::parse(&args(&["--interval", "x"])).interval, 3600);
    assert_eq!(TrayArgs::parse(&args(&["--interval"])).interval, 3600);
    let a = TrayArgs::parse(&args(&["-V", "--no-initial-check"]));
    assert!(a.version && a.initial_check);
}

#[test]
fn files() {
    assert_eq!(gui_beside("/usr/bin"), "/usr/bin/fuide-arch-update");
    assert_eq!(gui_binary(Some("/x/y")), "/x/y");
    assert_eq!(gui_binary(None), "fuide-arch-update");
    assert_eq!(
        lock_path(Some("/run/user/1000"), "/tmp"),
        "/run/user/1000/fuide-arch-update-tray.lock"
    );
    assert_eq!(lock_path(None, "/tmp"), "/tmp/fuide-arch-update-tray.lock");
}

#[test]
fn what_is_saved_is_shown() {
    let saved = tray(vec![up("a", true)]).state;
    let mut t = tray(Vec::new());
    t.reload(load_from(Some(to_text(&saved))));
    assert_eq!(t.icon_kind(), IconKind::Updates);
    assert_eq!(t.state, saved);
}
