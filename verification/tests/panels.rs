use archpkg::app::{Action, Level, PkgApp, Tools, View};
use archpkg::backend::Msg;
use archpkg::pacman::{parse_info, Package, Reason, Upgrade};
use archpkg::panels::{
    cell, confirm_card, keys_hint, level_tone, notice_word, package_blocks, package_buttons,
    package_readouts, Answer, Face, Measures, Tone,
};

fn tools() -> Tools {
    Tools {
        pacman: "/usr/bin/pacman".into(),
        paccache: "paccache".into(),
        helper: None,
        privilege: Some("/usr/bin/pkexec".into()),
    }
}

fn app() -> PkgApp {
    let mut app = PkgApp::with_context("0", true, false, None);
    let text = "Name : bash\nVersion : 5.3\nURL : https://example.org\nInstall Reason : Explicitly installed\n\nName : lib\nVersion : 1\nInstall Reason : Installed as a dependency for another package\n\n";
    app.poll(
        vec![
            Msg::Inventory(Ok(parse_info(text, true)), "12".into()),
            Msg::Check(Ok(vec![Upgrade {
                name: "bash".into(),
                current: "5.3".into(),
                new: "5.4".into(),
                aur: false,
            }])),
        ],
        "1",
        1000,
        &tools(),
    );
    app.rebuild_rows();
    app
}

fn measures() -> Measures {
    Measures {
        installed_size: Some("9.7 MiB".into()),
        download_size: None,
        popularity: "0.05".into(),
    }
}

#[test]
fn header_lamps() {
    let fresh = PkgApp::with_context("0", true, false, None);
    assert_eq!(fresh.lamps()[0].text, "PACMAN PROBING");
    let mut app = app();
    app.system.reboot_required = true;
    app.system.tray_running = true;
    app.backend.check();
    app.apply(
        Action::MarkExplicit("bash".into(), false),
        "2",
        &tools(),
    );
    let lamps = app.lamps();
    let texts: Vec<&str> = lamps.iter().map(|l| l.text.as_str()).collect();
    assert_eq!(
        texts,
        [
            "PACMAN OK",
            "REBOOT REQUIRED",
            "1 UPDATES",
            "CHECKING",
            "RUNNING mark",
            "TRAY"
        ]
    );
    assert_eq!(lamps[1].tone, Tone::Danger);
    assert!(lamps[4].busy && !lamps[5].busy);
}

#[test]
fn header_lines() {
    let mut app = app();
    assert_eq!(app.subtitle(), "pacman :: linux");
    app.system.aur_helper = Some("yay".into());
    app.system.kernel = "7.2.2".into();
    assert_eq!(app.subtitle(), "pacman + yay :: 7.2.2");
    assert_eq!(
        app.status_left("00:00:05", "60"),
        "00:00:05 :: 2 ROWS :: 1 OUTDATED :: 60 FPS :: INVENTORY 12 MS"
    );
}

#[test]
fn tabs_count_and_warn() {
    let app = app();
    let tabs = app.tabs(false);
    let labels: Vec<&str> = tabs.iter().map(|t| t.label.as_str()).collect();
    assert_eq!(
        labels,
        [
            "Installed  2",
            "Explicit  1",
            "Updates  1",
            "AUR  0",
            "Orphans  0",
            "Search  0"
        ]
    );
    assert_eq!(tabs[2].shortcut, "CTRL+3");
    assert!(tabs[2].dot && !tabs[4].dot && tabs[0].selected);
    assert_eq!(app.tabs(true)[5].shortcut, "CMD+6");
    assert_eq!(tabs[3].view, View::Foreign);
    assert_eq!(
        keys_hint(false),
        "CTRL+R REFRESH :: CTRL+U CHECK :: CTRL+1..6 VIEWS"
    );
}

#[test]
fn system_panel() {
    let mut app = app();
    assert_eq!(app.gauge(), (1, 2, Tone::Warn));
    app.system.cache_size = Some("1.3 GiB".into());
    app.system.cache_candidates = Some(4);
    app.system.privilege = Some("/usr/bin/pkexec".into());
    app.system.last_sync = Some(940);
    let r = app.system_readouts(" 12.0 MiB", 1000);
    let lines: Vec<(&str, &str)> = r.iter().map(|x| (x.label, x.value.as_str())).collect();
    assert_eq!(
        lines,
        [
            ("installed", " 12.0 MiB"),
            ("cache", "1.3 GiB :: 4 OLD"),
            ("orphans", "0"),
            ("db synced", "1M AGO"),
            ("checked", "0S AGO"),
            ("kernel", "--"),
            ("aur helper", "NONE"),
            ("privilege", "pkexec"),
            ("tray", "OFF"),
        ]
    );
    assert_eq!(r[2].tone, Some(Tone::Good));
    assert_eq!(r[4].tone, Some(Tone::Text));
    app.check_error = Some("x".into());
    app.system.privilege = None;
    let r = app.system_readouts_for("", None, None);
    assert_eq!(r[3].value, "--");
    assert_eq!(r[4].value, "NEVER");
    assert_eq!(r[4].tone, Some(Tone::Danger));
    assert_eq!(r[7].tone, Some(Tone::Danger));
    let g = app.gauge_readouts();
    assert_eq!(g[3].value, "1");
    assert_eq!(g[3].tone, Some(Tone::Warn));
    let b = app.system_buttons();
    assert!(b[0].enabled && !b[1].enabled);
    assert_eq!(b[1].label, "ORPHANS  0");
    let empty = PkgApp::with_context("0", true, false, None);
    assert_eq!(empty.gauge(), (0, 1, Tone::Good));
}

#[test]
fn nothing_starts_during_a_command() {
    let mut app = app();
    app.system.cache_size = Some("1".into());
    app.apply(
        Action::MarkExplicit("bash".into(), false),
        "2",
        &tools(),
    );
    assert!(app.system_buttons().iter().all(|b| !b.enabled));
    assert!(!app.toolbar()[2].enabled);
    let (_, change) = package_buttons(&app.packages[0], true);
    assert!(change.iter().all(|b| !b.enabled));
    assert_eq!(
        app.log_tag(),
        ("pkexec pacman -D --asdeps bash".to_string(), Tone::Warn)
    );
}

#[test]
fn toolbar_follows_the_view() {
    let mut app = app();
    assert_eq!(app.toolbar().len(), 3);
    assert_eq!(app.view_text(1000), "ALL INSTALLED PACKAGES");
    app.view = View::Updates;
    assert_eq!(app.view_text(1060), "CHECKED 1M AGO");
    app.check_error = Some("offline".into());
    assert_eq!(app.view_text(1060), "LAST CHECK FAILED :: offline");
    app.check_error = None;
    app.checked_at = None;
    assert_eq!(app.view_text(1060), "NOT CHECKED YET");
    app.view = View::Search;
    assert_eq!(app.view_text(1060), "");
    let t = app.toolbar();
    assert_eq!(t.len(), 4);
    assert_eq!(t[3].action, Action::Search);
    assert_eq!(app.listing_title(), "Search results");
}

#[test]
fn listing_cells() {
    let app = app();
    assert_eq!(app.listing_title(), "Installed");
    assert_eq!(app.listing_tag(), "2 items");
    let p = app.row_package(0).unwrap();
    assert_eq!(cell(p, 0, "").tone, Some(Tone::Text));
    assert_eq!(cell(p, 2, "").text, "5.4");
    let st = cell(p, 4, "");
    assert_eq!(
        (st.text.as_str(), st.face, st.tone),
        ("OUTDATED", Face::Tag, Some(Tone::Warn))
    );
    assert_eq!(cell(p, 5, "9.7 MiB").text, "9.7 MiB");
    assert_eq!(
        app.row_opened(0),
        Some(Action::Homepage("https://example.org".into()))
    );
    assert_eq!(app.row_opened(1), None);
    assert_eq!(app.row_opened(9), None);
    assert_eq!(app.inspector_tag(), "none");
}

#[test]
fn inspector_lines() {
    let mut p = Package::default();
    p.name = "x".into();
    p.version = "1".into();
    p.repo = "aur".into();
    p.packager = "Some One <a@b.c>".into();
    p.votes = Some(9);
    p.licenses = vec!["MIT".into(), "BSD".into()];
    p.out_of_date = true;
    let r = package_readouts(&p, &measures());
    let lines: Vec<(&str, &str)> = r.iter().map(|x| (x.label, x.value.as_str())).collect();
    assert_eq!(
        lines,
        [
            ("status", "AVAILABLE"),
            ("version", "1"),
            ("repo", "aur"),
            ("installed size", "9.7 MiB"),
            ("license", "MIT, BSD"),
            ("packager", "Some One"),
            ("votes", "9 :: 0.05"),
            ("aur flag", "OUT OF DATE"),
        ]
    );
    assert_eq!(r[7].tone, Some(Tone::Danger));
}

#[test]
fn inspector_lists_are_cut() {
    let mut p = Package::default();
    p.depends = vec!["a".into(), "b".into()];
    p.required_by = (0..42).map(|i| format!("p{i}")).collect();
    p.conflicts = vec!["c".into()];
    let b = package_blocks(&p);
    assert_eq!(b.len(), 3);
    assert_eq!((b[0].title.as_str(), b[0].text.as_str()), ("DEPENDS 2", "a  b"));
    assert_eq!(b[1].title, "REQUIRED BY 42");
    assert!(b[1].text.ends_with("p39  … +2"));
    assert_eq!(b[2].tone, Tone::Warn);
}

#[test]
fn inspector_buttons() {
    let labels = |p: &Package| {
        let (a, b) = package_buttons(p, false);
        a.into_iter()
            .chain(b)
            .map(|x| x.label)
            .collect::<Vec<String>>()
    };
    let mut p = Package::default();
    p.name = "x".into();
    p.repo = "extra".into();
    assert_eq!(labels(&p), ["HOMEPAGE", "COPY", "INSTALL"]);
    p.installed = true;
    p.reason = Reason::Explicit;
    assert_eq!(labels(&p), ["HOMEPAGE", "COPY", "AS DEP", "REMOVE"]);
    p.reason = Reason::Dependency;
    p.latest = Some("2".into());
    assert_eq!(
        labels(&p),
        ["HOMEPAGE", "COPY", "EXPLICIT", "UPGRADE ALL", "REMOVE"]
    );
    p.repo = "aur".into();
    assert_eq!(
        labels(&p),
        ["HOMEPAGE", "COPY", "PKGBUILD", "UPGRADE", "REMOVE"]
    );
}

#[test]
fn dialogs_are_answered() {
    let mut app = app();
    let none = Answer {
        close: false,
        enter: false,
        clicked: None,
    };
    let enter = Answer {
        enter: true,
        ..none
    };
    assert_eq!(app.dialog_action(enter), None);
    app.apply(Action::Remove("lib".into()), "1", &tools());
    assert_eq!(app.dialog_action(none), None);
    assert_eq!(app.dialog_action(enter), Some(Action::ConfirmDialog));
    let second = Answer {
        clicked: Some(1),
        ..none
    };
    assert_eq!(app.dialog_action(second), Some(Action::ConfirmDialog));
    let both = Answer {
        close: true,
        ..enter
    };
    assert_eq!(app.dialog_action(both), Some(Action::CloseDialog));
    if let Some(archpkg::app::OpenDialog {
        state: archpkg::app::DialogState::Confirm(c),
        ..
    }) = &app.dialog
    {
        let card = confirm_card(c);
        assert_eq!(card.program, "pkexec");
        assert_eq!(card.command, "$ pkexec pacman -Rns --noconfirm lib");
        assert_eq!(card.tone, Tone::Danger);
    }
    app.apply(Action::CloseDialog, "1", &tools());
    assert_eq!(app.dialog_action(enter), None);
    app.dialog_finished();
    app.fail("1", "X".into(), "y");
    app.next_notice();
    assert_eq!(app.dialog_action(none), None);
    assert_eq!(app.dialog_action(enter), Some(Action::CloseDialog));
    assert_eq!(
        app.dialog_action(Answer {
            clicked: Some(0),
            ..none
        }),
        Some(Action::CloseDialog)
    );
    assert_eq!(notice_word(true), ("Success", Tone::Good));
    assert_eq!(notice_word(false), ("Error", Tone::Danger));
    assert_eq!(level_tone(Level::Warn), Tone::Warn);
    assert_eq!(app.log_tag().1, Tone::Dim);
}
