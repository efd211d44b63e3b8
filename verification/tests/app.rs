use archpkg::app::{
    fallback_font, line_level, settings_line, status_of, Action, DialogState, Effect, Keys, Level,
    OpenDialog, PkgApp, StartUp, Status, Tools, View,
};
use archpkg::backend::{after_check, merge_search, system_info, Job, Msg};
use archpkg::instance::Request;
use archpkg::pacman::{
    check_all, info_aur, info_repo, installed, parse_info, search_aur, search_repo, Package, Reason,
    Upgrade,
};
use archpkg::panels::{package_buttons, Answer};
use archpkg::state::{load_from, to_text, CheckState};

const QI: &str = "Installed From  : core
Name            : bash
Version         : 5.3.15-2
Description     : The GNU Bourne Again shell
URL             : https://www.gnu.org/software/bash/bash.html
Installed Size  : 9.68 MiB
Install Reason  : Installed as a dependency for another package

Installed From  : extra
Name            : orphan-lib
Version         : 1.0-1
Description     : A library nothing needs
Installed Size  : 12.00 KiB
Install Reason  : Installed as a dependency for another package

Installed From  : extra
Name            : ripgrep
Version         : 15.2.0-1
Description     : A search tool
URL             : https://example.org/ripgrep
Installed Size  : 5.00 MiB
Install Reason  : Explicitly installed

Name            : visual-studio-code-bin
Version         : 1.136.0-1
Description     : Visual Studio Code (vscode): Editor
URL             : https://code.visualstudio.com/
Installed Size  : 400.00 MiB
Install Reason  : Explicitly installed

Name            : yay
Version         : 13.0.1-1
Description     : Yet another yogurt.
Installed Size  : 8.00 MiB
Install Reason  : Explicitly installed

";

fn tools() -> Tools {
    Tools {
        pacman: "/opt/fake-pacman.sh".into(),
        paccache: "paccache".into(),
        helper: Some("/opt/fake-yay.sh".into()),
        privilege: Some("/opt/fake-pkexec.sh".into()),
    }
}

fn bare_tools() -> Tools {
    Tools {
        pacman: "pacman".into(),
        paccache: "paccache".into(),
        helper: None,
        privilege: None,
    }
}

fn fresh() -> PkgApp {
    PkgApp::with_context("00:00:00", true, false, None)
}

fn inventory() -> Vec<Package> {
    installed(
        Ok(QI.into()),
        Ok("visual-studio-code-bin\nyay\n".into()),
        Ok("orphan-lib\n".into()),
        Ok("core bash 5.3.15-2 [installed]\n".into()),
        true,
    )
    .unwrap()
}

fn updates() -> Vec<Upgrade> {
    check_all(
        Ok("bash 5.3.15-2 -> 5.3.16-1\nripgrep 15.2.0-1 -> 15.3.0-1\n".into()),
        Some(Ok(
            "visual-studio-code-bin 1.136.0-1 -> 1.136.1-1\n".into()
        )),
    )
    .unwrap()
}

fn poll(app: &mut PkgApp, msgs: Vec<Msg>) -> Vec<Effect> {
    app.poll(msgs, "00:00:01", 1_788_675_272, &tools())
}

fn apply(app: &mut PkgApp, action: Action) -> Vec<Effect> {
    app.apply(action, "00:00:02", &tools())
}

/// The inventory and the check are in.
fn loaded() -> PkgApp {
    let mut app = fresh();
    assert!(app.backend.fetch_inventory());
    assert!(app.backend.check());
    poll(
        &mut app,
        vec![
            Msg::Inventory(Ok(inventory()), "3".into()),
            Msg::Check(Ok(updates())),
        ],
    );
    app.rebuild_rows();
    app
}

fn names(app: &PkgApp) -> Vec<&str> {
    app.rows
        .iter()
        .map(|&i| app.source()[i].name.as_str())
        .collect()
}

fn log_has(app: &PkgApp, needle: &str) -> bool {
    app.log.iter().any(|e| e.text.contains(needle))
}

fn confirm_job(app: &PkgApp) -> Job {
    match &app.dialog {
        Some(OpenDialog {
            state: DialogState::Confirm(c),
            ..
        }) => c.job.clone(),
        _ => panic!("no confirm dialog"),
    }
}

fn no_keys() -> Keys {
    Keys {
        command: false,
        comma: false,
        r: false,
        u: false,
        one: false,
        two: false,
        three: false,
        four: false,
        five: false,
        six: false,
        down: false,
        up: false,
        enter: false,
        backspace: false,
        focused: false,
    }
}

#[test]
fn status_precedence() {
    let mut p = Package::default();
    assert_eq!(status_of(&p), Status::Available);
    p.installed = true;
    p.reason = Reason::Explicit;
    assert_eq!(status_of(&p), Status::Explicit);
    p.reason = Reason::Dependency;
    assert_eq!(status_of(&p), Status::Dependency);
    p.orphan = true;
    assert_eq!(status_of(&p), Status::Orphan);
    p.latest = Some("2".into());
    assert_eq!(status_of(&p), Status::Outdated);
}

#[test]
fn injected_inventory_and_check_fill_the_views() {
    let mut app = fresh();
    let pkgs = parse_info(QI, true);
    poll(
        &mut app,
        vec![
            Msg::Inventory(Ok(pkgs), "3".into()),
            Msg::Check(Ok(vec![Upgrade {
                name: "ripgrep".into(),
                current: "15.2.0-1".into(),
                new: "15.3.0-1".into(),
                aur: false,
            }])),
        ],
    );
    app.rebuild_rows();
    assert_eq!(app.packages.len(), 5);
    assert_eq!(
        names(&app),
        vec![
            "bash",
            "orphan-lib",
            "ripgrep",
            "visual-studio-code-bin",
            "yay"
        ]
    );
    assert_eq!(app.count(View::Explicit), 3);
    assert_eq!(app.count(View::Updates), 1);
    assert!(app
        .packages
        .iter()
        .find(|p| p.name == "ripgrep")
        .unwrap()
        .outdated());
    apply(&mut app, Action::SetView(View::Updates));
    app.rebuild_rows();
    assert_eq!(names(&app), vec!["ripgrep"]);
    apply(&mut app, Action::SetView(View::Installed));
    app.filter = "code".into();
    app.rebuild_rows();
    assert_eq!(names(&app), vec!["visual-studio-code-bin"]);
}

#[test]
fn inventory_marks_foreign_and_orphans_and_the_check_writes_the_state_file() {
    let mut app = loaded();
    poll(
        &mut app,
        vec![Msg::System(system_info(
            ("7.2.2-1".into(), false),
            None,
            None,
            None,
            Some("/opt/fake-yay.sh".into()),
            Some("pkexec".into()),
            true,
            b"",
        ))],
    );
    let saved = after_check(CheckState::default(), &Ok(updates()), 1_788_675_272);
    let file = to_text(&saved);
    assert_eq!(app.packages.len(), 5);
    let yay = app.packages.iter().find(|p| p.name == "yay").unwrap();
    assert_eq!(yay.repo, "aur");
    assert!(
        app.packages
            .iter()
            .find(|p| p.name == "orphan-lib")
            .unwrap()
            .orphan
    );
    assert_eq!(app.count(View::Foreign), 2);
    assert_eq!(app.count(View::Orphans), 1);
    assert_eq!(app.updates.len(), 3);
    assert!(app
        .packages
        .iter()
        .find(|p| p.name == "visual-studio-code-bin")
        .unwrap()
        .outdated());
    let st = load_from(Some(file));
    assert_eq!(st.updates.len(), 3);
    assert!(st.checked_at.is_some());
    assert!(app
        .system
        .aur_helper
        .as_deref()
        .is_some_and(|h| h.contains("fake-yay")));
    assert!(log_has(&app, "3 updates"));
}

#[test]
fn search_merges_repo_and_aur_and_fetches_details_on_selection() {
    let mut app = loaded();
    apply(&mut app, Action::SetView(View::Search));
    app.search_query = "ripgrep".into();
    let fx = apply(&mut app, Action::Search);
    assert_eq!(fx, vec![Effect::Search("ripgrep".into())]);
    let repo = "extra/ripgrep 15.2.0-1 [installed]\n    A search tool\nextra/ripgrep-all 0.10.9-1\n    ripgrep, but also for PDFs\n";
    let aur = "aur/ripgrep-git 15.2.0.r1-1 (+9 0.05)\n    A search tool (git)\n";
    let result = merge_search(search_repo(Ok(repo.into())), search_aur(Some(Ok(aur.into()))));
    poll(
        &mut app,
        vec![Msg::Search {
            query: "ripgrep".into(),
            result,
        }],
    );
    app.rebuild_rows();
    let n = names(&app);
    assert_eq!(n, vec!["ripgrep", "ripgrep-all", "ripgrep-git"]);
    // the installed hit carries the inventory record
    let rg = app
        .search_results
        .iter()
        .find(|p| p.name == "ripgrep")
        .unwrap();
    assert!(rg.installed && rg.reason == Reason::Explicit);
    let git = app
        .search_results
        .iter()
        .find(|p| p.name == "ripgrep-git")
        .unwrap();
    assert!(git.is_aur() && !git.installed && git.votes == Some(9));
    // selecting a not-installed hit asks for -Si details
    let row = app
        .rows
        .iter()
        .position(|&i| app.search_results[i].name == "ripgrep-all")
        .unwrap();
    let fx = apply(&mut app, Action::Select(Some(row)));
    let Effect::Details { repo, aur } = &fx[0] else {
        panic!("no details asked for");
    };
    assert!(aur.is_empty());
    let si = "Repository : extra\nName : ripgrep-all\nVersion : 0.10.9-1\nURL : https://example.org/ripgrep-all\nDepends On : glibc  pcre2\n";
    let details = info_repo(repo, Ok(si.into()));
    poll(&mut app, vec![Msg::Details(details)]);
    let all = app
        .search_results
        .iter()
        .find(|p| p.name == "ripgrep-all")
        .unwrap();
    assert_eq!(all.url, "https://example.org/ripgrep-all");
    assert_eq!(all.depends, vec!["glibc", "pcre2"]);
    assert!(!all.installed);
    let row = app
        .rows
        .iter()
        .position(|&i| app.search_results[i].name == "ripgrep-git")
        .unwrap();
    let fx = apply(&mut app, Action::Select(Some(row)));
    let Effect::Details { aur, .. } = &fx[0] else {
        panic!("no details asked for");
    };
    let si = "Repository : aur\nName : ripgrep-git\nDepends On : glibc\n             pcre2\nMaintainer : someone\n";
    let details = info_aur(aur, Some(Ok(si.into())));
    poll(&mut app, vec![Msg::Details(details)]);
    let git = app
        .search_results
        .iter()
        .find(|p| p.name == "ripgrep-git")
        .unwrap();
    assert_eq!(git.maintainer, "someone");
    assert_eq!(git.depends.len(), 2, "continuation lines joined");
}

#[test]
fn start_up_select_and_upgrade_requests() {
    let mut app = fresh();
    app.start = StartUp {
        upgrade: true,
        select: Some("visual-studio-code-bin".into()),
    };
    app.updates = updates();
    poll(&mut app, vec![Msg::Inventory(Ok(inventory()), "3".into())]);
    assert_eq!(app.view, View::Updates);
    assert_eq!(
        app.selected_package().map(|p| p.name.as_str()),
        Some("visual-studio-code-bin")
    );
    assert!(matches!(
        app.dialog,
        Some(OpenDialog {
            state: DialogState::Confirm(_),
            ..
        })
    ));
}

#[test]
fn selecting_a_row_shows_the_inspector_and_remove_asks_first() {
    let mut app = loaded();
    let row = names(&app).iter().position(|n| *n == "orphan-lib").unwrap();
    apply(&mut app, Action::Select(Some(row)));
    assert_eq!(
        app.selected_package().map(|p| p.name.clone()).as_deref(),
        Some("orphan-lib")
    );
    let (_, mut change) = package_buttons(app.selected_package().unwrap(), false);
    let at = change.iter().position(|b| b.label == "REMOVE").unwrap();
    apply(&mut app, change.remove(at).action);
    assert!(matches!(
        app.dialog,
        Some(OpenDialog {
            state: DialogState::Confirm(_),
            closing: false
        })
    ));
    let cancel = app
        .dialog_action(Answer {
            close: false,
            enter: false,
            clicked: Some(0),
        })
        .unwrap();
    apply(&mut app, cancel);
    app.dialog_finished();
    assert!(app.dialog.is_none());
    assert!(app.backend.running().is_none());
}

#[test]
fn upgrade_all_runs_to_the_success_card() {
    let mut app = loaded();
    let mut toolbar = app.toolbar();
    let at = toolbar
        .iter()
        .position(|b| b.label == "UPGRADE ALL  3")
        .unwrap();
    assert!(toolbar[at].enabled);
    apply(&mut app, toolbar.remove(at).action);
    // Enter confirms the dialog; the command streams into the log and ends in a card
    let go = app
        .dialog_action(Answer {
            close: false,
            enter: true,
            clicked: None,
        })
        .unwrap();
    let fx = apply(&mut app, go);
    assert!(matches!(fx[0], Effect::Spawn(_)));
    assert!(app.backend.running().is_some());
    app.dialog_finished();
    let fx = poll(
        &mut app,
        vec![
            Msg::Line {
                text: ":: Starting full system upgrade...".into(),
                stderr: false,
            },
            Msg::Exit {
                label: "upgrade // all".into(),
                ok: true,
                code: Some(0),
                elapsed: "1.5".into(),
            },
        ],
    );
    assert_eq!(
        fx,
        vec![Effect::FetchInventory, Effect::FetchSystem, Effect::Check]
    );
    poll(&mut app, vec![Msg::Check(Ok(Vec::new()))]);
    app.next_notice();
    assert!(log_has(&app, "UPGRADE // ALL :: done"));
    assert!(log_has(&app, ":: Starting full system upgrade..."));
    assert!(matches!(
        app.dialog,
        Some(OpenDialog {
            state: DialogState::Notice { success: true, .. },
            ..
        })
    ));
    // Enter closes the card
    let close = app
        .dialog_action(Answer {
            close: false,
            enter: true,
            clicked: None,
        })
        .unwrap();
    assert_eq!(close, Action::CloseDialog);
    apply(&mut app, close);
    app.dialog_finished();
    app.next_notice();
    assert!(app.dialog.is_none());
    assert_eq!(app.outdated_count(), 0);
}

// ------------------------------------------------------------------ commands

#[test]
fn installing_asks_with_the_exact_command() {
    let mut app = loaded();
    let fx = apply(&mut app, Action::Install("ripgrep-all".into(), false));
    assert!(fx.is_empty());
    let job = confirm_job(&app);
    assert_eq!(job.label, "install // ripgrep-all");
    assert_eq!(job.program, "/opt/fake-pkexec.sh");
    assert_eq!(
        job.args,
        [
            "/opt/fake-pacman.sh",
            "-S",
            "--needed",
            "--noconfirm",
            "--ask",
            "4",
            "ripgrep-all"
        ]
    );
    apply(&mut app, Action::Install("ripgrep-git".into(), true));
    let job = confirm_job(&app);
    assert_eq!(job.program, "/opt/fake-yay.sh");
    assert_eq!(job.args[..3], ["-S", "ripgrep-git", "--noconfirm"]);
}

#[test]
fn removing_is_a_danger() {
    let mut app = loaded();
    apply(&mut app, Action::Remove("orphan-lib".into()));
    match &app.dialog {
        Some(OpenDialog {
            state: DialogState::Confirm(c),
            ..
        }) => {
            assert!(c.danger);
            assert_eq!(c.title, "Remove");
            assert_eq!(c.verb, "REMOVE");
            assert_eq!(c.job.args[1..], ["-Rns", "--noconfirm", "orphan-lib"]);
        }
        _ => panic!("no confirm"),
    }
}

#[test]
fn orphans_and_cache_are_cleaned_on_confirmation() {
    let mut app = loaded();
    apply(&mut app, Action::RemoveOrphans);
    assert_eq!(
        confirm_job(&app).args[1..],
        ["-Rns", "--noconfirm", "orphan-lib"]
    );
    apply(&mut app, Action::CloseDialog);
    app.dialog_finished();
    app.system.cache_size = Some("1.0 MiB".into());
    apply(&mut app, Action::CleanCache);
    let job = confirm_job(&app);
    assert_eq!(job.args, ["paccache", "-rk2"]);
    match &app.dialog {
        Some(OpenDialog {
            state: DialogState::Confirm(c),
            ..
        }) => assert_eq!(c.line, "1.0 MiB in /var/cache/pacman/pkg"),
        _ => panic!("no confirm"),
    }
    // nothing to remove, nothing asked
    let mut app = fresh();
    apply(&mut app, Action::RemoveOrphans);
    assert!(app.dialog.is_none());
}

#[test]
fn upgrading_everything_uses_the_helper_or_pacman() {
    let mut app = loaded();
    apply(&mut app, Action::UpgradeAll);
    let job = confirm_job(&app);
    assert_eq!(job.program, "/opt/fake-yay.sh");
    assert_eq!(job.args[..2], ["-Syu", "--noconfirm"]);
    let mut t = tools();
    t.helper = None;
    app.apply(Action::UpgradeAll, "1", &t);
    let job = confirm_job(&app);
    assert_eq!(job.program, "/opt/fake-pkexec.sh");
    assert_eq!(
        job.args,
        ["/opt/fake-pacman.sh", "-Syu", "--noconfirm", "--ask", "4"]
    );
    match &app.dialog {
        Some(OpenDialog {
            state: DialogState::Confirm(c),
            ..
        }) => assert_eq!(c.line, "3 packages (2 repo, 1 aur)"),
        _ => panic!("no confirm"),
    }
}

#[test]
fn without_polkit_nothing_is_asked() {
    let mut app = loaded();
    app.apply(Action::Remove("bash".into()), "1", &bare_tools());
    assert!(app.dialog.is_none());
    assert_eq!(app.notice_queue, vec![(false, "REMOVE // BASH".to_string())]);
    assert!(log_has(&app, "pkexec not found"));
    app.apply(Action::UpgradeAur("yay".into()), "1", &bare_tools());
    assert!(log_has(&app, "no AUR helper installed"));
    app.apply(Action::UpgradeAll, "1", &bare_tools());
    assert_eq!(app.notice_queue[2], (false, "UPGRADE // ALL".to_string()));
}

#[test]
fn marking_runs_at_once() {
    let mut app = loaded();
    let fx = apply(&mut app, Action::MarkExplicit("bash".into(), true));
    let Effect::Spawn(job) = &fx[0] else {
        panic!("nothing started");
    };
    assert_eq!(job.args[1..], ["-D", "--asexplicit", "bash"]);
    assert!(app.log_open);
    assert!(log_has(&app, "$ fake-pkexec.sh fake-pacman.sh -D --asexplicit bash"));
    // one command at a time
    let fx = apply(&mut app, Action::MarkExplicit("yay".into(), false));
    assert!(fx.is_empty());
    assert_eq!(app.notice_queue, vec![(false, "MARK // YAY".to_string())]);
    assert!(log_has(&app, "another command is still running"));
}

#[test]
fn a_confirmation_counts_once() {
    let mut app = loaded();
    apply(&mut app, Action::Remove("orphan-lib".into()));
    assert_eq!(apply(&mut app, Action::ConfirmDialog).len(), 1);
    assert!(apply(&mut app, Action::ConfirmDialog).is_empty());
    let mut app = loaded();
    apply(&mut app, Action::Remove("orphan-lib".into()));
    apply(&mut app, Action::CloseDialog);
    assert!(apply(&mut app, Action::ConfirmDialog).is_empty());
    assert!(app.backend.running().is_none());
}

#[test]
fn exits_are_told_apart() {
    for (code, detail) in [
        (Some(126), "authentication dismissed"),
        (Some(127), "not authorised (polkit) or command not found"),
        (Some(-1), "exit code -1"),
        (None, "terminated"),
    ] {
        let mut app = loaded();
        poll(
            &mut app,
            vec![Msg::Exit {
                label: "remove // x".into(),
                ok: false,
                code,
                elapsed: "0.1".into(),
            }],
        );
        assert!(log_has(&app, &format!("REMOVE // X :: failed :: {detail}")));
        assert_eq!(app.notice_queue, vec![(false, "REMOVE // X".to_string())]);
    }
}

#[test]
fn failures_keep_what_is_known() {
    let mut app = loaded();
    poll(&mut app, vec![Msg::Check(Err("no network".into()))]);
    assert_eq!(app.updates.len(), 3);
    assert_eq!(app.check_error.as_deref(), Some("no network"));
    assert_eq!(app.checked_at, Some(1_788_675_272));
    poll(&mut app, vec![Msg::Inventory(Err("broken".into()), "1".into())]);
    assert_eq!(app.packages.len(), 5);
    assert!(log_has(&app, "INVENTORY // PACMAN :: failed :: broken"));
    poll(
        &mut app,
        vec![
            Msg::Search {
                query: "zsh".into(),
                result: Err("offline".into()),
            },
            Msg::Details(Err("offline".into())),
        ],
    );
    assert!(log_has(&app, "SEARCH // ZSH :: failed :: offline"));
    assert!(log_has(&app, "details :: failed :: offline"));
}

// ------------------------------------------------------------------ the log

#[test]
fn output_is_graded() {
    let level = |t: &str| line_level(t, &t.to_lowercase());
    assert_eq!(level("ERROR: no"), Level::Danger);
    assert_eq!(level("x: error: no"), Level::Danger);
    assert_eq!(level("an error"), Level::Info);
    assert_eq!(level("Warning: hm"), Level::Warn);
    assert_eq!(level(":: Synchronizing"), Level::Good);
    assert_eq!(level("==> Making package"), Level::Good);
    assert_eq!(level("plain"), Level::Info);
    // through the console: the capitals do not matter
    let mut app = loaded();
    poll(
        &mut app,
        vec![Msg::Line {
            text: "ERROR: failed".into(),
            stderr: true,
        }],
    );
    assert_eq!(app.log.last().unwrap().level, Level::Danger);
}

#[test]
fn the_log_is_cut() {
    let mut app = fresh();
    for i in 0..3000 {
        app.push_log("t", format!("line {i}"), Level::Info);
    }
    assert_eq!(app.log.len(), 2001);
    assert_eq!(app.log[0].text, "line 999");
    assert_eq!(app.log[2000].text, "line 2999");
    assert_eq!(app.log[2000].time, "[t]");
}

// ------------------------------------------------------------------ the listing

#[test]
fn the_listing_is_sorted_by_column() {
    let mut app = loaded();
    app.table.sort_col = 4;
    app.rebuild_rows();
    assert_eq!(
        names(&app),
        vec![
            "bash",
            "ripgrep",
            "visual-studio-code-bin",
            "orphan-lib",
            "yay"
        ]
    );
    app.table.sort_col = 0;
    app.table.sort_desc = true;
    app.rebuild_rows();
    assert_eq!(
        names(&app),
        vec![
            "yay",
            "visual-studio-code-bin",
            "ripgrep",
            "orphan-lib",
            "bash"
        ]
    );
    app.table.sort_col = 5;
    app.table.sort_desc = false;
    for (p, r) in app.packages.iter_mut().zip([968, 12, 500, 40_000, 800]) {
        p.size_rank = r;
    }
    app.rebuild_rows();
    assert_eq!(
        names(&app),
        vec![
            "orphan-lib",
            "ripgrep",
            "yay",
            "bash",
            "visual-studio-code-bin"
        ]
    );
}

#[test]
fn the_selection_stays_on_its_package() {
    let mut app = loaded();
    app.table.selected = Some(2);
    assert_eq!(app.selected_package().unwrap().name, "ripgrep");
    app.set_filter("RIP".into());
    app.rebuild_rows();
    assert_eq!(names(&app), vec!["ripgrep"]);
    assert_eq!(app.table.selected, Some(0));
    app.set_filter("zzz".into());
    app.rebuild_rows();
    assert_eq!(app.table.selected, None);
}

#[test]
fn search_keeps_the_first_of_a_name() {
    let app = fresh();
    let hits = search_repo(Ok(
        "cachyos-v3/zsh 5.9-2\n    A shell\nextra/zsh 5.9-1\n    A shell\n".into(),
    ))
    .unwrap();
    let pkgs = app.hits_to_packages(&hits);
    assert_eq!(pkgs.len(), 1);
    assert_eq!(pkgs[0].repo, "cachyos-v3");
    assert!(!pkgs[0].installed);
}

#[test]
fn short_searches_are_ignored() {
    let mut app = fresh();
    app.search_query = " a ".into();
    assert!(apply(&mut app, Action::Search).is_empty());
    app.search_query = " ab ".into();
    assert_eq!(
        apply(&mut app, Action::Search),
        vec![Effect::Search("ab".into())]
    );
    // two bytes are enough
    app.search_query = "é".into();
    assert_eq!(
        apply(&mut app, Action::Search),
        vec![Effect::Search("é".into())]
    );
}

// ------------------------------------------------------------------ keys, requests, dialogs

#[test]
fn keys_move_and_act() {
    let mut app = loaded();
    let down = Keys {
        down: true,
        ..no_keys()
    };
    assert_eq!(app.handle_keys(down), vec![Action::Select(Some(0))]);
    app.table.selected = Some(4);
    assert_eq!(app.handle_keys(down), vec![Action::Select(Some(4))]);
    let up = Keys {
        up: true,
        ..no_keys()
    };
    assert_eq!(app.handle_keys(up), vec![Action::Select(Some(3))]);
    app.table.selected = Some(2);
    let k = Keys {
        command: true,
        three: true,
        enter: true,
        backspace: true,
        ..no_keys()
    };
    assert_eq!(
        app.handle_keys(k),
        vec![
            Action::SetView(View::Updates),
            Action::Homepage("https://example.org/ripgrep".into()),
            Action::Remove("ripgrep".into())
        ]
    );
    let k = Keys { focused: true, ..k };
    assert_eq!(app.handle_keys(k), vec![Action::SetView(View::Updates)]);
    apply(&mut app, Action::Remove("bash".into()));
    assert!(app.handle_keys(k).is_empty());
}

#[test]
fn later_launches_are_obeyed() {
    let mut app = loaded();
    let fx = app.poll_instance(
        &vec![Request::Select("yay".into()), Request::Upgrade],
        &tools(),
    );
    assert_eq!(fx, vec![Effect::FocusWindow]);
    assert_eq!(app.view, View::Installed);
    assert_eq!(app.selected_package().unwrap().name, "yay");
    assert_eq!(confirm_job(&app).label, "upgrade // all");
    // an open dialog is not interrupted
    apply(&mut app, Action::Remove("bash".into()));
    app.poll_instance(&vec![Request::Upgrade], &tools());
    assert_eq!(confirm_job(&app).label, "remove // bash");
    assert!(!app.start.upgrade);
    assert!(app.poll_instance(&Vec::new(), &tools()).is_empty());
    // before the inventory the request waits
    let mut app = fresh();
    app.poll_instance(&vec![Request::Upgrade], &tools());
    assert!(app.start.upgrade);
    assert!(app.dialog.is_none());
}

#[test]
fn pages_and_names() {
    let mut app = loaded();
    assert_eq!(
        apply(&mut app, Action::Pkgbuild("yay".into())),
        vec![Effect::OpenUrl(
            "https://aur.archlinux.org/cgit/aur.git/tree/PKGBUILD?h=yay".into()
        )]
    );
    assert_eq!(
        apply(&mut app, Action::CopyName("yay".into())),
        vec![Effect::CopyText("yay".into())]
    );
    app.open_failed("1", "no browser");
    assert_eq!(
        app.notice_queue,
        vec![(false, "OPEN // HOMEPAGE".to_string())]
    );
    assert_eq!(
        apply(&mut app, Action::OpenSettings),
        vec![Effect::OpenSettings]
    );
}

#[test]
fn notices_wait_for_the_dialog() {
    let mut app = loaded();
    app.fail("1", "A".into(), "x");
    app.succeed("1", "B".into(), "y");
    assert!(log_has(&app, "A :: failed :: x"));
    assert!(log_has(&app, "B :: y"));
    app.next_notice();
    app.next_notice();
    assert_eq!(app.notice_queue.len(), 1);
    app.dialog_finished();
    app.next_notice();
    assert!(matches!(
        app.dialog,
        Some(OpenDialog {
            state: DialogState::Notice { success: true, .. },
            closing: false
        })
    ));
}

#[test]
fn the_start_shows_the_saved_check() {
    let saved = CheckState {
        checked_at: Some(7),
        updates: updates(),
        error: None,
    };
    let start = StartUp::from_args(&["--select".to_string(), "yay".to_string()]);
    assert_eq!(start.select.as_deref(), Some("yay"));
    let (app, fx) = PkgApp::new("0", false, true, Some("hello".into()), start, saved);
    assert_eq!(
        fx,
        vec![Effect::FetchInventory, Effect::FetchSystem, Effect::Check]
    );
    assert_eq!(app.outdated_count(), 3);
    assert_eq!(app.checked_at, Some(7));
    assert_eq!(app.log.len(), 3);
    assert!(app.backend.busy());
}

#[test]
fn the_agent_reads_the_state() {
    let mut app = loaded();
    app.table.selected = Some(2);
    app.filter = "a\"b".into();
    apply(&mut app, Action::Remove("ripgrep".into()));
    let s = app.agent_state();
    assert!(s.starts_with(
        "view: INSTALLED :: rows: 5 :: filter: \"a\\\"b\" :: pending updates: 3\n"
    ));
    assert!(s.contains("selected: ripgrep 15.2.0-1 (extra) :: OUTDATED -> 15.3.0-1\n"));
    assert!(s.contains("dialog: CONFIRM REMOVE :: ripgrep :: fake-pkexec.sh fake-pacman.sh -Rns --noconfirm ripgrep :: buttons CANCEL / REMOVE\n"));
    assert_eq!(app.agent_blocked(false), vec!["REMOVE"]);
    assert!(app.agent_blocked(true).is_empty());
}

#[test]
fn small_texts() {
    assert_eq!(
        settings_line("cyan", true, false, true, true, true),
        "settings // palette cyan :: chamfer :: normal :: translucent :: agent on (may confirm)"
    );
    assert_eq!(
        settings_line("amber", false, true, false, false, true),
        "settings // palette amber :: square :: compact :: opaque :: agent off"
    );
    assert_eq!(
        fallback_font(b"/usr/share/fonts/a.ttc\n 3 \n"),
        Some(("/usr/share/fonts/a.ttc".to_string(), 3))
    );
    assert_eq!(fallback_font(b"/a.ttf"), Some(("/a.ttf".to_string(), 0)));
    assert_eq!(fallback_font(b""), None);
    let mut app = loaded();
    assert_eq!(
        app.dev_dialog_state("remove"),
        vec![Action::Select(Some(0)), Action::Remove("bash".into())]
    );
}

#[test]
fn frames_start_with_rows_that_fit() {
    let mut app = fresh();
    app.fail("0", "X".into(), "y");
    let fx = app.begin_frame(
        &vec![Request::Show],
        vec![
            Msg::Inventory(Ok(inventory()), "3".into()),
            Msg::Check(Ok(updates())),
        ],
        "1",
        1000,
        &tools(),
    );
    assert_eq!(fx, vec![Effect::FocusWindow]);
    assert!(!app.dirty);
    assert_eq!(names(&app).len(), 5);
    assert!(matches!(
        app.dialog,
        Some(OpenDialog {
            state: DialogState::Notice { success: false, .. },
            ..
        })
    ));
    // the inventory shrinks: the rows follow
    app.begin_frame(
        &Vec::new(),
        vec![Msg::Inventory(Ok(Vec::new()), "1".into())],
        "2",
        1001,
        &tools(),
    );
    assert!(app.rows.is_empty());
    app.set_filter("x".into());
    app.refresh_rows();
    assert!(!app.dirty);
}

#[test]
fn what_workers_report_starts_nothing() {
    let mut app = loaded();
    app.start.upgrade = true;
    let fx = poll(
        &mut app,
        vec![
            Msg::Inventory(Ok(inventory()), "3".into()),
            Msg::Exit {
                label: "a".into(),
                ok: true,
                code: Some(0),
                elapsed: "1".into(),
            },
        ],
    );
    assert!(!fx.iter().any(|e| matches!(e, Effect::Spawn(_))));
    assert_eq!(confirm_job(&app).label, "upgrade // all");
}

#[test]
fn requests_do_not_interrupt() {
    let mut app = loaded();
    apply(&mut app, Action::Remove("bash".into()));
    apply(&mut app, Action::ConfirmDialog);
    app.dialog_finished();
    app.poll_instance(
        &vec![Request::Upgrade, Request::Select("yay".into())],
        &tools(),
    );
    assert!(app.dialog.is_none());
    assert_eq!(app.backend.running().unwrap().label, "remove // bash");
    assert_eq!(app.selected_package().unwrap().name, "yay");
}
