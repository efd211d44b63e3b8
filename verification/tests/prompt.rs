use archpkg::prompt::{clean, detect, Prompt};

fn d(cursor: &str) -> Option<Prompt> {
    detect(&[], cursor)
}

#[test]
fn yes_no_with_defaults() {
    assert_eq!(
        d("-> Proceed with update? [Y/n] "),
        Some(Prompt::YesNo {
            text: "Proceed with update?".into(),
            default_yes: true
        })
    );
    assert_eq!(
        d("-> Would you like to reboot now? [y/N]"),
        Some(Prompt::YesNo {
            text: "Would you like to reboot now?".into(),
            default_yes: false
        })
    );
    // pacman and paru
    assert!(matches!(
        d(":: Proceed with installation? [Y/n]"),
        Some(Prompt::YesNo {
            default_yes: true,
            ..
        })
    ));
    assert!(matches!(
        d(":: Proceed to review? [Y/n]:"),
        Some(Prompt::YesNo {
            default_yes: true,
            ..
        })
    ));
}

#[test]
fn titles_and_verbs() {
    let p = d("-> Proceed with update? [Y/n] ").unwrap();
    assert_eq!(p.title(), "PROCEED WITH UPDATE");
    assert_eq!(p.verb(), "UPDATE");
    let p = d("-> Would you like to reboot now? [y/N]").unwrap();
    assert_eq!(p.verb(), "REBOOT NOW");
    assert!(p.dangerous());
    let p = d("-> Would you like to remove these orphan packages (and their potential dependencies) now? [y/N]").unwrap();
    assert_eq!(p.title(), "ORPHAN PACKAGES");
    assert_eq!(p.verb(), "REMOVE");
}

#[test]
fn passwords() {
    assert_eq!(
        d("[sudo] password for kobago: "),
        Some(Prompt::Password {
            text: "[sudo] password for kobago:".into()
        })
    );
    assert!(matches!(d("Password: "), Some(Prompt::Password { .. })));
    assert!(matches!(
        d("doas (kobago@box) password:"),
        Some(Prompt::Password { .. })
    ));
    assert!(matches!(
        d("[sudo: authenticate] Password:"),
        Some(Prompt::Password { .. })
    ));
}

#[test]
fn press_enter() {
    assert_eq!(
        d("==> Press \"enter\" to quit "),
        Some(Prompt::Continue {
            text: "Press \"enter\" to quit".into(),
            quit: true
        })
    );
    assert!(matches!(
        d("==> Press \"enter\" to continue "),
        Some(Prompt::Continue { quit: false, .. })
    ));
}

#[test]
fn numbered_selection_collects_items() {
    let above: Vec<String> = [
        "==> Services:",
        "The following services require a post upgrade restart",
        "",
        "1 - systemd-journald.service",
        "2 - dbus-broker.service",
        "",
    ]
    .iter()
    .map(|s| s.to_string())
    .collect();
    let p = detect(&above, "-> Select the service(s) to restart (e.g. 1 3 5), select 0 to restart them all or press \"enter\" to continue without restarting the service(s): ").unwrap();
    match p {
        Prompt::Select {
            items,
            all_label,
            enter_label,
            ..
        } => {
            assert_eq!(
                items,
                vec!["systemd-journald.service", "dbus-broker.service"]
            );
            assert_eq!(all_label, "RESTART ALL");
            assert_eq!(enter_label, "SKIP");
        }
        other => panic!("{other:?}"),
    }
    let above: Vec<String> = ["==> Arch News:", "1 - Something [NEW]", "2 - Other", ""]
        .iter()
        .map(|s| s.to_string())
        .collect();
    let p = detect(&above, "-> Select the news to read (e.g. 1 3 5), select 0 to read them all or press \"enter\" to proceed with update: ").unwrap();
    match p {
        Prompt::Select {
            items,
            all_label,
            enter_label,
            ..
        } => {
            assert_eq!(items.len(), 2);
            assert_eq!(all_label, "READ ALL");
            assert_eq!(enter_label, "PROCEED WITH UPDATE");
        }
        other => panic!("{other:?}"),
    }
}

#[test]
fn selection_after_invalid_input_still_finds_the_list() {
    let above: Vec<String> = [
        "1 - a.service",
        "2 - b.service",
        "",
        "==> WARNING: Invalid input",
        "",
    ]
    .iter()
    .map(|s| s.to_string())
    .collect();
    let p = detect(&above, "-> Select the service(s) to restart (e.g. 1 3 5), select 0 to restart them all or press \"enter\" to continue without restarting the service(s):").unwrap();
    assert!(matches!(p, Prompt::Select { ref items, .. } if items.len() == 2));
}

#[test]
fn pacman_input_prompts() {
    assert_eq!(
        d("Enter a selection (default=all): "),
        Some(Prompt::Input {
            text: "Enter a selection (default=all):".into(),
            default: "all".into()
        })
    );
    assert!(matches!(
        d(":: Packages to exclude (eg: \"1 2 3\", \"1-3\", \"^4\" or repo name):"),
        Some(Prompt::Input { .. })
    ));
}

#[test]
fn yay_prompts() {
    let p = d("==> Diffs to show? [N]one [A]ll [Ab]ort [I]nstalled [No]tInstalled or (1 2 3, 1-3, ^4) ").unwrap();
    assert!(matches!(p, Prompt::Input { .. }), "{p:?}");
    let p = d("==> Proceed to review? [Y/n]:").unwrap();
    assert_eq!(p.title(), "AUR HELPER");
    let p = d(":: Proceed with installation? [Y/n] ").unwrap();
    assert_eq!(p.title(), "PACMAN");
    assert_eq!(p.verb(), "INSTALL");
    let p = d(":: Do you want to remove these packages? [Y/n] ").unwrap();
    assert_eq!(p.title(), "PACMAN");
    assert!(matches!(
        d("[sudo] kobago のパスワード: "),
        Some(Prompt::Password { .. })
    ));
}

#[test]
fn plain_output_is_not_a_prompt() {
    assert_eq!(d(""), None);
    assert_eq!(d("==> Looking for updates..."), None);
    assert_eq!(d("linux-cachyos 7.2.1-1 -> 7.2.2-1"), None);
    assert_eq!(d("Total Download Size:   12.34 MiB"), None);
}

#[test]
fn blank_lines_ask_nothing() {
    assert_eq!(d(""), None);
    assert_eq!(d("   "), None);
}

#[test]
fn cleaning_strips_prefixes_and_the_tail() {
    assert_eq!(clean("==> -> :: Proceed? [Y/n] "), "Proceed?");
    assert_eq!(clean(":: Proceed to review? [y/N]: "), "Proceed to review?");
    assert_eq!(clean("-> plain [Y/n] text"), "plain [Y/n] text");
    assert_eq!(clean("  "), "");
}
