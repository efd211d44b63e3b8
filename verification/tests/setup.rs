use archpkg::setup::{exec_quote, icon_cache, refresh_desktop, with_exec, Plan};

fn plan() -> Plan {
    Plan::new(
        "/home/u/.cargo/bin/fuide-arch-update",
        "/home/u/.cargo/bin/fuide-arch-update-tray",
        "/home/u/.local/share",
        "/home/u/.config",
    )
}

#[test]
fn exec_lines_use_absolute_paths() {
    let p = plan();
    assert!(p
        .gui_desktop
        .1
        .contains("\nExec=/home/u/.cargo/bin/fuide-arch-update\n"));
    assert!(p.tray_desktop.1.contains(
        "\nExec=/bin/sh -c \"sleep 3 && exec /home/u/.cargo/bin/fuide-arch-update-tray\"\n"
    ));
    assert_eq!(p.tray_desktop.1, p.autostart.1);
    // Everything else from the templates survives.
    assert!(p.gui_desktop.1.contains("StartupWMClass=fuide-arch-update"));
    assert!(p.tray_desktop.1.contains("X-KDE-autostart-phase=2"));
    assert!(p.icon.1.contains("<svg"));
}

#[test]
fn file_locations() {
    let p = plan();
    let paths: Vec<_> = p.files().iter().map(|(p, _)| p.to_string()).collect();
    assert_eq!(
        paths,
        [
            String::from("/home/u/.local/share/applications/fuide-arch-update.desktop"),
            String::from("/home/u/.local/share/applications/fuide-arch-update-tray.desktop"),
            String::from("/home/u/.config/autostart/fuide-arch-update-tray.desktop"),
            String::from(
                "/home/u/.local/share/icons/hicolor/scalable/apps/fuide-arch-update.svg"
            ),
        ]
    );
}

#[test]
fn exec_quoting() {
    assert_eq!(
        exec_quote("/opt/a-b_c.1/bin"),
        "/opt/a-b_c.1/bin"
    );
    assert_eq!(
        exec_quote("/home/my user/bin/x"),
        "\"/home/my user/bin/x\""
    );
    assert_eq!(exec_quote("/a$b\"c"), "\"/a\\$b\\\"c\"");
}

#[test]
fn plans_from_the_environment() {
    let p = Plan::from_env(
        Ok("/opt/bin/fuide-arch-update".into()),
        Some("/opt/bin/fuide-arch-update-tray".into()),
        Some("/home/u".into()),
        None,
        Some("/cfg".into()),
    )
    .unwrap();
    let files = p.files();
    assert_eq!(
        files[0].0,
        "/home/u/.local/share/applications/fuide-arch-update.desktop"
    );
    assert_eq!(
        files[2].0,
        "/cfg/autostart/fuide-arch-update-tray.desktop"
    );
    assert!(files[1].1.contains("exec /opt/bin/fuide-arch-update-tray"));
    assert!(Plan::from_env(Err("gone".into()), None, None, None, None).is_err());
}

#[test]
fn desktop_is_refreshed() {
    let c = refresh_desktop("/d", false);
    assert_eq!(c.len(), 2);
    assert_eq!(c[0].program, "update-desktop-database");
    assert_eq!(c[0].args, ["/d/applications"]);
    assert_eq!(c[1].program, "dbus-send");
    let c = refresh_desktop("/d", true);
    assert_eq!(c[1].program, "gtk-update-icon-cache");
    assert_eq!(c[1].args, ["-q", "-t", "-f", "/d/icons/hicolor"]);
    assert_eq!(icon_cache("/d"), "/d/icons/hicolor/icon-theme.cache");
}

#[test]
fn only_exec_lines_change() {
    assert_eq!(
        with_exec("[A]\nExec=x\nTryExec=y\nIcon=z\n", "/bin/q"),
        "[A]\nExec=/bin/q\nTryExec=y\nIcon=z\n"
    );
    assert_eq!(exec_quote(""), "");
    assert_eq!(exec_quote("/a\\b`c"), "\"/a\\\\b\\`c\"");
}
