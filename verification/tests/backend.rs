use archpkg::backend::{
    after_check, apply_updates, finished, merge_details, merge_search, output_line, short_name, spawn_failure,
    strip_ansi, Backend, Job, Msg,
};
use archpkg::pacman::{environment, parse_info, parse_search, Upgrade};
use archpkg::state::CheckState;

#[test]
fn strips_colour_and_bell() {
    assert_eq!(strip_ansi("\x1b[1;34m==>\x1b[0m done\x07"), "==> done");
    assert_eq!(strip_ansi("plain"), "plain");
}

#[test]
fn command_line_shows_file_names() {
    let j = Job {
        label: "x".into(),
        program: "/usr/bin/pkexec".into(),
        args: vec![
            "/usr/bin/pacman".into(),
            "-S".into(),
            "--noconfirm".into(),
            "rg".into(),
        ],
    };
    assert_eq!(j.command_line(), "pkexec pacman -S --noconfirm rg");
}

fn upgrade(name: &str) -> Upgrade {
    Upgrade {
        name: name.into(),
        current: "1".into(),
        new: "2".into(),
        aur: false,
    }
}

fn job(label: &str) -> Job {
    Job {
        label: label.into(),
        program: "pkexec".into(),
        args: Vec::new(),
    }
}

fn exit() -> Msg {
    Msg::Exit {
        label: "a".into(),
        ok: true,
        code: Some(0),
        elapsed: "0.1".into(),
    }
}

#[test]
fn escapes_are_dropped() {
    assert_eq!(strip_ansi("a\x1b[32mb\x1b[0m"), "ab");
    assert_eq!(strip_ansi("a\x1b[12;3"), "a");
    assert_eq!(strip_ansi(&strip_ansi("\x1b\x1b[m[31m")), strip_ansi("\x1b\x1b[m[31m"));
    assert_eq!(
        output_line("10%\r50%\r\x1b[1mdone\x1b[0m  "),
        Some("done".to_string())
    );
    assert_eq!(output_line("  \x1b[0m "), None);
    assert_eq!(output_line("x\r"), None);
}

#[test]
fn one_of_each_at_a_time() {
    let mut b = Backend::new();
    assert!(!b.busy());
    assert!(b.fetch_inventory());
    assert!(!b.fetch_inventory());
    assert!(b.check());
    assert!(!b.check());
    b.search("vim".into());
    assert_eq!(b.searching(), Some("vim"));
    assert!(b.fetching() && b.checking() && b.busy());
    assert!(b.run(job("a")));
    assert!(!b.run(job("b")));
    assert_eq!(b.running().unwrap().label, "a");
    b.poll(&vec![
        Msg::Inventory(Err("x".into()), "1".into()),
        Msg::Check(Ok(Vec::new())),
        Msg::Search {
            query: "vim".into(),
            result: Ok(Vec::new()),
        },
        Msg::Line {
            text: "x".into(),
            stderr: false,
        },
    ]);
    assert!(!b.fetching() && !b.checking() && b.searching().is_none());
    assert!(b.running().is_some());
    b.poll(&vec![exit()]);
    assert!(b.running().is_none() && !b.busy());
}

#[test]
fn checks_change_the_state() {
    let old = CheckState {
        checked_at: Some(1),
        updates: vec![upgrade("a")],
        error: None,
    };
    let failed = after_check(old, &Err("offline".into()), 2);
    assert_eq!(failed.updates.len(), 1);
    assert_eq!(failed.error.as_deref(), Some("offline"));
    assert_eq!(failed.checked_at, Some(2));
    let good = after_check(failed, &Ok(Vec::new()), 3);
    assert_eq!(good.error, None);
    assert!(good.updates.is_empty());
}

#[test]
fn searches_and_details_are_merged() {
    let hit = |n: &str| parse_search(&format!("extra/{n} 1\n    x\n"));
    let both = merge_search(Ok(hit("a")), Ok(hit("b"))).unwrap();
    assert_eq!(both[1].name, "b");
    assert_eq!(merge_search(Ok(hit("a")), Err("rpc".into())).unwrap().len(), 1);
    assert_eq!(
        merge_search(Ok(Vec::new()), Err("rpc".into())).err(),
        Some("rpc".to_string())
    );
    assert_eq!(
        merge_search(Err("db".into()), Ok(hit("b"))).err(),
        Some("db".to_string())
    );
    let info = |n: &str| parse_info(&format!("Name : {n}\n"), false);
    let both = merge_details(Ok(info("a")), Ok(info("b"))).unwrap();
    assert_eq!(both.len(), 2);
    assert!(merge_details(Ok(info("a")), Err("x".into())).is_err());
}

#[test]
fn updates_mark_the_packages() {
    let mut p = parse_info("Name : a\n\nName : b\nVersion : 1\n", true);
    apply_updates(&mut p, &vec![upgrade("b")]);
    assert_eq!(p[0].latest, None);
    assert_eq!(p[1].latest.as_deref(), Some("2"));
    apply_updates(&mut p, &Vec::new());
    assert_eq!(p[1].latest, None);
}

#[test]
fn commands_that_end() {
    for (status, want) in [
        (Some((true, Some(0))), (true, Some(0))),
        (Some((false, Some(3))), (false, Some(3))),
        (Some((false, None)), (false, None)),
        (None, (false, None)),
    ] {
        match finished(&job("a"), status, "1.0".into()) {
            Msg::Exit {
                label,
                ok,
                code,
                elapsed,
            } => {
                assert_eq!((ok, code), want);
                assert_eq!((label.as_str(), elapsed.as_str()), ("a", "1.0"));
            }
            _ => panic!("no exit"),
        }
    }
    let env = environment();
    assert_eq!(env.set, [("LC_ALL".to_string(), "C.UTF-8".to_string())]);
    assert_eq!(env.removed, ["LANGUAGE"]);
}

#[test]
fn commands_that_do_not_start() {
    let (line, exit) = spawn_failure(&job("install // x"), "no such file");
    match line {
        Msg::Line { text, stderr } => {
            assert_eq!(text, "cannot start pkexec: no such file");
            assert!(stderr);
        }
        _ => panic!("no line"),
    }
    match exit {
        Msg::Exit { label, ok, code, .. } => {
            assert_eq!(label, "install // x");
            assert!(!ok);
            assert_eq!(code, None);
        }
        _ => panic!("no exit"),
    }
    assert_eq!(short_name("/usr/bin/yay"), "yay");
    assert_eq!(short_name("/"), "/");
    assert_eq!(job("x").command_line(), "pkexec");
}
