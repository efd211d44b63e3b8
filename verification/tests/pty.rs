use archpkg::pty::{Msg, Runner, Size, Step};

fn args() -> Vec<String> {
    vec!["-c".into(), "sleep 0.2".into()]
}

fn exit() -> Msg {
    Msg::Exit {
        label: "a".into(),
        args: Vec::new(),
        code: Some(0),
        signal: None,
        elapsed: "0.2".into(),
    }
}

#[test]
fn only_one_job_at_a_time() {
    let mut r = Runner::new();
    let launch = r.run_program("/bin/bash", "a", &args(), true).unwrap();
    r.started(&launch, 7);
    assert!(r.running());
    let second = vec!["-c".to_string(), "true".to_string()];
    assert!(r.run_program("/bin/bash", "b", &second, true).is_none());
    r.poll(&vec![Msg::Output(vec![65]), exit()]);
    assert!(!r.running());
    assert!(r.run_program("/bin/bash", "b", &second, true).is_some());
}

#[test]
fn environment_of_the_child() {
    let mut r = Runner::new();
    r.resize(60, 20);
    let l = r.run_program("/bin/bash", "test", &args(), true).unwrap();
    assert_eq!(l.size, Size { cols: 60, rows: 20 });
    assert_eq!(
        l.set,
        vec![
            ("TERM".to_string(), "xterm-256color".to_string()),
            ("LC_ALL".to_string(), "C.UTF-8".to_string()),
            ("LANGUAGE".to_string(), String::new()),
        ]
    );
    assert_eq!(l.removed, ["COLUMNS", "LINES"]);
    let l = r.run_program("/bin/bash", "test", &args(), false).unwrap();
    assert_eq!(l.set.len(), 1);
    assert_eq!(l.args, args());
}

#[test]
fn writing_needs_a_child() {
    let mut r = Runner::new();
    assert_eq!(r.send_line("y"), None);
    assert_eq!(r.interrupt(), None);
    assert_eq!(r.terminate(), None);
    let l = r.run_program("sh", "a", &args(), true).unwrap();
    r.started(&l, 7);
    assert_eq!(r.write("x").as_deref(), Some("x"));
    assert_eq!(r.send_line("y").as_deref(), Some("y\n"));
    assert_eq!(r.interrupt().as_deref(), Some("\x03"));
    assert_eq!(r.terminate(), Some(7));
    assert_eq!(r.job().unwrap().label, "a");
    r.poll(&vec![Msg::Output(Vec::new())]);
    assert!(r.running());
}

#[test]
fn sizes_are_kept_in_bounds() {
    let mut r = Runner::new();
    assert_eq!(r.resize(10, 1000), None);
    let l = r.run_program("sh", "a", &args(), true).unwrap();
    assert_eq!(
        l.size,
        Size {
            cols: 40,
            rows: 200
        }
    );
    r.started(&l, 7);
    assert_eq!(r.resize(10, 1000), None);
    assert_eq!(
        r.resize(900, 2),
        Some(Size {
            cols: 500,
            rows: 8
        })
    );
    assert_eq!(r.resize(900, 2), None);
}

#[test]
fn failures_are_reported() {
    let r = Runner::default();
    let l = r.run_program("/bin/zz", "a", &args(), true).unwrap();
    let (text, msg) = Runner::report_spawn_failure(&l, Step::Start, "not found");
    assert_eq!(
        text,
        "\x1b[31m==> ERROR:\x1b[0m cannot start /bin/zz: not found\r\n"
    );
    assert_eq!(
        msg,
        Msg::Exit {
            label: "a".into(),
            args: args(),
            code: None,
            signal: None,
            elapsed: "0.0".into(),
        }
    );
    let (text, _) = Runner::report_spawn_failure(&l, Step::OpenPty, "e");
    assert!(text.contains("openpty failed: e"));
    let (text, _) = Runner::report_spawn_failure(&l, Step::Dup, "e");
    assert!(text.contains("dup failed: e"));
}
