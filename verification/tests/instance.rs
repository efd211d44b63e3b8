use archpkg::app::StartUp;
use archpkg::instance::{
    claim, lock_path, runtime_dir, socket_path, socket_path_for, Attempt, Claim, Guard, Request,
};

#[test]
fn request_round_trip() {
    for r in [
        Request::Show,
        Request::Upgrade,
        Request::Select("linux-zen".into()),
    ] {
        assert_eq!(Request::decode(&r.encode()), Some(r));
    }
    assert_eq!(Request::decode("select \n"), None);
    assert_eq!(Request::decode("dance\n"), None);
    assert_eq!(
        Request::from_start(&StartUp {
            upgrade: false,
            select: Some("yay".into())
        }),
        Request::Select("yay".into())
    );
    assert_eq!(
        Request::from_start(&StartUp {
            upgrade: true,
            select: Some("yay".into())
        }),
        Request::Upgrade
    );
    assert_eq!(Request::from_start(&StartUp::default()), Request::Show);
}

#[test]
fn a_name_is_kept_whole() {
    assert_eq!(
        Request::decode("  select a b \n"),
        Some(Request::Select("a b".into()))
    );
    assert_eq!(Request::decode("show me\n"), None);
    assert_eq!(Request::decode(""), None);
}

#[test]
fn one_window_per_session() {
    let primary = |listening: bool, socket: Option<&str>, notice: Option<&str>| Claim::Primary {
        listening,
        socket: socket.map(String::from),
        notice: notice.map(String::from),
    };
    assert_eq!(
        claim(&Attempt::Locked { bound: Ok(()) }, "/l", "/s"),
        primary(true, Some("/s"), None)
    );
    assert_eq!(
        claim(
            &Attempt::Locked {
                bound: Err("in use".into())
            },
            "/l",
            "/s"
        ),
        primary(
            false,
            Some("/s"),
            Some("fuide-arch-update: cannot listen on /s: in use; later launches open new windows")
        )
    );
    assert_eq!(
        claim(&Attempt::Taken { forwarded: true }, "/l", "/s"),
        Claim::Forwarded
    );
    assert_eq!(
        claim(&Attempt::Taken { forwarded: false }, "/l", "/s"),
        primary(
            false,
            None,
            Some("fuide-arch-update: another instance holds /l but does not answer on /s; starting anyway")
        )
    );
}

#[test]
fn paths_of_an_instance() {
    assert_eq!(lock_path("/run/u"), "/run/u/fuide-arch-update.lock");
    assert_eq!(
        socket_path("/run/u", "/tmp"),
        "/run/u/fuide-arch-update.sock"
    );
    assert_eq!(
        socket_path_for(&"x".repeat(120), "/tmp", 0xab),
        "/tmp/fuide-arch-update-00000000000000ab.sock"
    );
    assert_eq!(
        runtime_dir(Some("".into()), Some("/run/u".into()), "/tmp".into()),
        "/run/u"
    );
    assert_eq!(
        runtime_dir(Some("/a".into()), Some("/run/u".into()), "/tmp".into()),
        "/a"
    );
    assert_eq!(runtime_dir(None, None, "/tmp".into()), "/tmp");
}

#[test]
fn long_directories_get_short_sockets() {
    let dir = format!("/tmp/fau-inst-long-{}", "x".repeat(120));
    let other = format!("{dir}/other");
    assert!(socket_path(&dir, "/tmp").len() < 108);
    assert_ne!(socket_path(&dir, "/tmp"), socket_path(&other, "/tmp"));
    assert_eq!(socket_path(&dir, "/tmp"), socket_path(&dir, "/tmp"));
}

#[test]
fn requests_are_drained_once_and_in_order() {
    assert_eq!(
        Guard::new(claim(&Attempt::Taken { forwarded: true }, "/l", "/s")),
        None
    );
    let beside = Guard::new(claim(&Attempt::Taken { forwarded: false }, "/l", "/s")).unwrap();
    assert_eq!(beside.socket, None);
    let mut g = Guard::new(claim(&Attempt::Locked { bound: Ok(()) }, "/l", "/s")).unwrap();
    assert_eq!(g.socket.as_deref(), Some("/s"));
    assert!(g.drain().is_empty());
    assert!(g.receive(&Request::Upgrade.encode()));
    assert!(!g.receive("dance\n"));
    assert!(g.receive(&Request::Select("yay".into()).encode()));
    assert_eq!(
        g.drain(),
        vec![Request::Upgrade, Request::Select("yay".into())]
    );
    assert!(g.drain().is_empty());
    assert!(g.receive(&Request::Show.encode()));
    assert_eq!(g.drain(), vec![Request::Show]);
}
