use archpkg::num::reads_as_fraction;
use archpkg::pacman::{
    aur_helper, cache_args, cache_candidates, cache_size, check_all, check_aur, check_aur_args,
    check_repo, check_repo_args, checkupdates_bin, foreign_args, has_checkupdates,
    helper_sudo_args, info_aur, info_aur_args, info_repo, info_repo_args, installed,
    installed_args, kernel, kernel_image, last_sync_epoch, orphan_args, paccache_bin, pacman_bin,
    parse_info, parse_search, parse_upgrades, privilege_cmd, run, run_lenient, search_aur,
    search_aur_args, search_repo, search_repo_args, size_parts, sync_list, sync_list_args, Failure,
    Reason, ToolOutput,
};

const QI: &str = "Installed From  : cachyos-v3
Name            : bash
Version         : 5.3.15-2
Description     : The GNU Bourne Again shell
Architecture    : x86_64_v3
URL             : https://www.gnu.org/software/bash/bash.html
Licenses        : GPL-3.0-or-later
Groups          : None
Provides        : sh
Depends On      : readline  libreadline.so=8-64  glibc  ncurses
Optional Deps   : bash-completion: for tab completion [installed]
Required By     : alsa-utils  base
Optional For    : mdadm
Conflicts With  : None
Replaces        : None
Installed Size  : 9.68 MiB
Packager        : CachyOS <admin@cachyos.org>
Build Date      : Mon Jun 29 01:28:21 2026
Install Date    : Mon Jun 29 17:15:09 2026
Install Reason  : Installed as a dependency for another package
Install Script  : Yes
Validated By    : Signature

Name            : yay
Version         : 13.0.1-1
Description     : Yet another yogurt.
Install Reason  : Explicitly installed
Installed Size  : 8.00 MiB

";

#[test]
fn parses_qi_blocks() {
    let p = parse_info(QI, true);
    assert_eq!(p.len(), 2);
    let b = &p[0];
    assert_eq!(b.name, "bash");
    assert_eq!(b.repo, "cachyos-v3");
    assert_eq!(
        b.depends,
        vec!["readline", "libreadline.so=8-64", "glibc", "ncurses"]
    );
    assert_eq!(b.groups, Vec::<String>::new());
    assert_eq!(b.required_by, vec!["alsa-utils", "base"]);
    assert_eq!(b.reason, Reason::Dependency);
    assert_eq!(b.installed_size.as_deref(), Some("9.68 MiB"));
    assert!(b.installed);
    assert_eq!(p[1].reason, Reason::Explicit);
    assert_eq!(p[1].repo, "");
}

#[test]
fn parses_aur_si_with_continuations() {
    let text = "Repository                    : aur
Name                          : visual-studio-code-bin
Version                       : 1.136.1-1
Description                   : Visual Studio Code (vscode): Editor
URL                           : https://code.visualstudio.com/
Depends On                    : libxkbfile  gnupg  gtk3
                                gcc-libs  libnotify
Maintainer                    : dcelasun
Popularity                    : 23.867764
Votes                         : 1706
Out-of-date                   : No
";
    let p = parse_info(text, false);
    assert_eq!(p.len(), 1);
    assert_eq!(p[0].repo, "aur");
    assert_eq!(p[0].depends.len(), 5);
    assert_eq!(p[0].votes, Some(1706));
    assert_eq!(p[0].maintainer, "dcelasun");
    assert!(!p[0].out_of_date);
    assert_eq!(p[0].desc, "Visual Studio Code (vscode): Editor");
}

#[test]
fn parses_search_output() {
    let text = "cachyos-v3/bash 5.3.15-2 [installed]
    The GNU Bourne Again shell
core/bash 5.3.15-1 [installed: 5.3.15-2]
    The GNU Bourne Again shell
aur/pikaur-static 1.33.3-1 (+2 0.24) [182d17h]
    AUR helper without dependencies
aur/old-thing 1.0-1 (+0 0.00) [Out-of-date: 2025-01-01]
    stale
extra/ripgrep 15.2.0-1
    A search tool
";
    let h = parse_search(text);
    assert_eq!(h.len(), 5);
    assert!(h[0].installed && h[0].installed_version.is_none());
    assert_eq!(h[1].installed_version.as_deref(), Some("5.3.15-2"));
    assert_eq!(h[2].repo, "aur");
    assert_eq!(h[2].votes, Some(2));
    assert_eq!(h[2].popularity.as_deref(), Some("0.24"));
    assert_eq!(h[2].desc, "AUR helper without dependencies");
    assert!(h[3].out_of_date);
    assert!(!h[4].installed);
    assert_eq!(h[4].name, "ripgrep");
}

#[test]
fn parses_upgrade_lines() {
    let u = parse_upgrades(
        "linux-cachyos 7.2.1-1 -> 7.2.2-1\n  yay 13.0.0-1 -> 13.0.1-1\ngarbage\n",
        true,
    );
    assert_eq!(u.len(), 2);
    assert_eq!(u[0].name, "linux-cachyos");
    assert_eq!(u[1].new, "13.0.1-1");
    assert!(u[1].aur);
}

#[test]
fn helper_sudo_flag() {
    assert_eq!(
        helper_sudo_args("/usr/bin/yay", "pkexec"),
        vec!["--sudo", "pkexec"]
    );
    assert_eq!(
        helper_sudo_args("paru", "pkexec"),
        vec!["--sudo", "pkexec"]
    );
    assert!(helper_sudo_args("pikaur", "pkexec").is_empty());
}

fn out(success: bool, code: Option<i32>, stdout: &[u8], stderr: &[u8]) -> ToolOutput {
    ToolOutput {
        success,
        code,
        stdout: stdout.to_vec(),
        stderr: stderr.to_vec(),
    }
}

fn said(text: &str) -> Failure {
    Failure::Message(text.into())
}

fn argv(v: Vec<String>) -> String {
    v.join(" ")
}

#[test]
fn results_of_programs() {
    assert_eq!(run("p", Ok(out(true, Some(0), b"hi\n", b"x"))), Ok("hi\n".into()));
    assert_eq!(
        run("p", Ok(out(true, Some(0), b"a\xffb", b""))),
        Ok("a\u{fffd}b".into())
    );
    assert_eq!(
        run("p", Ok(out(false, Some(1), b"hi", b" bad\n"))),
        Err(said("bad"))
    );
    assert_eq!(
        run("p", Ok(out(false, Some(2), b"hi", b" \n"))),
        Err(Failure::Exit(2))
    );
    assert_eq!(
        run("p", Ok(out(false, None, b"", b""))),
        Err(Failure::Exit(-1))
    );
    assert_eq!(run("p", Err("gone".into())), Err(said("p: gone")));
    assert_eq!(Failure::Exit(-1).text(), "exit code -1");
    assert_eq!(said("bad").text(), "bad");
    assert_eq!(run_lenient(Err(Failure::Exit(1))), Ok(String::new()));
    assert_eq!(run_lenient(Err(said("bad"))), Err("bad".into()));
    assert_eq!(
        run_lenient(Err(said("exit code 1 of a hook"))),
        Err("exit code 1 of a hook".into())
    );
}

#[test]
fn queries() {
    assert_eq!(argv(installed_args()), "-Qi --color never");
    assert_eq!(argv(foreign_args()), "-Qmq");
    assert_eq!(argv(orphan_args()), "-Qtdq");
    assert_eq!(argv(sync_list_args()), "-Sl --color never");
    assert_eq!(argv(check_aur_args()), "-Qua --color never");
    assert_eq!(argv(check_repo_args()), "--nocolor");
    assert_eq!(argv(search_repo_args("q")), "-Ss --color never q");
    assert_eq!(argv(search_aur_args("q")), "-Ss --aur --color never q");
    let names = ["a".to_string(), "b".to_string()];
    assert_eq!(argv(info_repo_args(&names)), "-Si --color never a b");
    assert_eq!(argv(info_aur_args(&names)), "-Si --aur --color never a b");
    assert_eq!(cache_args(2), "-dk2");
}

#[test]
fn tools_and_overrides() {
    assert_eq!(pacman_bin(None), "pacman");
    assert_eq!(pacman_bin(Some("/x".into())), "/x");
    assert_eq!(checkupdates_bin(None), "checkupdates");
    assert_eq!(paccache_bin(None), "paccache");
    assert_eq!(aur_helper(None, true, true, true).as_deref(), Some("yay"));
    assert_eq!(aur_helper(None, false, true, true).as_deref(), Some("paru"));
    assert_eq!(
        aur_helper(None, false, false, true).as_deref(),
        Some("pikaur")
    );
    assert_eq!(aur_helper(None, false, false, false), None);
    assert_eq!(aur_helper(Some("none".into()), true, true, true), None);
    assert_eq!(
        privilege_cmd(None, true).as_deref(),
        Some("pkexec")
    );
    assert_eq!(privilege_cmd(Some("none".into()), true), None);
    assert!(has_checkupdates("/x/checkupdates", true, false));
    assert!(!has_checkupdates("checkupdates", true, false));
    assert!(has_checkupdates("checkupdates", false, true));
}

#[test]
fn inventory_is_put_together() {
    let all = "Name : a\nInstall Reason : Explicitly installed\n\nInstalled From : core\nName : b\n\nName : c\n";
    let pkgs = installed(
        Ok(all.into()),
        Ok("c\n".into()),
        Err(Failure::Exit(1)),
        Ok("extra a 1\ncore a 2\n".into()),
        false,
    )
    .unwrap();
    assert_eq!(pkgs[0].repo, "extra");
    assert_eq!(pkgs[1].repo, "core");
    assert_eq!(pkgs[2].repo, "local");
    assert!(pkgs.iter().all(|p| !p.orphan));
    assert_eq!(
        installed(Err(said("no")), Ok("".into()), Ok("".into()), Ok("".into()), true).err(),
        Some("no".to_string())
    );
    assert_eq!(
        installed(Ok("".into()), Err(said("m")), Ok("".into()), Ok("".into()), true).err(),
        Some("m".to_string())
    );
    let s = sync_list(Ok("extra a 1\ncore a 2\nx\n".into())).unwrap();
    assert_eq!(s.len(), 1);
    assert_eq!((s[0].repo.as_str(), s[0].version.as_str()), ("extra", "1"));
}

#[test]
fn checks_that_fail() {
    assert_eq!(check_repo(Err(Failure::Exit(2))).unwrap().len(), 0);
    assert!(check_repo(Err(Failure::Exit(1))).is_err());
    assert_eq!(check_aur(None).unwrap().len(), 0);
    assert_eq!(check_aur(Some(Err(Failure::Exit(1)))).unwrap().len(), 0);
    let both = check_all(Ok("a 1 -> 2\n".into()), Some(Ok("b 1 -> 2\n".into()))).unwrap();
    assert_eq!((both[0].aur, both[1].aur), (false, true));
    assert_eq!(
        check_all(Err(said("offline")), None).err(),
        Some("offline".to_string())
    );
}

#[test]
fn details_of_nothing() {
    assert_eq!(info_repo(&[], Err(said("x"))).unwrap().len(), 0);
    assert_eq!(info_aur(&[], Some(Err(said("x")))).unwrap().len(), 0);
    let names = ["a".to_string()];
    assert_eq!(info_aur(&names, None).unwrap().len(), 0);
    let p = info_aur(&names, Some(Ok("Name : a\n".into()))).unwrap();
    assert_eq!(p[0].repo, "aur");
    assert!(info_repo(&names, Err(said("x"))).is_err());
    assert_eq!(search_aur(None).unwrap().len(), 0);
    assert_eq!(search_repo(Err(Failure::Exit(1))).unwrap().len(), 0);
}

#[test]
fn machine_facts() {
    assert_eq!(
        cache_candidates(Some("==> finished dry run: 12 candidates (disk space)\n".into())),
        Some(12)
    );
    assert_eq!(cache_candidates(Some("==> no candidate packages\n".into())), Some(0));
    assert_eq!(cache_candidates(None), None);
    assert_eq!(
        last_sync_epoch(&[
            ("core.db".into(), 5),
            ("extra.db".into(), 9),
            ("extra.files".into(), 99)
        ]),
        Some(9)
    );
    assert_eq!(last_sync_epoch(&[(".db".into(), 5)]), None);
    assert_eq!(kernel(&Some("7.2.2\n".into()), false), ("7.2.2".to_string(), true));
    assert_eq!(kernel(&Some("7.2.2\n".into()), true), ("7.2.2".to_string(), false));
    assert_eq!(kernel(&None, false), (String::new(), false));
    assert_eq!(kernel_image("7"), "/usr/lib/modules/7/vmlinuz");
}

#[test]
fn printed_sizes() {
    assert_eq!(size_parts("1330.50 KiB"), Some(("1330.50".to_string(), 1)));
    assert_eq!(size_parts("2.00 GiB"), Some(("2.00".to_string(), 3)));
    assert_eq!(size_parts(" 7 "), Some(("7".to_string(), 0)));
    assert_eq!(size_parts("1 TiB x"), Some(("1".to_string(), 4)));
    assert_eq!(size_parts("1 kB"), Some(("1".to_string(), 1)));
    assert_eq!(size_parts(""), None);
    assert_eq!(
        cache_size(b"123456\t/var/cache/pacman/pkg\n"),
        Some("123456".to_string())
    );
    assert_eq!(cache_size(b"\n"), None);
    assert_eq!(cache_size(b"du: x\n"), None);
    assert_eq!(size_parts("None"), None);
    assert_eq!(size_parts("KiB 5"), None);
}

#[test]
fn what_is_no_number_is_unknown() {
    let info = |size: &str, popularity: &str| {
        let text = format!(
            "Name : a\nInstalled Size : {size}\nDownload Size : {size}\nPopularity : {popularity}\n"
        );
        parse_info(&text, true).remove(0)
    };
    let p = info("1.5 MiB", "0.25");
    assert_eq!(p.installed_size.as_deref(), Some("1.5 MiB"));
    assert_eq!(p.download_size.as_deref(), Some("1.5 MiB"));
    assert_eq!(p.popularity.as_deref(), Some("0.25"));
    let p = info("None", "unknown");
    assert_eq!(p.installed_size, None);
    assert_eq!(p.download_size, None);
    assert_eq!(p.popularity, None);
    assert_eq!(info("", "1 2").installed_size, None);
    assert_eq!(info("", "1 2").popularity, None);
    let h = parse_search("aur/a 1 (+3 many)\naur/b 1 (+3 0.5)\n");
    assert_eq!(h[0].votes, Some(3));
    assert_eq!(h[0].popularity, None);
    assert_eq!(h[1].popularity.as_deref(), Some("0.5"));
}

#[test]
fn fractions_are_told_as_the_standard_parser_tells_them() {
    for s in [
        "0", "7", "+7", "-7", "1.5", ".5", "5.", "1e5", "1E-5", "1.e+5", ".5e0", "inf", "-Inf",
        "INFINITY", "nan", "+NaN", "00.10", "1e999", "", "+", "-", ".", "e5", ".e5", "1e", "1e+",
        "1.2.3", "1,5", "--1", "+-1", "0x1", "1_0", "infi", "nanx", "in", " 1", "1 ", "1f", "e",
        "\u{661}", "1e5.0", "1ee5",
    ] {
        let chars: Vec<char> = s.chars().collect();
        assert_eq!(reads_as_fraction(&chars), s.parse::<f64>().is_ok(), "{s:?}");
    }
}

#[test]
fn reasons() {
    assert_eq!(Reason::Explicit.tag(), "EXPLICIT");
    assert_eq!(Reason::Dependency.tag(), "DEP");
    assert_eq!(Reason::default().tag(), "--");
}
