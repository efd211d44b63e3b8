//! `fuide-arch-update --setup` / `--unsetup`: per-user desktop integration for a `cargo install`
//! (or any other) copy of the binaries, no root needed.
//!
//! `--setup` writes, with absolute `Exec=` paths derived from this executable:
//! - `$XDG_DATA_HOME/applications/fuide-arch-update{,-tray}.desktop` (start menu)
//! - `$XDG_DATA_HOME/icons/hicolor/scalable/apps/fuide-arch-update.svg` (icon)
//! - `$XDG_CONFIG_HOME/autostart/fuide-arch-update-tray.desktop` (tray at login)
//!
//! then starts the tray now. `--unsetup` removes those files (the tray keeps running until its
//! `Quit`). The polkit policy is system-wide only, so it is not handled here: without it every
//! root operation asks for the password (see README).

use crate::text::{
    chars_of, copy, lines, lines_of, member, opt, path_join, path_joined, push_copy, slices,
    starts_with, string_of, texts,
};
use vstd::prelude::*;

verus! {

/// The start-menu entry of the GUI.
pub const GUI_DESKTOP: &'static str = "[Desktop Entry]\nType=Application\nName=FUIDE Arch-Update\nGenericName=Package Manager\nComment=Install, remove and update packages (pacman and AUR)\nExec=fuide-arch-update\nIcon=fuide-arch-update\nTerminal=false\nCategories=System;PackageManager;\nKeywords=pacman;aur;package;update;upgrade;\nStartupWMClass=fuide-arch-update\n";

/// The start-menu and autostart entry of the tray.
pub const TRAY_DESKTOP: &'static str = "[Desktop Entry]\nType=Application\nName=FUIDE Arch-Update Tray\nComment=Watch for pacman and AUR updates\nExec=fuide-arch-update-tray\nIcon=fuide-arch-update\nTerminal=false\nCategories=System;Monitor;\nX-GNOME-Autostart-enabled=true\nX-KDE-autostart-phase=2\n";

/// The icon: a square outline with a chevron pointing up.
pub const ICON_SVG: &'static str = "<svg xmlns=\"http://www.w3.org/2000/svg\" viewBox=\"0 0 64 64\" width=\"64\" height=\"64\">\n  <g fill=\"none\" stroke=\"#00E5FF\" stroke-width=\"5.3\">\n    <rect x=\"9\" y=\"9\" width=\"46\" height=\"46\"/>\n    <path d=\"M19.2 39.7 L32 23 L44.8 39.7\"/>\n  </g>\n</svg>\n";

/// Where the files go and what they contain. Pure: built from paths, written by the application.
#[derive(Debug, PartialEq, Eq)]
pub struct Plan {
    pub gui_desktop: (String, String),
    pub tray_desktop: (String, String),
    pub autostart: (String, String),
    pub icon: (String, &'static str),
    pub tray_bin: String,
    /// `$XDG_DATA_HOME`, for the menu-cache refresh.
    pub data_home: String,
}

/// The model of a [`Plan`].
#[verifier::ext_equal]
pub struct PlanView {
    pub gui_desktop: (Seq<char>, Seq<char>),
    pub tray_desktop: (Seq<char>, Seq<char>),
    pub autostart: (Seq<char>, Seq<char>),
    pub icon: (Seq<char>, Seq<char>),
    pub tray_bin: Seq<char>,
    pub data_home: Seq<char>,
}

impl View for Plan {
    type V = PlanView;

    open spec fn view(&self) -> PlanView {
        PlanView {
            gui_desktop: (self.gui_desktop.0@, self.gui_desktop.1@),
            tray_desktop: (self.tray_desktop.0@, self.tray_desktop.1@),
            autostart: (self.autostart.0@, self.autostart.1@),
            icon: (self.icon.0@, self.icon.1@),
            tray_bin: self.tray_bin@,
            data_home: self.data_home@,
        }
    }
}

impl Clone for Plan {
    fn clone(&self) -> (r: Self)
        ensures
            r@ == self@,
    {
        Plan {
            gui_desktop: (self.gui_desktop.0.clone(), self.gui_desktop.1.clone()),
            tray_desktop: (self.tray_desktop.0.clone(), self.tray_desktop.1.clone()),
            autostart: (self.autostart.0.clone(), self.autostart.1.clone()),
            icon: (self.icon.0.clone(), self.icon.1),
            tray_bin: self.tray_bin.clone(),
            data_home: self.data_home.clone(),
        }
    }
}

// ------------------------------------------------------------------ desktop entries

/// Some lines with the `Exec=` ones replaced, each ended by `\n`.
pub open spec fn entry_of(lines: Seq<Seq<char>>, exec: Seq<char>) -> Seq<char>
    decreases lines.len(),
{
    if lines.len() == 0 {
        Seq::empty()
    } else {
        let l = lines.last();
        entry_of(lines.drop_last(), exec) + (if "Exec="@.is_prefix_of(l) {
            "Exec="@ + exec
        } else {
            l
        }).push('\n')
    }
}

/// Replace the `Exec=` line of a desktop entry.
pub fn with_exec(template: &str, exec: &str) -> (r: String)
    ensures
        r@ == entry_of(lines_of(template@), exec@),
{
    let cs = chars_of(template);
    let ls = lines(&cs);
    let ghost all = slices(ls@);
    let mut out = String::new();
    let mut i: usize = 0;
    while i < ls.len()
        invariant
            i <= ls.len(),
            all == slices(ls@),
            out@ == entry_of(all.take(i as int), exec@),
        decreases ls.len() - i,
    {
        let ghost before = out@;
        let l = ls[i];
        assert(all.take(i + 1).drop_last() =~= all.take(i as int));
        assert(all.take(i + 1).last() == l@);
        if starts_with(l, "Exec=") {
            out.push_str("Exec=");
            out.push_str(exec);
            out.push('\n');
            assert(out@ =~= before + ("Exec="@ + exec@).push('\n'));
        } else {
            out.push_str(string_of(l).as_str());
            out.push('\n');
            assert(out@ =~= before + l@.push('\n'));
        }
        i += 1;
    }
    assert(all.take(all.len() as int) =~= all);
    out
}

/// A character that needs no quotes in an `Exec=` value.
pub open spec fn is_plain(c: char) -> bool {
    ||| 'a' <= c <= 'z'
    ||| 'A' <= c <= 'Z'
    ||| '0' <= c <= '9'
    ||| "/._-+@:,"@.contains(c)
}

/// A character that a backslash escapes inside quotes.
pub open spec fn is_reserved(c: char) -> bool {
    c == '"' || c == '\\' || c == '$' || c == '`'
}

/// Text with the reserved characters escaped.
pub open spec fn escaped(s: Seq<char>) -> Seq<char>
    decreases s.len(),
{
    if s.len() == 0 {
        Seq::empty()
    } else {
        let before = escaped(s.drop_last());
        if is_reserved(s.last()) {
            before.push('\\').push(s.last())
        } else {
            before.push(s.last())
        }
    }
}

/// A path as one argument of an `Exec=` value.
pub open spec fn quoted(s: Seq<char>) -> Seq<char> {
    if forall|i: int| 0 <= i < s.len() ==> is_plain(#[trigger] s[i]) {
        s
    } else {
        "\""@ + escaped(s) + "\""@
    }
}

fn all_plain(s: &[char]) -> (r: bool)
    ensures
        r == (forall|i: int| 0 <= i < s@.len() ==> is_plain(#[trigger] s@[i])),
{
    let extra = chars_of("/._-+@:,");
    let mut i: usize = 0;
    while i < s.len()
        invariant
            i <= s.len(),
            extra@ == "/._-+@:,"@,
            forall|j: int| 0 <= j < i ==> is_plain(#[trigger] s@[j]),
        decreases s.len() - i,
    {
        let c = s[i];
        if !(('a' <= c && c <= 'z') || ('A' <= c && c <= 'Z') || ('0' <= c && c <= '9') || member(
            c,
            &extra,
        )) {
            assert(!is_plain(s@[i as int]));
            return false;
        }
        i += 1;
    }
    true
}

/// A path as one argument of a desktop-entry `Exec=` value: double-quoted when it needs it,
/// with the characters the entry format reserves inside quotes backslash-escaped.
pub fn exec_quote(path: &str) -> (r: String)
    ensures
        r@ == quoted(path@),
{
    let s = chars_of(path);
    if all_plain(&s) {
        return copy(path);
    }
    let mut body: Vec<char> = Vec::new();
    let mut i: usize = 0;
    while i < s.len()
        invariant
            i <= s.len(),
            body@ == escaped(s@.take(i as int)),
        decreases s.len() - i,
    {
        let c = s[i];
        assert(s@.take(i + 1).drop_last() =~= s@.take(i as int));
        assert(s@.take(i + 1).last() == c);
        if c == '"' || c == '\\' || c == '$' || c == '`' {
            body.push('\\');
        }
        body.push(c);
        i += 1;
    }
    assert(s@.take(s@.len() as int) =~= s@);
    let mut q = copy("\"");
    q.push_str(string_of(&body).as_str());
    q.push_str("\"");
    q
}

// ------------------------------------------------------------------ the plan

/// The plan for binaries and directories.
pub open spec fn planned(
    gui_bin: Seq<char>,
    tray_bin: Seq<char>,
    data_home: Seq<char>,
    config_home: Seq<char>,
) -> PlanView {
    let apps = path_joined(data_home, "applications"@);
    let gui = entry_of(lines_of(GUI_DESKTOP@), quoted(gui_bin));
    let tray = entry_of(
        lines_of(TRAY_DESKTOP@),
        "/bin/sh -c \"sleep 3 && exec "@ + quoted(tray_bin) + "\""@,
    );
    PlanView {
        gui_desktop: (path_joined(apps, "fuide-arch-update.desktop"@), gui),
        tray_desktop: (path_joined(apps, "fuide-arch-update-tray.desktop"@), tray),
        autostart: (
            path_joined(config_home, "autostart/fuide-arch-update-tray.desktop"@),
            tray,
        ),
        icon: (
            path_joined(data_home, "icons/hicolor/scalable/apps/fuide-arch-update.svg"@),
            ICON_SVG@,
        ),
        tray_bin,
        data_home,
    }
}

/// The directory that a variable names, where it is an absolute path; else the default.
pub open spec fn xdg_dir_of(var: Option<Seq<char>>, default: Seq<char>) -> Seq<char> {
    match var {
        Some(v) => if v.len() > 0 && v[0] == '/' {
            v
        } else {
            default
        },
        None => default,
    }
}

fn xdg_dir(var: Option<String>, default: String) -> (r: String)
    ensures
        r@ == xdg_dir_of(opt(var), default@),
{
    match var {
        Some(v) => {
            let cs = chars_of(v.as_str());
            if cs.len() > 0 && cs[0] == '/' {
                v
            } else {
                default
            }
        },
        None => default,
    }
}

/// The plan that the environment asks for.
pub open spec fn planned_from_env(
    exe: Result<Seq<char>, Seq<char>>,
    tray: Option<Seq<char>>,
    home: Option<Seq<char>>,
    data: Option<Seq<char>>,
    config: Option<Seq<char>>,
) -> Result<PlanView, Seq<char>> {
    match (exe, tray, home) {
        (Err(e), _, _) => Err("cannot locate this executable: "@ + e),
        (Ok(gui), None, _) => Err(
            "fuide-arch-update-tray not found next to "@ + gui
                + "\ninstall both binaries, e.g. `cargo install --git <repo> fuide-arch-update fuide-arch-update-tray`"@,
        ),
        (Ok(_), Some(_), None) => Err("HOME is not set"@),
        (Ok(gui), Some(t), Some(h)) => Ok(
            planned(
                gui,
                t,
                xdg_dir_of(data, path_joined(h, ".local/share"@)),
                xdg_dir_of(config, path_joined(h, ".config"@)),
            ),
        ),
    }
}

impl Plan {
    /// `data_home` = `$XDG_DATA_HOME`, `config_home` = `$XDG_CONFIG_HOME`.
    pub fn new(gui_bin: &str, tray_bin: &str, data_home: &str, config_home: &str) -> (r: Self)
        ensures
            r@ == planned(gui_bin@, tray_bin@, data_home@, config_home@),
    {
        proof {
            reveal_strlit("applications");
            reveal_strlit("fuide-arch-update.desktop");
            reveal_strlit("fuide-arch-update-tray.desktop");
            reveal_strlit("autostart/fuide-arch-update-tray.desktop");
            reveal_strlit("icons/hicolor/scalable/apps/fuide-arch-update.svg");
        }
        let apps = path_join(data_home, "applications");
        let gui = with_exec(GUI_DESKTOP, exec_quote(gui_bin).as_str());
        // The tray waits a moment for the panel's StatusNotifierWatcher to come up.
        let mut exec = copy("/bin/sh -c \"sleep 3 && exec ");
        exec.push_str(exec_quote(tray_bin).as_str());
        exec.push_str("\"");
        let tray = with_exec(TRAY_DESKTOP, exec.as_str());
        Plan {
            gui_desktop: (path_join(apps.as_str(), "fuide-arch-update.desktop"), gui),
            tray_desktop: (
                path_join(apps.as_str(), "fuide-arch-update-tray.desktop"),
                tray.clone(),
            ),
            autostart: (path_join(config_home, "autostart/fuide-arch-update-tray.desktop"), tray),
            icon: (
                path_join(data_home, "icons/hicolor/scalable/apps/fuide-arch-update.svg"),
                ICON_SVG,
            ),
            tray_bin: copy(tray_bin),
            data_home: copy(data_home),
        }
    }

    /// From the environment: this executable (or why it cannot be located), the tray binary next
    /// to it where that is a file, and the values of `HOME`, `XDG_DATA_HOME` and
    /// `XDG_CONFIG_HOME`.
    pub fn from_env(
        exe: Result<String, String>,
        tray: Option<String>,
        home: Option<String>,
        data: Option<String>,
        config: Option<String>,
    ) -> (r: Result<Self, String>)
        ensures
            match planned_from_env(
                crate::pacman::result(exe),
                opt(tray),
                opt(home),
                opt(data),
                opt(config),
            ) {
                Ok(p) => r is Ok && r->Ok_0@ == p,
                Err(e) => r is Err && r->Err_0@ == e,
            },
    {
        let gui_bin = match exe {
            Ok(p) => p,
            Err(e) => {
                let mut msg = copy("cannot locate this executable: ");
                msg.push_str(e.as_str());
                return Err(msg);
            },
        };
        let tray_bin = match tray {
            Some(p) => p,
            None => {
                let mut msg = copy("fuide-arch-update-tray not found next to ");
                msg.push_str(gui_bin.as_str());
                msg.push_str(
                    "\ninstall both binaries, e.g. `cargo install --git <repo> fuide-arch-update fuide-arch-update-tray`",
                );
                return Err(msg);
            },
        };
        let h = match home {
            Some(h) => h,
            None => {
                return Err(copy("HOME is not set"));
            },
        };
        proof {
            reveal_strlit(".local/share");
            reveal_strlit(".config");
        }
        let data_home = xdg_dir(data, path_join(h.as_str(), ".local/share"));
        let config_home = xdg_dir(config, path_join(h.as_str(), ".config"));
        Ok(
            Self::new(
                gui_bin.as_str(),
                tray_bin.as_str(),
                data_home.as_str(),
                config_home.as_str(),
            ),
        )
    }

    /// Every file: its path and its contents.
    pub fn files(&self) -> (r: [(&str, &str); 4])
        ensures
            (r@[0].0@, r@[0].1@) == self@.gui_desktop,
            (r@[1].0@, r@[1].1@) == self@.tray_desktop,
            (r@[2].0@, r@[2].1@) == self@.autostart,
            (r@[3].0@, r@[3].1@) == self@.icon,
    {
        [
            (self.gui_desktop.0.as_str(), self.gui_desktop.1.as_str()),
            (self.tray_desktop.0.as_str(), self.tray_desktop.1.as_str()),
            (self.autostart.0.as_str(), self.autostart.1.as_str()),
            (self.icon.0.as_str(), self.icon.1),
        ]
    }
}

/// A command line: the program and its arguments.
#[derive(Debug, PartialEq, Eq)]
pub struct CommandLine {
    pub program: String,
    pub args: Vec<String>,
}

/// The model of a [`CommandLine`].
#[verifier::ext_equal]
pub struct CommandView {
    pub program: Seq<char>,
    pub args: Seq<Seq<char>>,
}

impl View for CommandLine {
    type V = CommandView;

    open spec fn view(&self) -> CommandView {
        CommandView { program: self.program@, args: texts(self.args@) }
    }
}

/// The commands that tell the desktop about new or removed entries and icons.
pub open spec fn refresh_of(data_home: Seq<char>, stale_cache: bool) -> Seq<CommandView> {
    let menu = CommandView {
        program: "update-desktop-database"@,
        args: seq![path_joined(data_home, "applications"@)],
    };
    let icons = CommandView {
        program: "gtk-update-icon-cache"@,
        args: seq!["-q"@, "-t"@, "-f"@, path_joined(data_home, "icons/hicolor"@)],
    };
    let signal = CommandView {
        program: "dbus-send"@,
        args: seq![
            "--session"@,
            "--type=signal"@,
            "/KIconLoader"@,
            "org.kde.KIconLoader.iconChanged"@,
            "int32:0"@,
        ],
    };
    if stale_cache {
        seq![menu, icons, signal]
    } else {
        seq![menu, signal]
    }
}

/// The icon cache whose presence means that it has to be rebuilt.
pub fn icon_cache(data_home: &str) -> (r: String)
    ensures
        r@ == path_joined(path_joined(data_home@, "icons/hicolor"@), "icon-theme.cache"@),
{
    proof {
        reveal_strlit("icons/hicolor");
        reveal_strlit("icon-theme.cache");
    }
    path_join(path_join(data_home, "icons/hicolor").as_str(), "icon-theme.cache")
}

/// Tell the desktop about the new / removed entries and icon. Without this KDE and GTK keep
/// serving their caches and the menu shows the entry without its icon until the next login:
/// - `update-desktop-database`: the menu cache
/// - `gtk-update-icon-cache`: a stale `icon-theme.cache` in the user's hicolor dir (KDE reads it
///   too) is rebuilt; none is created when there was none
/// - the `org.kde.KIconLoader.iconChanged` D-Bus signal: running KDE apps drop their icon caches
pub fn refresh_desktop(data_home: &str, stale_cache: bool) -> (r: Vec<CommandLine>)
    ensures
        r@.map_values(|c: CommandLine| c@) == refresh_of(data_home@, stale_cache),
{
    proof {
        reveal_strlit("applications");
        reveal_strlit("icons/hicolor");
    }
    let mut out: Vec<CommandLine> = Vec::new();
    let mut menu: Vec<String> = Vec::new();
    push_copy(&mut menu, path_join(data_home, "applications").as_str());
    let ghost want = refresh_of(data_home@, stale_cache);
    assert(texts(menu@) =~= want[0].args);
    out.push(CommandLine { program: copy("update-desktop-database"), args: menu });
    if stale_cache {
        let mut icons: Vec<String> = Vec::new();
        push_copy(&mut icons, "-q");
        push_copy(&mut icons, "-t");
        push_copy(&mut icons, "-f");
        push_copy(&mut icons, path_join(data_home, "icons/hicolor").as_str());
        assert(texts(icons@) =~= want[1].args);
        out.push(CommandLine { program: copy("gtk-update-icon-cache"), args: icons });
    }
    let mut signal: Vec<String> = Vec::new();
    push_copy(&mut signal, "--session");
    push_copy(&mut signal, "--type=signal");
    push_copy(&mut signal, "/KIconLoader");
    push_copy(&mut signal, "org.kde.KIconLoader.iconChanged");
    push_copy(&mut signal, "int32:0");
    assert(texts(signal@) =~= want.last().args);
    out.push(CommandLine { program: copy("dbus-send"), args: signal });
    assert(out@.map_values(|c: CommandLine| c@) =~= want);
    out
}

// ------------------------------------------------------------------ laws

/// The two entries of the tray are the same.
pub proof fn tray_entries_agree(
    gui: Seq<char>,
    tray: Seq<char>,
    data_home: Seq<char>,
    config_home: Seq<char>,
)
    ensures
        planned(gui, tray, data_home, config_home).tray_desktop.1 == planned(
            gui,
            tray,
            data_home,
            config_home,
        ).autostart.1,
{
}

/// What [`escaped`] undoes: a backslash taken off the character after it.
pub open spec fn unescaped(s: Seq<char>) -> Seq<char>
    decreases s.len(),
{
    if s.len() == 0 {
        Seq::empty()
    } else if s[0] == '\\' && s.len() > 1 {
        seq![s[1]] + unescaped(s.skip(2))
    } else {
        seq![s[0]] + unescaped(s.skip(1))
    }
}

proof fn lemma_escaped_first(s: Seq<char>)
    requires
        s.len() > 0,
    ensures
        escaped(s) == (if is_reserved(s[0]) {
            seq!['\\', s[0]]
        } else {
            seq![s[0]]
        }) + escaped(s.drop_first()),
    decreases s.len(),
{
    reveal_with_fuel(escaped, 2);
    let head = if is_reserved(s[0]) {
        seq!['\\', s[0]]
    } else {
        seq![s[0]]
    };
    if s.len() == 1 {
        assert(s.drop_first() =~= Seq::empty());
        assert(s.drop_last() =~= Seq::empty());
        assert(escaped(s) =~= head + escaped(s.drop_first()));
    } else {
        lemma_escaped_first(s.drop_last());
        assert(s.drop_last().drop_first() =~= s.drop_first().drop_last());
        assert(s.drop_last()[0] == s[0]);
        assert(s.drop_first().last() == s.last());
        assert(escaped(s) =~= head + escaped(s.drop_first()));
    }
}

/// Escaping loses nothing: taking the backslashes off again gives the text back.
pub proof fn escaping_loses_nothing(s: Seq<char>)
    ensures
        unescaped(escaped(s)) == s,
    decreases s.len(),
{
    if s.len() == 0 {
        assert(unescaped(escaped(s)) =~= s);
    } else {
        let e = escaped(s);
        let rest = escaped(s.drop_first());
        lemma_escaped_first(s);
        escaping_loses_nothing(s.drop_first());
        if is_reserved(s[0]) {
            assert(e.skip(2) =~= rest);
        } else {
            assert(e[0] == s[0]);
            assert(e.skip(1) =~= rest);
        }
        assert(unescaped(e) =~= seq![s[0]] + s.drop_first());
        assert(seq![s[0]] + s.drop_first() =~= s);
    }
}

} // verus!
