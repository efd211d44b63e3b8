//! pacman / AUR helper queries and output parsing.
//!
//! The programs themselves are run by the application; this module says which program to run with
//! which arguments, and what their output means. Executables can be overridden by the
//! environment: `FUIDE_ARCH_PACMAN`, `FUIDE_ARCH_CHECKUPDATES`, `FUIDE_ARCH_AUR_HELPER` (a path;
//! `none` disables AUR support), `FUIDE_ARCH_PACCACHE`, `FUIDE_ARCH_PKEXEC`.
//!
//! Sizes and popularity are kept as the text that was printed, where it is a number: what they
//! amount to is a matter of floating point.

use crate::num::{decimal, is_fraction, number, parse_u32, reads_as_fraction, to_decimal};
use crate::text::{
    chars_of, contains, copies, copy, copy_opt, file_name, file_name_of, find, first_at, halves,
    includes, is_text, lines, lines_of, lowercase, opt, pieces_by, push_copy, same, same_str, slices,
    split_by, split_once, starts_with, string_of, strip_prefix, texts, to_lowercase, trim,
    trim_end_of, trimmed, trimmed_end_of, without_prefix, words, words_of,
};
use crate::utf8::{from_utf8_lossy, lossy};
use vstd::prelude::*;
use vstd::slice::slice_subrange;

verus! {

/// Why a package is installed.
#[derive(Clone, Copy, Debug, PartialEq, Eq, Structural, Hash)]
pub enum Reason {
    Unknown,
    Explicit,
    Dependency,
}

impl Default for Reason {
    fn default() -> (r: Self)
        ensures
            r == Reason::Unknown,
    {
        Reason::Unknown
    }
}

impl Reason {
    /// The short form shown in the listing.
    pub open spec fn label(self) -> Seq<char> {
        match self {
            Reason::Explicit => "EXPLICIT"@,
            Reason::Dependency => "DEP"@,
            Reason::Unknown => "--"@,
        }
    }

    /// The short form shown in the listing.
    pub fn tag(self) -> (r: &'static str)
        ensures
            r@ == self.label(),
    {
        match self {
            Reason::Explicit => "EXPLICIT",
            Reason::Dependency => "DEP",
            Reason::Unknown => "--",
        }
    }
}

/// One package as described by `pacman -Qi` / `-Si` / `<helper> -Si`.
#[derive(Debug, PartialEq)]
pub struct Package {
    pub name: String,
    pub version: String,
    pub desc: String,
    /// `core`, `extra`, `cachyos-v3` … `aur` for AUR packages, `local` for other foreign ones.
    pub repo: String,
    pub url: String,
    pub licenses: Vec<String>,
    pub groups: Vec<String>,
    pub provides: Vec<String>,
    pub depends: Vec<String>,
    pub optdepends: Vec<String>,
    pub required_by: Vec<String>,
    pub conflicts: Vec<String>,
    /// As printed: `9.68 MiB`; none where that is not a number.
    pub installed_size: Option<String>,
    /// Where the installed size stands among others: a larger size has a larger rank, 0 = unknown.
    /// The application ranks the sizes; none is set by parsing.
    pub size_rank: u64,
    /// As printed: `1330.50 KiB`; none where that is not a number.
    pub download_size: Option<String>,
    pub build_date: String,
    pub install_date: String,
    pub reason: Reason,
    pub packager: String,
    pub validated: String,
    /// True for `-Qi` records (the package is on this machine).
    pub installed: bool,
    /// Newer version known from the last check (`checkupdates` / `-Qua`).
    pub latest: Option<String>,
    /// No package requires it and it was installed as a dependency (`pacman -Qtdq`).
    pub orphan: bool,
    // AUR-only
    pub maintainer: String,
    pub votes: Option<u32>,
    /// As printed: `23.867764`; none where that is not a number.
    pub popularity: Option<String>,
    pub out_of_date: bool,
    pub last_modified: String,
}

/// The model of a [`Package`].
#[verifier::ext_equal]
pub struct PackageView {
    pub name: Seq<char>,
    pub version: Seq<char>,
    pub desc: Seq<char>,
    pub repo: Seq<char>,
    pub url: Seq<char>,
    pub licenses: Seq<Seq<char>>,
    pub groups: Seq<Seq<char>>,
    pub provides: Seq<Seq<char>>,
    pub depends: Seq<Seq<char>>,
    pub optdepends: Seq<Seq<char>>,
    pub required_by: Seq<Seq<char>>,
    pub conflicts: Seq<Seq<char>>,
    pub installed_size: Option<Seq<char>>,
    pub size_rank: u64,
    pub download_size: Option<Seq<char>>,
    pub build_date: Seq<char>,
    pub install_date: Seq<char>,
    pub reason: Reason,
    pub packager: Seq<char>,
    pub validated: Seq<char>,
    pub installed: bool,
    pub latest: Option<Seq<char>>,
    pub orphan: bool,
    pub maintainer: Seq<char>,
    pub votes: Option<u32>,
    pub popularity: Option<Seq<char>>,
    pub out_of_date: bool,
    pub last_modified: Seq<char>,
}

impl View for Package {
    type V = PackageView;

    open spec fn view(&self) -> PackageView {
        PackageView {
            name: self.name@,
            version: self.version@,
            desc: self.desc@,
            repo: self.repo@,
            url: self.url@,
            licenses: texts(self.licenses@),
            groups: texts(self.groups@),
            provides: texts(self.provides@),
            depends: texts(self.depends@),
            optdepends: texts(self.optdepends@),
            required_by: texts(self.required_by@),
            conflicts: texts(self.conflicts@),
            installed_size: opt(self.installed_size),
            size_rank: self.size_rank,
            download_size: opt(self.download_size),
            build_date: self.build_date@,
            install_date: self.install_date@,
            reason: self.reason,
            packager: self.packager@,
            validated: self.validated@,
            installed: self.installed,
            latest: opt(self.latest),
            orphan: self.orphan,
            maintainer: self.maintainer@,
            votes: self.votes,
            popularity: opt(self.popularity),
            out_of_date: self.out_of_date,
            last_modified: self.last_modified@,
        }
    }
}

impl PackageView {
    /// A package of which nothing is known.
    pub open spec fn blank() -> PackageView {
        PackageView {
            name: Seq::empty(),
            version: Seq::empty(),
            desc: Seq::empty(),
            repo: Seq::empty(),
            url: Seq::empty(),
            licenses: Seq::empty(),
            groups: Seq::empty(),
            provides: Seq::empty(),
            depends: Seq::empty(),
            optdepends: Seq::empty(),
            required_by: Seq::empty(),
            conflicts: Seq::empty(),
            installed_size: None,
            size_rank: 0,
            download_size: None,
            build_date: Seq::empty(),
            install_date: Seq::empty(),
            reason: Reason::Unknown,
            packager: Seq::empty(),
            validated: Seq::empty(),
            installed: false,
            latest: None,
            orphan: false,
            maintainer: Seq::empty(),
            votes: None,
            popularity: None,
            out_of_date: false,
            last_modified: Seq::empty(),
        }
    }

    /// It is from the AUR.
    pub open spec fn is_aur(self) -> bool {
        self.repo == "aur"@
    }

    /// It is in none of the repositories.
    pub open spec fn is_foreign(self) -> bool {
        self.repo == "aur"@ || self.repo == "local"@
    }

    /// A newer version is known.
    pub open spec fn outdated(self) -> bool {
        self.latest is Some
    }
}

/// The views of some packages.
pub open spec fn packages(v: Seq<Package>) -> Seq<PackageView> {
    v.map_values(|p: Package| p@)
}

impl Default for Package {
    fn default() -> (r: Self)
        ensures
            r@ == PackageView::blank(),
    {
        let r = Package {
            name: String::new(),
            version: String::new(),
            desc: String::new(),
            repo: String::new(),
            url: String::new(),
            licenses: Vec::new(),
            groups: Vec::new(),
            provides: Vec::new(),
            depends: Vec::new(),
            optdepends: Vec::new(),
            required_by: Vec::new(),
            conflicts: Vec::new(),
            installed_size: None,
            size_rank: 0,
            download_size: None,
            build_date: String::new(),
            install_date: String::new(),
            reason: Reason::Unknown,
            packager: String::new(),
            validated: String::new(),
            installed: false,
            latest: None,
            orphan: false,
            maintainer: String::new(),
            votes: None,
            popularity: None,
            out_of_date: false,
            last_modified: String::new(),
        };
        assert(r@ =~~= PackageView::blank());
        r
    }
}

impl Clone for Package {
    fn clone(&self) -> (r: Self)
        ensures
            r@ == self@,
    {
        Package {
            name: self.name.clone(),
            version: self.version.clone(),
            desc: self.desc.clone(),
            repo: self.repo.clone(),
            url: self.url.clone(),
            licenses: copies(&self.licenses),
            groups: copies(&self.groups),
            provides: copies(&self.provides),
            depends: copies(&self.depends),
            optdepends: copies(&self.optdepends),
            required_by: copies(&self.required_by),
            conflicts: copies(&self.conflicts),
            installed_size: copy_opt(&self.installed_size),
            size_rank: self.size_rank,
            download_size: copy_opt(&self.download_size),
            build_date: self.build_date.clone(),
            install_date: self.install_date.clone(),
            reason: self.reason,
            packager: self.packager.clone(),
            validated: self.validated.clone(),
            installed: self.installed,
            latest: copy_opt(&self.latest),
            orphan: self.orphan,
            maintainer: self.maintainer.clone(),
            votes: self.votes,
            popularity: copy_opt(&self.popularity),
            out_of_date: self.out_of_date,
            last_modified: self.last_modified.clone(),
        }
    }
}

impl Package {
    /// It is from the AUR.
    pub fn is_aur(&self) -> (r: bool)
        ensures
            r == self@.is_aur(),
    {
        is_text(&chars_of(self.repo.as_str()), "aur")
    }

    /// It is in none of the repositories.
    pub fn is_foreign(&self) -> (r: bool)
        ensures
            r == self@.is_foreign(),
    {
        let repo = chars_of(self.repo.as_str());
        is_text(&repo, "aur") || is_text(&repo, "local")
    }

    /// A newer version is known.
    pub fn outdated(&self) -> (r: bool)
        ensures
            r == self@.outdated(),
    {
        self.latest.is_some()
    }
}

/// A line of `pacman -Ss` / `<helper> -Ss`.
#[derive(Debug, PartialEq)]
pub struct SearchHit {
    pub repo: String,
    pub name: String,
    pub version: String,
    pub desc: String,
    pub installed: bool,
    pub installed_version: Option<String>,
    pub votes: Option<u32>,
    /// As printed: `0.24`.
    pub popularity: Option<String>,
    pub out_of_date: bool,
}

/// The model of a [`SearchHit`].
#[verifier::ext_equal]
pub struct HitView {
    pub repo: Seq<char>,
    pub name: Seq<char>,
    pub version: Seq<char>,
    pub desc: Seq<char>,
    pub installed: bool,
    pub installed_version: Option<Seq<char>>,
    pub votes: Option<u32>,
    pub popularity: Option<Seq<char>>,
    pub out_of_date: bool,
}

impl View for SearchHit {
    type V = HitView;

    open spec fn view(&self) -> HitView {
        HitView {
            repo: self.repo@,
            name: self.name@,
            version: self.version@,
            desc: self.desc@,
            installed: self.installed,
            installed_version: opt(self.installed_version),
            votes: self.votes,
            popularity: opt(self.popularity),
            out_of_date: self.out_of_date,
        }
    }
}

impl Clone for SearchHit {
    fn clone(&self) -> (r: Self)
        ensures
            r@ == self@,
    {
        SearchHit {
            repo: self.repo.clone(),
            name: self.name.clone(),
            version: self.version.clone(),
            desc: self.desc.clone(),
            installed: self.installed,
            installed_version: copy_opt(&self.installed_version),
            votes: self.votes,
            popularity: copy_opt(&self.popularity),
            out_of_date: self.out_of_date,
        }
    }
}

/// The views of some search hits.
pub open spec fn hits(v: Seq<SearchHit>) -> Seq<HitView> {
    v.map_values(|h: SearchHit| h@)
}

/// One pending update (`checkupdates` / `<helper> -Qua`).
#[derive(Debug, PartialEq, Eq, Hash)]
pub struct Upgrade {
    pub name: String,
    pub current: String,
    pub new: String,
    pub aur: bool,
}

/// The model of an [`Upgrade`].
#[verifier::ext_equal]
pub struct UpgradeView {
    pub name: Seq<char>,
    pub current: Seq<char>,
    pub new: Seq<char>,
    pub aur: bool,
}

impl View for Upgrade {
    type V = UpgradeView;

    open spec fn view(&self) -> UpgradeView {
        UpgradeView { name: self.name@, current: self.current@, new: self.new@, aur: self.aur }
    }
}

impl Clone for Upgrade {
    fn clone(&self) -> (r: Self)
        ensures
            r@ == self@,
    {
        Upgrade {
            name: self.name.clone(),
            current: self.current.clone(),
            new: self.new.clone(),
            aur: self.aur,
        }
    }
}

/// The views of some updates.
pub open spec fn upgrades(v: Seq<Upgrade>) -> Seq<UpgradeView> {
    v.map_values(|u: Upgrade| u@)
}

/// A copy of some updates.
pub fn copy_upgrades(v: &[Upgrade]) -> (r: Vec<Upgrade>)
    ensures
        upgrades(r@) == upgrades(v@),
{
    let mut out: Vec<Upgrade> = Vec::new();
    let mut i: usize = 0;
    while i < v.len()
        invariant
            i <= v.len(),
            out.len() == i,
            forall|j: int| 0 <= j < i ==> (#[trigger] out@[j])@ == v@[j]@,
        decreases v.len() - i,
    {
        out.push(v[i].clone());
        i += 1;
    }
    assert(upgrades(out@) =~= upgrades(v@));
    out
}

// ------------------------------------------------------------------ parsing: the rules

/// The entries of a list field, which two spaces separate; `None` is the empty list.
pub open spec fn list_of(v: Seq<char>) -> Seq<Seq<char>> {
    if v == "None"@ {
        Seq::empty()
    } else {
        nonblank(pieces_by(v, "  "@))
    }
}

/// The parts that are not blank, trimmed.
pub open spec fn nonblank(parts: Seq<Seq<char>>) -> Seq<Seq<char>>
    decreases parts.len(),
{
    if parts.len() == 0 {
        Seq::empty()
    } else {
        let t = trimmed(parts.last());
        if t.len() == 0 {
            nonblank(parts.drop_last())
        } else {
            nonblank(parts.drop_last()).push(t)
        }
    }
}

/// A value that may be absent, which is written `None`.
pub open spec fn or_empty(v: Seq<char>) -> Seq<char> {
    if v == "None"@ {
        Seq::empty()
    } else {
        v
    }
}

/// The install reason that a text states.
pub open spec fn reason_of(v: Seq<char>) -> Reason {
    if "Explicitly"@.is_prefix_of(v) {
        Reason::Explicit
    } else if "Installed as a dependency"@.is_prefix_of(v) {
        Reason::Dependency
    } else {
        Reason::Unknown
    }
}

/// The `u32` that a text denotes.
pub open spec fn u32_of(v: Seq<char>) -> Option<u32> {
    match number(v, u32::MAX as nat) {
        Some(n) => Some(n as u32),
        None => None,
    }
}

/// A package after one `Key : Value` field. Keys that are not known are passed over.
pub open spec fn with_field(p: PackageView, k: Seq<char>, v: Seq<char>) -> PackageView {
    if k == "Name"@ {
        PackageView { name: v, ..p }
    } else if k == "Version"@ {
        PackageView { version: v, ..p }
    } else if k == "Description"@ {
        PackageView { desc: or_empty(v), ..p }
    } else if k == "Repository"@ || k == "Installed From"@ {
        PackageView { repo: v, ..p }
    } else if k == "URL"@ {
        PackageView { url: or_empty(v), ..p }
    } else if k == "Licenses"@ {
        PackageView { licenses: list_of(v), ..p }
    } else if k == "Groups"@ {
        PackageView { groups: list_of(v), ..p }
    } else if k == "Provides"@ {
        PackageView { provides: list_of(v), ..p }
    } else if k == "Depends On"@ {
        PackageView { depends: list_of(v), ..p }
    } else if k == "Optional Deps"@ {
        PackageView { optdepends: list_of(v), ..p }
    } else if k == "Required By"@ {
        PackageView { required_by: list_of(v), ..p }
    } else if k == "Conflicts With"@ {
        PackageView { conflicts: list_of(v), ..p }
    } else if k == "Installed Size"@ {
        PackageView { installed_size: size_text(v), ..p }
    } else if k == "Download Size"@ {
        PackageView { download_size: size_text(v), ..p }
    } else if k == "Build Date"@ {
        PackageView { build_date: v, ..p }
    } else if k == "Install Date"@ {
        PackageView { install_date: v, ..p }
    } else if k == "Install Reason"@ {
        PackageView { reason: reason_of(v), ..p }
    } else if k == "Packager"@ {
        PackageView { packager: v, ..p }
    } else if k == "Maintainer"@ {
        PackageView { maintainer: v, ..p }
    } else if k == "Validated By"@ {
        PackageView { validated: v, ..p }
    } else if k == "Votes"@ {
        PackageView { votes: u32_of(v), ..p }
    } else if k == "Popularity"@ {
        PackageView { popularity: fraction_text(v), ..p }
    } else if k == "Out-of-date"@ {
        PackageView { out_of_date: v != "No"@, ..p }
    } else if k == "Last Modified"@ {
        PackageView { last_modified: v, ..p }
    } else {
        p
    }
}

/// A package after some fields, in order.
pub open spec fn with_fields(
    p: PackageView,
    fields: Seq<(Seq<char>, Seq<char>)>,
) -> PackageView
    decreases fields.len(),
{
    if fields.len() == 0 {
        p
    } else {
        with_field(
            with_fields(p, fields.drop_last()),
            fields.last().0,
            trimmed(fields.last().1),
        )
    }
}

/// The package that a block of fields describes: none where it has no name.
pub open spec fn block(
    fields: Seq<(Seq<char>, Seq<char>)>,
    installed: bool,
) -> Seq<PackageView> {
    let p = with_fields(PackageView { installed, ..PackageView::blank() }, fields);
    if p.name.len() == 0 {
        Seq::empty()
    } else {
        seq![p]
    }
}

/// The line continues the field before it, or the description of the hit before it.
pub open spec fn is_indented(line: Seq<char>) -> bool {
    line.len() > 0 && (line[0] == ' ' || line[0] == '\t')
}

/// The fields of the block that is still open after some lines.
pub open spec fn open_fields(lines: Seq<Seq<char>>) -> Seq<(Seq<char>, Seq<char>)>
    decreases lines.len(),
{
    if lines.len() == 0 {
        Seq::empty()
    } else {
        let f = open_fields(lines.drop_last());
        let l = lines.last();
        if trimmed(l).len() == 0 {
            Seq::empty()
        } else if is_indented(l) {
            if f.len() == 0 {
                f
            } else {
                f.drop_last().push((f.last().0, f.last().1 + "  "@ + trimmed(l)))
            }
        } else {
            match halves(l, ":"@) {
                Some((k, v)) => f.push((trimmed(k), trimmed(v))),
                None => f,
            }
        }
    }
}

/// The packages of the blocks that blank lines have closed.
pub open spec fn closed_packages(lines: Seq<Seq<char>>, installed: bool) -> Seq<PackageView>
    decreases lines.len(),
{
    if lines.len() == 0 {
        Seq::empty()
    } else {
        let before = closed_packages(lines.drop_last(), installed);
        if trimmed(lines.last()).len() == 0 {
            before + block(open_fields(lines.drop_last()), installed)
        } else {
            before
        }
    }
}

/// The packages that `Key : Value` blocks describe. Blank lines separate blocks; an indented line
/// continues the field before it.
pub open spec fn info(lines: Seq<Seq<char>>, installed: bool) -> Seq<PackageView> {
    closed_packages(lines, installed) + block(open_fields(lines), installed)
}

/// A hit after the words that follow its version: `[installed]`, `[installed: v]`,
/// `(+votes popularity)`, `[Out-of-date: …]`.
pub open spec fn with_marks(h: HitView, rest: Seq<Seq<char>>) -> HitView
    decreases rest.len(),
{
    if rest.len() == 0 {
        h
    } else if "[installed"@.is_prefix_of(rest[0]) {
        if rest[0] == "[installed:"@ && rest.len() > 1 {
            with_marks(
                HitView {
                    installed: true,
                    installed_version: Some(trimmed_end_of(rest[1], "]"@)),
                    ..h
                },
                rest.skip(2),
            )
        } else {
            with_marks(HitView { installed: true, ..h }, rest.skip(1))
        }
    } else if without_prefix(rest[0], "(+"@) is Some {
        let votes = u32_of(without_prefix(rest[0], "(+"@)->0);
        if rest.len() > 1 {
            with_marks(
                HitView { votes, popularity: fraction_text(trimmed_end_of(rest[1], ")"@)), ..h },
                rest.skip(2),
            )
        } else {
            with_marks(HitView { votes, ..h }, rest.skip(1))
        }
    } else if includes(rest[0], "Out-of-date"@) {
        with_marks(HitView { out_of_date: true, ..h }, rest.skip(1))
    } else {
        with_marks(h, rest.skip(1))
    }
}

/// The hit that the words of a line describe.
pub open spec fn hit_of(w: Seq<Seq<char>>) -> Option<HitView> {
    if w.len() < 2 {
        None
    } else {
        match halves(w[0], "/"@) {
            Some((repo, name)) => Some(
                with_marks(
                    HitView {
                        repo,
                        name,
                        version: w[1],
                        desc: Seq::empty(),
                        installed: false,
                        installed_version: None,
                        votes: None,
                        popularity: None,
                        out_of_date: false,
                    },
                    w.skip(2),
                ),
            ),
            None => None,
        }
    }
}

/// The hits that the lines of a search describe: one per line that is not indented, whose
/// description is the first indented line after it that is not blank.
pub open spec fn found(lines: Seq<Seq<char>>) -> Seq<HitView>
    decreases lines.len(),
{
    if lines.len() == 0 {
        Seq::empty()
    } else {
        let h = found(lines.drop_last());
        let l = lines.last();
        if is_indented(l) {
            if h.len() > 0 && h.last().desc.len() == 0 {
                h.drop_last().push(HitView { desc: trimmed(l), ..h.last() })
            } else {
                h
            }
        } else {
            match hit_of(words_of(l)) {
                Some(x) => h.push(x),
                None => h,
            }
        }
    }
}

/// The update that the words of a `name current -> new` line describe.
pub open spec fn upgrade_of(w: Seq<Seq<char>>, aur: bool) -> Option<UpgradeView> {
    if w.len() >= 4 && w[2] == "->"@ {
        Some(UpgradeView { name: w[0], current: w[1], new: w[3], aur })
    } else {
        None
    }
}

/// The updates that some lines describe.
pub open spec fn pending(lines: Seq<Seq<char>>, aur: bool) -> Seq<UpgradeView>
    decreases lines.len(),
{
    if lines.len() == 0 {
        Seq::empty()
    } else {
        let before = pending(lines.drop_last(), aur);
        match upgrade_of(words_of(lines.last()), aur) {
            Some(u) => before.push(u),
            None => before,
        }
    }
}

// ------------------------------------------------------------------ parsing: the code

fn list(v: &[char]) -> (r: Vec<String>)
    ensures
        texts(r@) == list_of(v@),
{
    let mut out: Vec<String> = Vec::new();
    if is_text(v, "None") {
        assert(texts(out@) =~= Seq::empty());
        return out;
    }
    proof {
        reveal_strlit("  ");
    }
    let parts = split_by(v, "  ");
    let ghost all = slices(parts@);
    let mut i: usize = 0;
    assert(texts(out@) =~= nonblank(all.take(0)));
    while i < parts.len()
        invariant
            i <= parts.len(),
            all == slices(parts@),
            texts(out@) == nonblank(all.take(i as int)),
        decreases parts.len() - i,
    {
        let ghost before = out@;
        let t = trim(parts[i]);
        assert(all.take(i + 1).drop_last() =~= all.take(i as int));
        assert(all.take(i + 1).last() == parts@[i as int]@);
        if t.len() > 0 {
            out.push(string_of(t));
            assert(texts(out@) =~= texts(before).push(t@));
        }
        i += 1;
    }
    assert(all.take(all.len() as int) =~= all);
    out
}

fn text_or_empty(v: &[char]) -> (r: String)
    ensures
        r@ == or_empty(v@),
{
    if is_text(v, "None") {
        String::new()
    } else {
        string_of(v)
    }
}

fn set_field(p: &mut Package, k: &[char], v: &[char])
    ensures
        final(p)@ == with_field(old(p)@, k@, v@),
{
    if is_text(k, "Name") {
        p.name = string_of(v);
    } else if is_text(k, "Version") {
        p.version = string_of(v);
    } else if is_text(k, "Description") {
        p.desc = text_or_empty(v);
    } else if is_text(k, "Repository") || is_text(k, "Installed From") {
        p.repo = string_of(v);
    } else if is_text(k, "URL") {
        p.url = text_or_empty(v);
    } else if is_text(k, "Licenses") {
        p.licenses = list(v);
    } else if is_text(k, "Groups") {
        p.groups = list(v);
    } else if is_text(k, "Provides") {
        p.provides = list(v);
    } else if is_text(k, "Depends On") {
        p.depends = list(v);
    } else if is_text(k, "Optional Deps") {
        p.optdepends = list(v);
    } else if is_text(k, "Required By") {
        p.required_by = list(v);
    } else if is_text(k, "Conflicts With") {
        p.conflicts = list(v);
    } else if is_text(k, "Installed Size") {
        p.installed_size = read_size(v);
    } else if is_text(k, "Download Size") {
        p.download_size = read_size(v);
    } else if is_text(k, "Build Date") {
        p.build_date = string_of(v);
    } else if is_text(k, "Install Date") {
        p.install_date = string_of(v);
    } else if is_text(k, "Install Reason") {
        p.reason =
        if starts_with(v, "Explicitly") {
            Reason::Explicit
        } else if starts_with(v, "Installed as a dependency") {
            Reason::Dependency
        } else {
            Reason::Unknown
        };
    } else if is_text(k, "Packager") {
        p.packager = string_of(v);
    } else if is_text(k, "Maintainer") {
        p.maintainer = string_of(v);
    } else if is_text(k, "Validated By") {
        p.validated = string_of(v);
    } else if is_text(k, "Votes") {
        p.votes = parse_u32(v);
    } else if is_text(k, "Popularity") {
        p.popularity = read_fraction(v);
    } else if is_text(k, "Out-of-date") {
        p.out_of_date = !is_text(v, "No");
    } else if is_text(k, "Last Modified") {
        p.last_modified = string_of(v);
    }
}

/// The views of some fields.
spec fn field_views(v: Seq<(Vec<char>, Vec<char>)>) -> Seq<(Seq<char>, Seq<char>)> {
    v.map_values(|x: (Vec<char>, Vec<char>)| (x.0@, x.1@))
}

/// The package of a closed block, added to `out`.
fn flush(fields: &Vec<(Vec<char>, Vec<char>)>, installed: bool, out: &mut Vec<Package>)
    ensures
        packages(final(out)@) == packages(old(out)@) + block(field_views(fields@), installed),
{
    let mut p = Package::default();
    p.installed = installed;
    let ghost start = PackageView { installed, ..PackageView::blank() };
    let ghost all = field_views(fields@);
    let mut i: usize = 0;
    assert(with_fields(start, all.take(0)) == start);
    while i < fields.len()
        invariant
            i <= fields.len(),
            all == field_views(fields@),
            p@ == with_fields(start, all.take(i as int)),
        decreases fields.len() - i,
    {
        assert(all.take(i + 1).drop_last() =~= all.take(i as int));
        assert(all.take(i + 1).last() == (fields@[i as int].0@, fields@[i as int].1@));
        set_field(&mut p, &fields[i].0, trim(&fields[i].1));
        i += 1;
    }
    assert(all.take(all.len() as int) =~= all);
    if chars_of(p.name.as_str()).len() > 0 {
        let ghost v = p@;
        out.push(p);
        assert(packages(out@) =~= packages(old(out)@) + seq![v]);
    } else {
        assert(packages(out@) =~= packages(old(out)@) + Seq::empty());
    }
}

fn indented(line: &[char]) -> (r: bool)
    ensures
        r == is_indented(line@),
{
    line.len() > 0 && (line[0] == ' ' || line[0] == '\t')
}

/// A copy of some characters.
fn owned(s: &[char]) -> (r: Vec<char>)
    ensures
        r@ == s@,
{
    vstd::slice::slice_to_vec(s)
}

/// Parse `Key : Value` blocks (`pacman -Qi` / `-Si`, `yay -Si`). Continuation lines are
/// indented; blocks are separated by blank lines. `installed` marks `-Qi` output.
pub fn parse_info(text: &str, installed: bool) -> (r: Vec<Package>)
    ensures
        packages(r@) == info(lines_of(text@), installed),
{
    let cs = chars_of(text);
    let ls = lines(&cs);
    let ghost all = slices(ls@);
    let mut out: Vec<Package> = Vec::new();
    let mut fields: Vec<(Vec<char>, Vec<char>)> = Vec::new();
    let mut i: usize = 0;
    assert(packages(out@) =~= closed_packages(all.take(0), installed));
    assert(field_views(fields@) =~= open_fields(all.take(0)));
    while i < ls.len()
        invariant
            i <= ls.len(),
            all == slices(ls@),
            packages(out@) == closed_packages(all.take(i as int), installed),
            field_views(fields@) == open_fields(all.take(i as int)),
        decreases ls.len() - i,
    {
        let line = ls[i];
        let ghost head = all.take(i + 1);
        assert(head.drop_last() =~= all.take(i as int));
        assert(head.last() == line@);
        let ghost before = field_views(fields@);
        if trim(line).len() == 0 {
            flush(&fields, installed, &mut out);
            fields = Vec::new();
            assert(field_views(fields@) =~= Seq::empty());
        } else if indented(line) {
            // continuation of the previous field (multi-line dependency lists)
            let ghost f0 = fields@;
            match fields.pop() {
                Some((k, v)) => {
                    let mut joined = v;
                    let mut gap = chars_of("  ");
                    let mut tail = owned(trim(line));
                    joined.append(&mut gap);
                    joined.append(&mut tail);
                    assert(before.last() == (k@, f0.last().1@));
                    fields.push((k, joined));
                    assert(field_views(fields@) =~= before.drop_last().push(
                        (before.last().0, before.last().1 + "  "@ + trimmed(line@)),
                    ));
                },
                None => {},
            }
        } else if let Some((k, v)) = split_once(line, ":") {
            // AUR helpers pad keys wider than pacman; keys never contain ':'
            fields.push((owned(trim(k)), owned(trim(v))));
            assert(field_views(fields@) =~= before.push((trimmed(k@), trimmed(v@))));
        }
        i += 1;
    }
    assert(all.take(all.len() as int) =~= all);
    flush(&fields, installed, &mut out);
    out
}

/// The marks after a hit's version read into it.
fn read_marks(start: SearchHit, rest: &[&[char]]) -> (r: SearchHit)
    ensures
        r@ == with_marks(start@, slices(rest@)),
{
    let mut h = start;
    let ghost all = slices(rest@);
    let mut i: usize = 0;
    assert(all.skip(0) =~= all);
    while i < rest.len()
        invariant
            i <= rest.len(),
            all == slices(rest@),
            with_marks(start@, all) == with_marks(h@, all.skip(i as int)),
        decreases rest.len() - i,
    {
        let t = rest[i];
        let ghost left = all.skip(i as int);
        assert(left[0] == t@);
        assert(left.skip(1) =~= all.skip(i + 1));
        assert(i + 1 < all.len() ==> left.skip(2) =~= all.skip(i + 2) && left[1] == rest@[i
            + 1]@);
        if starts_with(t, "[installed") {
            h.installed = true;
            if is_text(t, "[installed:") && i + 1 < rest.len() {
                h.installed_version = Some(string_of(trim_end_of(rest[i + 1], "]")));
                i += 1;
            }
        } else if let Some(v) = strip_prefix(t, "(+") {
            h.votes = parse_u32(v);
            if i + 1 < rest.len() {
                h.popularity = read_fraction(trim_end_of(rest[i + 1], ")"));
                i += 1;
            }
        } else if contains(t, "Out-of-date") {
            h.out_of_date = true;
        }
        i += 1;
    }
    h
}

/// The hit that a line describes.
fn read_hit(line: &[char]) -> (r: Option<SearchHit>)
    ensures
        match r {
            Some(h) => hit_of(words_of(line@)) == Some(h@),
            None => hit_of(words_of(line@)) is None,
        },
{
    let w = words(line);
    let ghost all = slices(w@);
    if w.len() < 2 {
        return None;
    }
    assert(all[0] == w@[0]@ && all[1] == w@[1]@);
    match split_once(w[0], "/") {
        Some((repo, name)) => {
            let h = SearchHit {
                repo: string_of(repo),
                name: string_of(name),
                version: string_of(w[1]),
                desc: String::new(),
                installed: false,
                installed_version: None,
                votes: None,
                popularity: None,
                out_of_date: false,
            };
            let rest = slice_subrange(w.as_slice(), 2, w.len());
            assert(slices(rest@) =~= all.skip(2));
            Some(read_marks(h, rest))
        },
        None => None,
    }
}

/// Parse `pacman -Ss` / `<helper> -Ss` output:
/// `repo/name version [installed]` (or `[installed: v]`, AUR: `(+votes popularity) [Out-of-date: …]`)
/// followed by an indented description line.
pub fn parse_search(text: &str) -> (r: Vec<SearchHit>)
    ensures
        hits(r@) == found(lines_of(text@)),
{
    let cs = chars_of(text);
    let ls = lines(&cs);
    let ghost all = slices(ls@);
    let mut out: Vec<SearchHit> = Vec::new();
    let mut i: usize = 0;
    assert(hits(out@) =~= found(all.take(0)));
    while i < ls.len()
        invariant
            i <= ls.len(),
            all == slices(ls@),
            hits(out@) == found(all.take(i as int)),
        decreases ls.len() - i,
    {
        let line = ls[i];
        assert(all.take(i + 1).drop_last() =~= all.take(i as int));
        assert(all.take(i + 1).last() == line@);
        let ghost before = hits(out@);
        if indented(line) {
            let ghost o = out@;
            match out.pop() {
                Some(h) => {
                    let mut h = h;
                    assert(before.last() == o.last()@);
                    if chars_of(h.desc.as_str()).len() == 0 {
                        h.desc = string_of(trim(line));
                        out.push(h);
                        assert(hits(out@) =~= before.drop_last().push(
                            HitView { desc: trimmed(line@), ..before.last() },
                        ));
                    } else {
                        out.push(h);
                        assert(hits(out@) =~= before);
                    }
                },
                None => {},
            }
        } else if let Some(h) = read_hit(line) {
            let ghost v = h@;
            out.push(h);
            assert(hits(out@) =~= before.push(v));
        }
        i += 1;
    }
    assert(all.take(all.len() as int) =~= all);
    out
}

/// The update that a line describes.
fn read_upgrade(line: &[char], aur: bool) -> (r: Option<Upgrade>)
    ensures
        match r {
            Some(u) => upgrade_of(words_of(line@), aur) == Some(u@),
            None => upgrade_of(words_of(line@), aur) is None,
        },
{
    let w = words(line);
    let ghost all = slices(w@);
    if w.len() < 4 {
        return None;
    }
    assert(all[0] == w@[0]@ && all[1] == w@[1]@ && all[2] == w@[2]@ && all[3] == w@[3]@);
    if !is_text(w[2], "->") {
        return None;
    }
    Some(
        Upgrade {
            name: string_of(w[0]),
            current: string_of(w[1]),
            new: string_of(w[3]),
            aur,
        },
    )
}

/// `name current -> new` lines (`checkupdates`, `<helper> -Qua`).
pub fn parse_upgrades(text: &str, aur: bool) -> (r: Vec<Upgrade>)
    ensures
        upgrades(r@) == pending(lines_of(text@), aur),
{
    let cs = chars_of(text);
    let ls = lines(&cs);
    let ghost all = slices(ls@);
    let mut out: Vec<Upgrade> = Vec::new();
    let mut i: usize = 0;
    assert(upgrades(out@) =~= pending(all.take(0), aur));
    while i < ls.len()
        invariant
            i <= ls.len(),
            all == slices(ls@),
            upgrades(out@) == pending(all.take(i as int), aur),
        decreases ls.len() - i,
    {
        assert(all.take(i + 1).drop_last() =~= all.take(i as int));
        assert(all.take(i + 1).last() == ls@[i as int]@);
        let ghost before = upgrades(out@);
        if let Some(u) = read_upgrade(ls[i], aur) {
            let ghost v = u@;
            out.push(u);
            assert(upgrades(out@) =~= before.push(v));
        }
        i += 1;
    }
    assert(all.take(all.len() as int) =~= all);
    out
}

// ------------------------------------------------------------------ executables

/// `value`, or `default` where the variable is not set.
pub open spec fn setting(value: Option<String>, default: Seq<char>) -> Seq<char> {
    match value {
        Some(v) => v@,
        None => default,
    }
}

fn env_path(value: Option<String>, default: &str) -> (r: String)
    ensures
        r@ == setting(value, default@),
{
    match value {
        Some(v) => v,
        None => copy(default),
    }
}

/// The pacman to run: the value of `FUIDE_ARCH_PACMAN`, else `pacman`.
pub fn pacman_bin(var: Option<String>) -> (r: String)
    ensures
        r@ == setting(var, "pacman"@),
{
    env_path(var, "pacman")
}

/// The checkupdates to run: the value of `FUIDE_ARCH_CHECKUPDATES`, else `checkupdates`.
pub fn checkupdates_bin(var: Option<String>) -> (r: String)
    ensures
        r@ == setting(var, "checkupdates"@),
{
    env_path(var, "checkupdates")
}

/// The paccache to run: the value of `FUIDE_ARCH_PACCACHE`, else `paccache`.
pub fn paccache_bin(var: Option<String>) -> (r: String)
    ensures
        r@ == setting(var, "paccache"@),
{
    env_path(var, "paccache")
}

/// A setting that `none` or nothing switches off.
pub open spec fn unless_none(v: Seq<char>) -> Option<Seq<char>> {
    if v == "none"@ || v.len() == 0 {
        None
    } else {
        Some(v)
    }
}

fn enabled(v: String) -> (r: Option<String>)
    ensures
        opt(r) == unless_none(v@),
{
    let cs = chars_of(v.as_str());
    if is_text(&cs, "none") || cs.len() == 0 {
        None
    } else {
        Some(v)
    }
}

/// The AUR helper to use: the value of `FUIDE_ARCH_AUR_HELPER` (path, or `none`), else the first
/// of `yay`, `paru`, `pikaur` that is on `PATH`.
pub fn aur_helper(var: Option<String>, yay: bool, paru: bool, pikaur: bool) -> (r: Option<String>)
    ensures
        opt(r) == match var {
            Some(v) => unless_none(v@),
            None => if yay {
                Some("yay"@)
            } else if paru {
                Some("paru"@)
            } else if pikaur {
                Some("pikaur"@)
            } else {
                None
            },
        },
{
    match var {
        Some(v) => enabled(v),
        None => if yay {
            Some(copy("yay"))
        } else if paru {
            Some(copy("paru"))
        } else if pikaur {
            Some(copy("pikaur"))
        } else {
            None
        },
    }
}

/// `pkexec` where it is on `PATH` (polkit: the desktop shows its own password dialog). The value
/// of `FUIDE_ARCH_PKEXEC` overrides it (`none` disables root commands).
pub fn privilege_cmd(var: Option<String>, pkexec: bool) -> (r: Option<String>)
    ensures
        opt(r) == match var {
            Some(v) => unless_none(v@),
            None => if pkexec {
                Some("pkexec"@)
            } else {
                None
            },
        },
{
    match var {
        Some(v) => enabled(v),
        None => if pkexec {
            Some(copy("pkexec"))
        } else {
            None
        },
    }
}

/// The arguments that make a helper use `privilege`, `name` being the helper's file name in lower
/// case.
pub open spec fn sudo_args(name: Seq<char>, privilege: Seq<char>) -> Seq<Seq<char>> {
    if includes(name, "yay"@) || includes(name, "paru"@) {
        seq!["--sudo"@, privilege]
    } else {
        Seq::empty()
    }
}

/// The arguments that make the helper at a path use `privilege`.
pub open spec fn helper_sudo(helper: Seq<char>, privilege: Seq<char>) -> Seq<Seq<char>> {
    match file_name_of(helper) {
        Some(n) => sudo_args(lowercase(n), privilege),
        None => sudo_args(Seq::empty(), privilege),
    }
}

/// [`helper_sudo_args`] for a helper whose file name in lower case is `name`.
pub fn sudo_args_for(name: &str, privilege: &str) -> (r: Vec<String>)
    ensures
        texts(r@) == sudo_args(name@, privilege@),
{
    let cs = chars_of(name);
    let mut out: Vec<String> = Vec::new();
    if contains(&cs, "yay") || contains(&cs, "paru") {
        push_copy(&mut out, "--sudo");
        push_copy(&mut out, privilege);
    }
    assert(texts(out@) =~= sudo_args(name@, privilege@));
    out
}

/// How an AUR helper is told to use `privilege` instead of `sudo`: yay and paru take
/// `--sudo <cmd>`; other helpers get nothing (they will use their own default).
pub fn helper_sudo_args(helper: &str, privilege: &str) -> (r: Vec<String>)
    ensures
        texts(r@) == helper_sudo(helper@, privilege@),
{
    let cs = chars_of(helper);
    let name = match file_name(&cs) {
        Some(n) => to_lowercase(string_of(n).as_str()),
        None => String::new(),
    };
    sudo_args_for(name.as_str(), privilege)
}

/// Whether checkupdates can be run: `bin` names a file by its absolute path, or is on `PATH`.
pub fn has_checkupdates(bin: &str, is_file: bool, on_path: bool) -> (r: bool)
    ensures
        r == (("/"@.is_prefix_of(bin@) && is_file) || on_path),
{
    (starts_with(&chars_of(bin), "/") && is_file) || on_path
}

// ------------------------------------------------------------------ running

/// What a program that was run left behind.
#[derive(Debug, PartialEq, Eq)]
pub struct ToolOutput {
    pub success: bool,
    /// The exit code; `None` where a signal ended it.
    pub code: Option<i32>,
    pub stdout: Vec<u8>,
    pub stderr: Vec<u8>,
}

/// The view of a program's result.
pub open spec fn result(r: Result<String, String>) -> Result<Seq<char>, Seq<char>> {
    match r {
        Ok(s) => Ok(s@),
        Err(e) => Err(e@),
    }
}

/// The environment of every tool that is run.
#[derive(Debug, PartialEq, Eq)]
pub struct Environment {
    /// Names and values.
    pub set: Vec<(String, String)>,
    pub removed: Vec<String>,
}

/// The environment in which tools are run: in English, so that what they print can be read.
pub fn environment() -> (r: Environment)
    ensures
        r.set@.map_values(|x: (String, String)| (x.0@, x.1@)) == seq![("LC_ALL"@, "C.UTF-8"@)],
        texts(r.removed@) == seq!["LANGUAGE"@],
{
    let mut set: Vec<(String, String)> = Vec::new();
    set.push((copy("LC_ALL"), copy("C.UTF-8")));
    let mut removed: Vec<String> = Vec::new();
    push_copy(&mut removed, "LANGUAGE");
    assert(set@.map_values(|x: (String, String)| (x.0@, x.1@)) =~= seq![("LC_ALL"@, "C.UTF-8"@)]);
    assert(texts(removed@) =~= seq!["LANGUAGE"@]);
    Environment { set, removed }
}

/// Why a program failed.
#[derive(Clone, Debug, PartialEq, Eq)]
pub enum Failure {
    /// It ended with this exit code (-1 where a signal ended it) and complained of nothing.
    Exit(i32),
    /// What it complained of, or why it could not be run.
    Message(String),
}

/// The model of a [`Failure`].
#[verifier::ext_equal]
pub enum FailureView {
    Exit(i32),
    Message(Seq<char>),
}

impl View for Failure {
    type V = FailureView;

    open spec fn view(&self) -> FailureView {
        match self {
            Failure::Exit(c) => FailureView::Exit(*c),
            Failure::Message(m) => FailureView::Message(m@),
        }
    }
}

impl FailureView {
    /// The failure in words.
    pub open spec fn text(self) -> Seq<char> {
        match self {
            FailureView::Exit(c) => "exit code "@ + crate::num::signed(c as int),
            FailureView::Message(m) => m,
        }
    }
}

impl Failure {
    /// The failure in words.
    pub fn text(self) -> (r: String)
        ensures
            r@ == self@.text(),
    {
        match self {
            Failure::Exit(c) => {
                let mut msg = copy("exit code ");
                msg.push_str(crate::num::to_signed(c).as_str());
                msg
            },
            Failure::Message(m) => m,
        }
    }
}

/// The view of a program's result.
pub open spec fn run_result(r: Result<String, Failure>) -> Result<Seq<char>, FailureView> {
    match r {
        Ok(s) => Ok(s@),
        Err(e) => Err(e@),
    }
}

/// The result of a program that ended: its output, or what it complained of, or its exit code.
pub open spec fn ended(
    success: bool,
    code: Option<i32>,
    out: Seq<char>,
    err: Seq<char>,
) -> Result<Seq<char>, FailureView> {
    if success {
        Ok(out)
    } else if trimmed(err).len() > 0 {
        Err(FailureView::Message(trimmed(err)))
    } else {
        Err(
            FailureView::Exit(
                match code {
                    Some(c) => c,
                    None => -1i32,
                },
            ),
        )
    }
}

/// The result of a program that ended, `out` and `err` being the texts that it printed.
pub fn outcome(success: bool, code: Option<i32>, out: String, err: &str) -> (r: Result<
    String,
    Failure,
>)
    ensures
        run_result(r) == ended(success, code, out@, err@),
{
    if success {
        return Ok(out);
    }
    let cs = chars_of(err);
    let t = trim(&cs);
    if t.len() > 0 {
        return Err(Failure::Message(string_of(t)));
    }
    Err(
        Failure::Exit(
            match code {
                Some(c) => c,
                None => -1,
            },
        ),
    )
}

/// The result of running `program`: `output`, or the reason why it could not be run. `Ok` is what
/// it printed; `Err` carries what it complained of (or the reason).
pub fn run(program: &str, output: Result<ToolOutput, String>) -> (r: Result<String, Failure>)
    ensures
        run_result(r) == match output {
            Ok(o) => ended(o.success, o.code, lossy(o.stdout@), lossy(o.stderr@)),
            Err(e) => Err(FailureView::Message(program@ + ": "@ + e@)),
        },
{
    match output {
        Ok(o) => {
            let out = from_utf8_lossy(&o.stdout);
            let err = from_utf8_lossy(&o.stderr);
            outcome(o.success, o.code, out, err.as_str())
        },
        Err(e) => {
            let mut msg = copy(program);
            msg.push_str(": ");
            msg.push_str(e.as_str());
            Err(Failure::Message(msg))
        },
    }
}

/// Any failure taken as one.
pub open spec fn strict(r: Result<Seq<char>, FailureView>) -> Result<Seq<char>, Seq<char>> {
    match r {
        Ok(s) => Ok(s),
        Err(e) => Err(e.text()),
    }
}

/// A failure without a complaint taken as "no results".
pub open spec fn lenient(r: Result<Seq<char>, FailureView>) -> Result<Seq<char>, Seq<char>> {
    match r {
        Err(FailureView::Exit(_)) => Ok(Seq::empty()),
        _ => strict(r),
    }
}

/// A non-zero exit with empty stderr taken as "no results" (`pacman -Ss` and `checkupdates` exit
/// 1 / 2 when nothing matches). `r` is what [`run`] gave.
pub fn run_lenient(r: Result<String, Failure>) -> (s: Result<String, String>)
    ensures
        result(s) == lenient(run_result(r)),
{
    match r {
        Ok(s) => Ok(s),
        Err(Failure::Exit(_)) => Ok(String::new()),
        Err(Failure::Message(m)) => Err(m),
    }
}

/// The command line of a program, given as words.
fn args2(a: &str, b: &str) -> (r: Vec<String>)
    ensures
        texts(r@) == seq![a@, b@],
{
    let mut out: Vec<String> = Vec::new();
    push_copy(&mut out, a);
    push_copy(&mut out, b);
    assert(texts(out@) =~= seq![a@, b@]);
    out
}

fn args3(a: &str, b: &str, c: &str) -> (r: Vec<String>)
    ensures
        texts(r@) == seq![a@, b@, c@],
{
    let mut out = args2(a, b);
    push_copy(&mut out, c);
    assert(texts(out@) =~= seq![a@, b@, c@]);
    out
}

fn args4(a: &str, b: &str, c: &str, d: &str) -> (r: Vec<String>)
    ensures
        texts(r@) == seq![a@, b@, c@, d@],
{
    let mut out = args3(a, b, c);
    push_copy(&mut out, d);
    assert(texts(out@) =~= seq![a@, b@, c@, d@]);
    out
}

fn with_names(args: Vec<String>, names: &[String]) -> (r: Vec<String>)
    ensures
        texts(r@) == texts(args@) + texts(names@),
{
    let mut out = args;
    let mut more = copies(names);
    let ghost m = texts(more@);
    let ghost a = texts(out@);
    out.append(&mut more);
    assert(texts(out@) =~= a + m);
    out
}

// ------------------------------------------------------------------ queries

/// The arguments of the query for every installed package.
pub fn installed_args() -> (r: Vec<String>)
    ensures
        texts(r@) == seq!["-Qi"@, "--color"@, "never"@],
{
    args3("-Qi", "--color", "never")
}

/// The arguments of the query for foreign packages.
pub fn foreign_args() -> (r: Vec<String>)
    ensures
        texts(r@) == seq!["-Qmq"@],
{
    let mut out: Vec<String> = Vec::new();
    push_copy(&mut out, "-Qmq");
    assert(texts(out@) =~= seq!["-Qmq"@]);
    out
}

/// The arguments of the query for orphans.
pub fn orphan_args() -> (r: Vec<String>)
    ensures
        texts(r@) == seq!["-Qtdq"@],
{
    let mut out: Vec<String> = Vec::new();
    push_copy(&mut out, "-Qtdq");
    assert(texts(out@) =~= seq!["-Qtdq"@]);
    out
}

/// The arguments of the query for everything in the sync databases.
pub fn sync_list_args() -> (r: Vec<String>)
    ensures
        texts(r@) == seq!["-Sl"@, "--color"@, "never"@],
{
    args3("-Sl", "--color", "never")
}

/// The arguments of the check for AUR updates.
pub fn check_aur_args() -> (r: Vec<String>)
    ensures
        texts(r@) == seq!["-Qua"@, "--color"@, "never"@],
{
    args3("-Qua", "--color", "never")
}

/// The arguments of the check for repo updates.
pub fn check_repo_args() -> (r: Vec<String>)
    ensures
        texts(r@) == seq!["--nocolor"@],
{
    let mut out: Vec<String> = Vec::new();
    push_copy(&mut out, "--nocolor");
    assert(texts(out@) =~= seq!["--nocolor"@]);
    out
}

/// The arguments of a search in the repos.
pub fn search_repo_args(query: &str) -> (r: Vec<String>)
    ensures
        texts(r@) == seq!["-Ss"@, "--color"@, "never"@, query@],
{
    args4("-Ss", "--color", "never", query)
}

/// The arguments of a search in the AUR.
pub fn search_aur_args(query: &str) -> (r: Vec<String>)
    ensures
        texts(r@) == seq!["-Ss"@, "--aur"@, "--color"@, "never"@, query@],
{
    let mut out = args4("-Ss", "--aur", "--color", "never");
    push_copy(&mut out, query);
    assert(texts(out@) =~= seq!["-Ss"@, "--aur"@, "--color"@, "never"@, query@]);
    out
}

/// The arguments of the query for the details of repo packages.
pub fn info_repo_args(names: &[String]) -> (r: Vec<String>)
    ensures
        texts(r@) == seq!["-Si"@, "--color"@, "never"@] + texts(names@),
{
    with_names(args3("-Si", "--color", "never"), names)
}

/// The arguments of the query for the details of AUR packages.
pub fn info_aur_args(names: &[String]) -> (r: Vec<String>)
    ensures
        texts(r@) == seq!["-Si"@, "--aur"@, "--color"@, "never"@] + texts(names@),
{
    with_names(args4("-Si", "--aur", "--color", "never"), names)
}

/// The argument of `paccache` that counts what keeping `keep` versions would prune.
pub fn cache_args(keep: u32) -> (r: String)
    ensures
        r@ == "-dk"@ + decimal(keep as nat),
{
    let mut out = copy("-dk");
    out.push_str(to_decimal(keep as u64).as_str());
    out
}

/// One line of `pacman -Sl`.
#[derive(Debug, PartialEq, Eq)]
pub struct SyncEntry {
    pub name: String,
    pub repo: String,
    pub version: String,
}

/// The model of a [`SyncEntry`].
#[verifier::ext_equal]
pub struct SyncView {
    pub name: Seq<char>,
    pub repo: Seq<char>,
    pub version: Seq<char>,
}

impl View for SyncEntry {
    type V = SyncView;

    open spec fn view(&self) -> SyncView {
        SyncView { name: self.name@, repo: self.repo@, version: self.version@ }
    }
}

/// The views of some sync entries.
pub open spec fn entries(v: Seq<SyncEntry>) -> Seq<SyncView> {
    v.map_values(|e: SyncEntry| e@)
}

/// The index of the entry of that name, or the number of entries.
pub open spec fn entry_at(v: Seq<SyncView>, name: Seq<char>) -> nat
    decreases v.len(),
{
    if v.len() == 0 || v[0].name == name {
        0
    } else {
        1 + entry_at(v.drop_first(), name)
    }
}

/// The entries of `repo name version …` lines: of several with one name, the first.
pub open spec fn synced(lines: Seq<Seq<char>>) -> Seq<SyncView>
    decreases lines.len(),
{
    if lines.len() == 0 {
        Seq::empty()
    } else {
        let before = synced(lines.drop_last());
        let w = words_of(lines.last());
        if w.len() < 3 || entry_at(before, w[1]) < before.len() {
            before
        } else {
            before.push(SyncView { name: w[1], repo: w[0], version: w[2] })
        }
    }
}

fn find_entry(v: &Vec<SyncEntry>, name: &str) -> (r: usize)
    ensures
        r == entry_at(entries(v@), name@),
        r <= v.len(),
{
    let ghost all = entries(v@);
    let mut i: usize = 0;
    assert(all.skip(0) =~= all);
    while i < v.len()
        invariant
            i <= v.len(),
            all == entries(v@),
            entry_at(all, name@) == i + entry_at(all.skip(i as int), name@),
        decreases v.len() - i,
    {
        assert(all.skip(i as int)[0] == v@[i as int]@);
        assert(all.skip(i as int).drop_first() =~= all.skip(i + 1));
        if same_str(v[i].name.as_str(), name) {
            return i;
        }
        i += 1;
    }
    i
}

/// The repo and version of every package in the sync databases, by name. `r` is the result of
/// `pacman -Sl`.
pub fn sync_list(r: Result<String, Failure>) -> (s: Result<Vec<SyncEntry>, String>)
    ensures
        match lenient(run_result(r)) {
            Ok(t) => s is Ok && entries(s->Ok_0@) == synced(lines_of(t)),
            Err(e) => s is Err && s->Err_0@ == e,
        },
{
    let text = match run_lenient(r) {
        Ok(t) => t,
        Err(e) => {
            return Err(e);
        },
    };
    let cs = chars_of(text.as_str());
    let ls = lines(&cs);
    let ghost all = slices(ls@);
    let mut out: Vec<SyncEntry> = Vec::new();
    let mut i: usize = 0;
    assert(entries(out@) =~= synced(all.take(0)));
    while i < ls.len()
        invariant
            i <= ls.len(),
            all == slices(ls@),
            entries(out@) == synced(all.take(i as int)),
        decreases ls.len() - i,
    {
        assert(all.take(i + 1).drop_last() =~= all.take(i as int));
        assert(all.take(i + 1).last() == ls@[i as int]@);
        let ghost before = entries(out@);
        let w = words(ls[i]);
        let ghost ws = slices(w@);
        if w.len() >= 3 {
            assert(ws[0] == w@[0]@ && ws[1] == w@[1]@ && ws[2] == w@[2]@);
            let name = string_of(w[1]);
            if find_entry(&out, name.as_str()) >= out.len() {
                out.push(
                    SyncEntry {
                        name,
                        repo: string_of(w[0]),
                        version: string_of(w[2]),
                    },
                );
                assert(entries(out@) =~= before.push(
                    SyncView { name: ws[1], repo: ws[0], version: ws[2] },
                ));
            }
        }
        i += 1;
    }
    assert(all.take(all.len() as int) =~= all);
    Ok(out)
}

/// The names that a listing gives, one per line.
pub open spec fn names_of(text: Seq<char>) -> Seq<Seq<char>> {
    lines_of(text).map_values(|l: Seq<char>| trimmed(l))
}

/// Whether a listing gives that name.
fn lists(ls: &Vec<&[char]>, name: &[char]) -> (r: bool)
    ensures
        r == slices(ls@).map_values(|l: Seq<char>| trimmed(l)).contains(name@),
{
    let ghost all = slices(ls@).map_values(|l: Seq<char>| trimmed(l));
    let mut i: usize = 0;
    while i < ls.len()
        invariant
            i <= ls.len(),
            all == slices(ls@).map_values(|l: Seq<char>| trimmed(l)),
            forall|j: int| 0 <= j < i ==> all[j] != name@,
        decreases ls.len() - i,
    {
        assert(all[i as int] == trimmed(ls@[i as int]@));
        if same(trim(ls[i]), name) {
            return true;
        }
        i += 1;
    }
    false
}

/// The package lacks the repo that it came from.
pub open spec fn lacks_repo(p: PackageView) -> bool {
    p.repo.len() == 0 || p.repo == "None"@
}

fn no_repo(p: &Package) -> (r: bool)
    ensures
        r == lacks_repo(p@),
{
    let cs = chars_of(p.repo.as_str());
    cs.len() == 0 || is_text(&cs, "None")
}

/// Whether some package lacks its repo, so that [`sync_list`] is asked for.
pub fn needs_sync(pkgs: &Vec<Package>) -> (r: bool)
    ensures
        r == exists|i: int| 0 <= i < pkgs.len() && lacks_repo(#[trigger] packages(pkgs@)[i]),
{
    let mut i: usize = 0;
    while i < pkgs.len()
        invariant
            i <= pkgs.len(),
            forall|j: int| 0 <= j < i ==> !lacks_repo(#[trigger] packages(pkgs@)[j]),
        decreases pkgs.len() - i,
    {
        assert(packages(pkgs@)[i as int] == pkgs@[i as int]@);
        if no_repo(&pkgs[i]) {
            return true;
        }
        i += 1;
    }
    false
}

/// A package with its repo settled: `aur` (or `local` without a helper) for a foreign one, the one
/// in the sync databases (else `repo`) where its record lacks it; and marked when it is an orphan.
pub open spec fn placed_package(
    p: PackageView,
    foreign: Seq<Seq<char>>,
    orphans: Seq<Seq<char>>,
    sync: Seq<SyncView>,
    helper: bool,
) -> PackageView {
    let k = entry_at(sync, p.name);
    let repo = if foreign.contains(p.name) {
        if helper {
            "aur"@
        } else {
            "local"@
        }
    } else if lacks_repo(p) {
        if k < sync.len() {
            sync[k as int].repo
        } else {
            "repo"@
        }
    } else {
        p.repo
    };
    PackageView { repo, orphan: orphans.contains(p.name), ..p }
}

/// Every installed package with its details, the foreign and the orphan ones marked. The four
/// results are those of the queries for all packages, the foreign ones, the orphans and the sync
/// databases (which only counts where [`needs_sync`] asks for it); `helper` says whether there is
/// an AUR helper.
pub fn installed(
    all: Result<String, Failure>,
    foreign: Result<String, Failure>,
    orphans: Result<String, Failure>,
    sync: Result<String, Failure>,
    helper: bool,
) -> (r: Result<Vec<Package>, String>)
    ensures
        match (strict(run_result(all)), lenient(run_result(foreign)), lenient(run_result(orphans))) {
            (Err(e), _, _) => r is Err && r->Err_0@ == e,
            (Ok(_), Err(e), _) => r is Err && r->Err_0@ == e,
            (Ok(_), Ok(_), Err(e)) => r is Err && r->Err_0@ == e,
            (Ok(t), Ok(f), Ok(o)) => r is Ok && packages(r->Ok_0@) == info(
                lines_of(t),
                true,
            ).map_values(
                |p: PackageView|
                    placed_package(
                        p,
                        names_of(f),
                        names_of(o),
                        match lenient(run_result(sync)) {
                            Ok(s) => synced(lines_of(s)),
                            Err(_) => Seq::empty(),
                        },
                        helper,
                    ),
            ),
        },
{
    let text = match all {
        Ok(t) => t,
        Err(e) => {
            return Err(e.text());
        },
    };
    let foreign_text = match run_lenient(foreign) {
        Ok(t) => t,
        Err(e) => {
            return Err(e);
        },
    };
    let orphan_text = match run_lenient(orphans) {
        Ok(t) => t,
        Err(e) => {
            return Err(e);
        },
    };
    let known: Vec<SyncEntry> = match sync_list(sync) {
        Ok(v) => v,
        Err(_) => Vec::new(),
    };
    let ghost sync_view = match lenient(run_result(sync)) {
        Ok(s) => synced(lines_of(s)),
        Err(_) => Seq::empty(),
    };
    assert(entries(known@) =~= sync_view);
    let mut pkgs = parse_info(text.as_str(), true);
    let ghost before = packages(pkgs@);
    let fc = chars_of(foreign_text.as_str());
    let fl = lines(&fc);
    let oc = chars_of(orphan_text.as_str());
    let ol = lines(&oc);
    let mut done: Vec<Package> = Vec::new();
    let mut i: usize = 0;
    let ghost f = names_of(foreign_text@);
    let ghost o = names_of(orphan_text@);
    while i < pkgs.len()
        invariant
            i <= pkgs.len(),
            before == packages(pkgs@),
            done.len() == i,
            entries(known@) == sync_view,
            f == slices(fl@).map_values(|l: Seq<char>| trimmed(l)),
            o == slices(ol@).map_values(|l: Seq<char>| trimmed(l)),
            forall|j: int|
                0 <= j < i ==> (#[trigger] done@[j])@ == placed_package(
                    before[j],
                    f,
                    o,
                    sync_view,
                    helper,
                ),
        decreases pkgs.len() - i,
    {
        let mut p = pkgs[i].clone();
        assert(p@ == before[i as int]);
        let name = chars_of(p.name.as_str());
        let lacking = no_repo(&p);
        if lists(&fl, &name) {
            p.repo =
            if helper {
                copy("aur")
            } else {
                copy("local")
            };
        } else if lacking {
            let k: usize = find_entry(&known, p.name.as_str());
            p.repo =
            if k < known.len() {
                assert(sync_view[k as int] == known@[k as int]@);
                known[k].repo.clone()
            } else {
                copy("repo")
            };
        }
        p.orphan = lists(&ol, &name);
        done.push(p);
        i += 1;
    }
    assert(packages(done@) =~= before.map_values(
        |p: PackageView| placed_package(p, f, o, sync_view, helper),
    ));
    Ok(done)
}

/// A check that the program's exit code 2 ("no updates") does not fail.
pub open spec fn checked(r: Result<Seq<char>, FailureView>) -> Result<Seq<char>, Seq<char>> {
    if r == Err::<Seq<char>, FailureView>(FailureView::Exit(2)) {
        Ok(Seq::empty())
    } else {
        strict(r)
    }
}

/// The repo updates, from the result of `checkupdates` (pacman-contrib; network, no root).
pub fn check_repo(r: Result<String, Failure>) -> (u: Result<Vec<Upgrade>, String>)
    ensures
        match checked(run_result(r)) {
            Ok(t) => u is Ok && upgrades(u->Ok_0@) == pending(lines_of(t), false),
            Err(e) => u is Err && u->Err_0@ == e,
        },
{
    match r {
        Ok(t) => Ok(parse_upgrades(t.as_str(), false)),
        Err(Failure::Exit(2)) => Ok(parse_upgrades(String::new().as_str(), false)),
        Err(e) => Err(e.text()),
    }
}

/// The AUR updates, from the result of `<helper> -Qua`; none without a helper.
pub open spec fn aur_pending(r: Option<Result<String, Failure>>) -> Result<
    Seq<UpgradeView>,
    Seq<char>,
> {
    match r {
        None => Ok(Seq::empty()),
        Some(x) => match lenient(run_result(x)) {
            Ok(t) => Ok(pending(lines_of(t), true)),
            Err(e) => Err(e),
        },
    }
}

/// The AUR updates, from the result of `<helper> -Qua` (network); `None` where there is no helper.
pub fn check_aur(r: Option<Result<String, Failure>>) -> (u: Result<Vec<Upgrade>, String>)
    ensures
        match aur_pending(r) {
            Ok(v) => u is Ok && upgrades(u->Ok_0@) == v,
            Err(e) => u is Err && u->Err_0@ == e,
        },
{
    match r {
        None => {
            let none: Vec<Upgrade> = Vec::new();
            assert(upgrades(none@) =~= Seq::empty());
            Ok(none)
        },
        Some(x) => match run_lenient(x) {
            Ok(t) => Ok(parse_upgrades(t.as_str(), true)),
            Err(e) => Err(e),
        },
    }
}

/// Repo + AUR updates in one list.
pub fn check_all(
    repo: Result<String, Failure>,
    aur: Option<Result<String, Failure>>,
) -> (u: Result<Vec<Upgrade>, String>)
    ensures
        match (checked(run_result(repo)), aur_pending(aur)) {
            (Err(e), _) => u is Err && u->Err_0@ == e,
            (Ok(_), Err(e)) => u is Err && u->Err_0@ == e,
            (Ok(t), Ok(v)) => u is Ok && upgrades(u->Ok_0@) == pending(lines_of(t), false) + v,
        },
{
    let mut first = match check_repo(repo) {
        Ok(v) => v,
        Err(e) => {
            return Err(e);
        },
    };
    let mut second = match check_aur(aur) {
        Ok(v) => v,
        Err(e) => {
            return Err(e);
        },
    };
    let ghost a = upgrades(first@);
    let ghost b = upgrades(second@);
    first.append(&mut second);
    assert(upgrades(first@) =~= a + b);
    Ok(first)
}

/// The hits of a search in the repos, from the result of `pacman -Ss <query>`.
pub fn search_repo(r: Result<String, Failure>) -> (h: Result<Vec<SearchHit>, String>)
    ensures
        match lenient(run_result(r)) {
            Ok(t) => h is Ok && hits(h->Ok_0@) == found(lines_of(t)),
            Err(e) => h is Err && h->Err_0@ == e,
        },
{
    match run_lenient(r) {
        Ok(t) => Ok(parse_search(t.as_str())),
        Err(e) => Err(e),
    }
}

/// The hits of a search in the AUR, from the result of `<helper> -Ss --aur <query>`; none where
/// there is no helper (`None`).
pub fn search_aur(r: Option<Result<String, Failure>>) -> (h: Result<Vec<SearchHit>, String>)
    ensures
        match r {
            None => h is Ok && h->Ok_0@.len() == 0,
            Some(x) => match lenient(run_result(x)) {
                Ok(t) => h is Ok && hits(h->Ok_0@) == found(lines_of(t)),
                Err(e) => h is Err && h->Err_0@ == e,
            },
        },
{
    match r {
        None => Ok(Vec::new()),
        Some(x) => search_repo(x),
    }
}

/// Details of not-installed repo packages, from the result of `pacman -Si`; none where no names
/// are asked for.
pub fn info_repo(names: &[String], r: Result<String, Failure>) -> (p: Result<Vec<Package>, String>)
    ensures
        if names@.len() == 0 {
            p is Ok && p->Ok_0@.len() == 0
        } else {
            match lenient(run_result(r)) {
                Ok(t) => p is Ok && packages(p->Ok_0@) == info(lines_of(t), false),
                Err(e) => p is Err && p->Err_0@ == e,
            }
        },
{
    if names.len() == 0 {
        return Ok(Vec::new());
    }
    match run_lenient(r) {
        Ok(t) => Ok(parse_info(t.as_str(), false)),
        Err(e) => Err(e),
    }
}

/// A package that names no repo taken as an AUR one.
pub open spec fn or_aur(p: PackageView) -> PackageView {
    if p.repo.len() == 0 {
        PackageView { repo: "aur"@, ..p }
    } else {
        p
    }
}

/// Details of AUR packages, from the result of `<helper> -Si` (network); none where there is no
/// helper (`None`) or no names are asked for.
pub fn info_aur(names: &[String], r: Option<Result<String, Failure>>) -> (p: Result<
    Vec<Package>,
    String,
>)
    ensures
        match r {
            None => p is Ok && p->Ok_0@.len() == 0,
            Some(x) => if names@.len() == 0 {
                p is Ok && p->Ok_0@.len() == 0
            } else {
                match lenient(run_result(x)) {
                    Ok(t) => p is Ok && packages(p->Ok_0@) == info(lines_of(t), false).map_values(
                        |q: PackageView| or_aur(q),
                    ),
                    Err(e) => p is Err && p->Err_0@ == e,
                }
            },
        },
{
    let x = match r {
        None => {
            return Ok(Vec::new());
        },
        Some(x) => x,
    };
    if names.len() == 0 {
        return Ok(Vec::new());
    }
    let text = match run_lenient(x) {
        Ok(t) => t,
        Err(e) => {
            return Err(e);
        },
    };
    let pkgs = parse_info(text.as_str(), false);
    let ghost before = packages(pkgs@);
    let mut done: Vec<Package> = Vec::new();
    let mut i: usize = 0;
    while i < pkgs.len()
        invariant
            i <= pkgs.len(),
            before == packages(pkgs@),
            done.len() == i,
            forall|j: int| 0 <= j < i ==> (#[trigger] done@[j])@ == or_aur(before[j]),
        decreases pkgs.len() - i,
    {
        let mut q = pkgs[i].clone();
        assert(q@ == before[i as int]);
        if chars_of(q.repo.as_str()).len() == 0 {
            q.repo = copy("aur");
        }
        done.push(q);
        i += 1;
    }
    assert(packages(done@) =~= before.map_values(|q: PackageView| or_aur(q)));
    Ok(done)
}

/// What follows the last space or colon.
pub open spec fn last_word(s: Seq<char>) -> Seq<char>
    decreases s.len(),
{
    if s.len() == 0 || s.last() == ' ' || s.last() == ':' {
        Seq::empty()
    } else {
        last_word(s.drop_last()).push(s.last())
    }
}

/// The number before ` candidate` in a line of `paccache`'s report.
pub open spec fn candidates_in(line: Seq<char>) -> Option<u32> {
    match first_at(line, " candidate"@) {
        Some(p) => u32_of(trimmed(last_word(line.take(p)))),
        None => None,
    }
}

/// The first such number in some lines; 0 where there is none.
pub open spec fn candidates(lines: Seq<Seq<char>>) -> u32
    decreases lines.len(),
{
    if lines.len() == 0 {
        0
    } else {
        match candidates_in(lines[0]) {
            Some(n) => n,
            None => candidates(lines.drop_first()),
        }
    }
}

fn read_candidates(line: &[char]) -> (r: Option<u32>)
    ensures
        r == candidates_in(line@),
{
    let mark = chars_of(" candidate");
    match find(line, &mark) {
        Some(p) => {
            let ghost head = line@.take(p as int);
            let mut k: usize = p;
            assert(head.skip(p as int) =~= Seq::empty());
            assert(head.take(p as int) =~= head);
            assert(last_word(head) =~= last_word(head.take(p as int)) + head.skip(p as int));
            while k > 0 && line[k - 1] != ' ' && line[k - 1] != ':'
                invariant
                    k <= p <= line.len(),
                    head == line@.take(p as int),
                    last_word(head) == last_word(head.take(k as int)) + head.skip(k as int),
                decreases k,
            {
                assert(head.take(k as int).drop_last() =~= head.take(k - 1));
                assert(last_word(head.take(k as int)) + head.skip(k as int) =~= last_word(
                    head.take(k - 1),
                ) + head.skip(k - 1));
                k -= 1;
            }
            assert(last_word(head.take(k as int)) =~= Seq::empty());
            assert(last_word(head) =~= line@.subrange(k as int, p as int));
            parse_u32(trim(slice_subrange(line, k, p)))
        },
        None => None,
    }
}

/// How many cached packages `paccache -dk<n>` would prune (dry run, no root), from its report;
/// `None` where it could not be run.
pub fn cache_candidates(report: Option<Vec<u8>>) -> (r: Option<u32>)
    ensures
        r == match report {
            Some(b) => Some(candidates(lines_of(lossy(b@)))),
            None => None,
        },
{
    let text = match &report {
        Some(b) => from_utf8_lossy(b),
        None => {
            return None;
        },
    };
    let cs = chars_of(text.as_str());
    let ls = lines(&cs);
    let ghost all = slices(ls@);
    let mut i: usize = 0;
    assert(all.skip(0) =~= all);
    while i < ls.len()
        invariant
            i <= ls.len(),
            all == slices(ls@),
            all == lines_of(text@),
            report is Some,
            text@ == lossy(report->0@),
            candidates(all) == candidates(all.skip(i as int)),
        decreases ls.len() - i,
    {
        assert(all.skip(i as int)[0] == ls@[i as int]@);
        assert(all.skip(i as int).drop_first() =~= all.skip(i + 1));
        if let Some(n) = read_candidates(ls[i]) {
            return Some(n);
        }
        i += 1;
    }
    Some(0)
}

/// The file's name ends in `.db`, after at least one other character.
pub open spec fn is_db(name: Seq<char>) -> bool {
    ".db"@.is_suffix_of(name) && name.len() > ".db"@.len()
}

/// The newest time among the sync databases.
pub open spec fn newest(files: Seq<(Seq<char>, u64)>) -> Option<u64>
    decreases files.len(),
{
    if files.len() == 0 {
        None
    } else {
        let before = newest(files.drop_last());
        let (name, t) = files.last();
        if !is_db(name) {
            before
        } else {
            match before {
                Some(n) if n > t => Some(n),
                _ => Some(t),
            }
        }
    }
}

/// Newest modification time of the sync databases (`/var/lib/pacman/sync/*.db`), unix time.
/// `files` are the files of that directory with their times.
pub fn last_sync_epoch(files: &[(String, u64)]) -> (r: Option<u64>)
    ensures
        r == newest(files@.map_values(|f: (String, u64)| (f.0@, f.1))),
{
    let ghost all = files@.map_values(|f: (String, u64)| (f.0@, f.1));
    let mut best: Option<u64> = None;
    let mut i: usize = 0;
    while i < files.len()
        invariant
            i <= files.len(),
            all == files@.map_values(|f: (String, u64)| (f.0@, f.1)),
            best == newest(all.take(i as int)),
        decreases files.len() - i,
    {
        assert(all.take(i + 1).drop_last() =~= all.take(i as int));
        assert(all.take(i + 1).last() == (files@[i as int].0@, files@[i as int].1));
        let name = chars_of(files[i].0.as_str());
        let mark = chars_of(".db");
        if name.len() > mark.len() && same(
            slice_subrange(&name, name.len() - mark.len(), name.len()),
            &mark,
        ) {
            let t: u64 = files[i].1;
            best =
            match best {
                Some(n) if n > t => Some(n),
                _ => Some(t),
            };
        }
        i += 1;
    }
    assert(all.take(all.len() as int) =~= all);
    best
}

/// The kernel image whose absence means that a reboot is due.
pub fn kernel_image(running: &str) -> (r: String)
    ensures
        r@ == "/usr/lib/modules/"@ + running@ + "/vmlinuz"@,
{
    let mut out = copy("/usr/lib/modules/");
    out.push_str(running);
    out.push_str("/vmlinuz");
    out
}

/// The running kernel, from what `uname -r` printed (`None` where it could not be run).
pub fn running_kernel(uname: &Option<Vec<u8>>) -> (r: String)
    ensures
        r@ == match *uname {
            Some(b) => trimmed(lossy(b@)),
            None => Seq::empty(),
        },
{
    match uname {
        Some(b) => string_of(trim(&chars_of(from_utf8_lossy(b).as_str()))),
        None => String::new(),
    }
}

/// Running kernel (`uname -r`) and whether its modules directory lacks the kernel image (then a
/// kernel update is waiting for a reboot). `image` says whether [`kernel_image`] is a file.
pub fn kernel(uname: &Option<Vec<u8>>, image: bool) -> (r: (String, bool))
    ensures
        r.0@ == match *uname {
            Some(b) => trimmed(lossy(b@)),
            None => Seq::empty(),
        },
        r.1 == (r.0@.len() > 0 && !image),
{
    let running = running_kernel(uname);
    let reboot = chars_of(running.as_str()).len() > 0 && !image;
    (running, reboot)
}

// ------------------------------------------------------------------ sizes

/// How many times a unit is 1024 bytes to the power of what: `B` to `TiB`; any other unit counts
/// as `KiB`.
pub open spec fn unit_power(unit: Seq<char>) -> u32 {
    if unit == "B"@ {
        0
    } else if unit == "KiB"@ {
        1
    } else if unit == "MiB"@ {
        2
    } else if unit == "GiB"@ {
        3
    } else if unit == "TiB"@ {
        4
    } else {
        1
    }
}

/// The number and the unit of a size as printed: `9.68 MiB` is `9.68` times 1024 to the power of
/// 2; bytes where no unit is printed; none where there is no number.
pub open spec fn size_words(text: Seq<char>) -> Option<(Seq<char>, u32)> {
    let w = words_of(text);
    if w.len() == 0 || !is_fraction(w[0]) {
        None
    } else {
        Some(
            (
                w[0],
                if w.len() > 1 {
                    unit_power(w[1])
                } else {
                    0
                },
            ),
        )
    }
}

/// A size as printed: none where it does not begin with a number.
pub open spec fn size_text(v: Seq<char>) -> Option<Seq<char>> {
    match size_words(v) {
        Some(_) => Some(v),
        None => None,
    }
}

/// A number as printed: none where it is not one.
pub open spec fn fraction_text(v: Seq<char>) -> Option<Seq<char>> {
    if is_fraction(v) {
        Some(v)
    } else {
        None
    }
}

fn read_size(v: &[char]) -> (r: Option<String>)
    ensures
        opt(r) == size_text(v@),
{
    let w = words(v);
    let ghost all = slices(w@);
    if w.len() == 0 {
        return None;
    }
    assert(all[0] == w@[0]@);
    if reads_as_fraction(w[0]) {
        Some(string_of(v))
    } else {
        None
    }
}

fn read_fraction(v: &[char]) -> (r: Option<String>)
    ensures
        opt(r) == fraction_text(v@),
{
    if reads_as_fraction(v) {
        Some(string_of(v))
    } else {
        None
    }
}

fn power_of(unit: &[char]) -> (r: u32)
    ensures
        r == unit_power(unit@),
{
    if is_text(unit, "B") {
        0
    } else if is_text(unit, "KiB") {
        1
    } else if is_text(unit, "MiB") {
        2
    } else if is_text(unit, "GiB") {
        3
    } else if is_text(unit, "TiB") {
        4
    } else {
        1
    }
}

/// The number and the unit of a size as printed, the unit as a power of 1024 bytes; `None` where
/// it does not begin with a number. What the number amounts to is not looked at.
pub fn size_parts(text: &str) -> (r: Option<(String, u32)>)
    ensures
        match r {
            Some((n, p)) => size_words(text@) == Some((n@, p)),
            None => size_words(text@) is None,
        },
{
    let cs = chars_of(text);
    let w = words(&cs);
    let ghost all = slices(w@);
    assert(all == words_of(text@));
    if w.len() == 0 {
        return None;
    }
    assert(all[0] == w@[0]@);
    if !reads_as_fraction(w[0]) {
        return None;
    }
    let power: u32 = if w.len() > 1 {
        assert(all[1] == w@[1]@);
        power_of(w[1])
    } else {
        0
    };
    Some((string_of(w[0]), power))
}

/// The size that `du -sk` printed, in KiB: its first word, where that is a number.
pub fn cache_size(report: &[u8]) -> (r: Option<String>)
    ensures
        opt(r) == (if words_of(lossy(report@)).len() == 0 {
            None
        } else {
            fraction_text(words_of(lossy(report@))[0])
        }),
{
    let text = from_utf8_lossy(report);
    let cs = chars_of(text.as_str());
    let w = words(&cs);
    let ghost all = slices(w@);
    assert(all == words_of(lossy(report@)));
    if w.len() == 0 {
        return None;
    }
    assert(all[0] == w@[0]@);
    read_fraction(w[0])
}

// ------------------------------------------------------------------ laws

/// A blank line separates: the packages of two texts with a blank line between them are those of
/// the first, followed by those of the second.
pub proof fn blank_line_separates_blocks(
    a: Seq<Seq<char>>,
    blank: Seq<char>,
    b: Seq<Seq<char>>,
    installed: bool,
)
    requires
        trimmed(blank).len() == 0,
    ensures
        info(a.push(blank) + b, installed) == info(a, installed) + info(b, installed),
{
    lemma_blocks(a, blank, b, installed);
    assert(info(a.push(blank) + b, installed) =~= info(a, installed) + info(b, installed));
}

proof fn lemma_blocks(a: Seq<Seq<char>>, blank: Seq<char>, b: Seq<Seq<char>>, installed: bool)
    requires
        trimmed(blank).len() == 0,
    ensures
        open_fields(a.push(blank) + b) == open_fields(b),
        closed_packages(a.push(blank) + b, installed) == info(a, installed) + closed_packages(
            b,
            installed,
        ),
    decreases b.len(),
{
    let s = a.push(blank) + b;
    if b.len() == 0 {
        assert(s =~= a.push(blank));
        assert(s.drop_last() =~= a);
        assert(closed_packages(s, installed) =~= info(a, installed) + closed_packages(
            b,
            installed,
        ));
    } else {
        assert(s.drop_last() =~= a.push(blank) + b.drop_last());
        assert(s.last() == b.last());
        lemma_blocks(a, blank, b.drop_last(), installed);
        if trimmed(b.last()).len() == 0 {
            assert(closed_packages(s, installed) =~= info(a, installed) + closed_packages(
                b,
                installed,
            ));
        }
    }
}

proof fn lemma_field_keeps_installed(p: PackageView, fields: Seq<(Seq<char>, Seq<char>)>)
    ensures
        with_fields(p, fields).installed == p.installed,
        with_fields(p, fields).latest == p.latest,
        with_fields(p, fields).orphan == p.orphan,
    decreases fields.len(),
{
    if fields.len() > 0 {
        lemma_field_keeps_installed(p, fields.drop_last());
    }
}

/// A package that was read from a listing.
pub open spec fn read_from_listing(p: PackageView, installed: bool) -> bool {
    p.name.len() > 0 && p.installed == installed && p.latest is None && !p.orphan
}

/// Every package that a listing describes has a name, is marked as installed just when the
/// listing is one of installed packages, and has neither an update nor the orphan mark yet.
pub proof fn listed_packages_have_names(lines: Seq<Seq<char>>, installed: bool)
    ensures
        forall|i: int|
            0 <= i < info(lines, installed).len() ==> read_from_listing(
                #[trigger] info(lines, installed)[i],
                installed,
            ),
{
    lemma_closed_have_names(lines, installed);
    lemma_block_has_name(open_fields(lines), installed);
}

proof fn lemma_block_has_name(fields: Seq<(Seq<char>, Seq<char>)>, installed: bool)
    ensures
        forall|i: int|
            0 <= i < block(fields, installed).len() ==> read_from_listing(
                #[trigger] block(fields, installed)[i],
                installed,
            ),
{
    lemma_field_keeps_installed(PackageView { installed, ..PackageView::blank() }, fields);
}

proof fn lemma_closed_have_names(lines: Seq<Seq<char>>, installed: bool)
    ensures
        forall|i: int|
            0 <= i < closed_packages(lines, installed).len() ==> read_from_listing(
                #[trigger] closed_packages(lines, installed)[i],
                installed,
            ),
    decreases lines.len(),
{
    if lines.len() > 0 {
        lemma_closed_have_names(lines.drop_last(), installed);
        lemma_block_has_name(open_fields(lines.drop_last()), installed);
        let before = closed_packages(lines.drop_last(), installed);
        let more = block(open_fields(lines.drop_last()), installed);
        assert forall|i: int| 0 <= i < closed_packages(lines, installed).len() implies read_from_listing(
            #[trigger] closed_packages(lines, installed)[i],
            installed,
        ) by {
            if i < before.len() {
                assert(closed_packages(lines, installed)[i] == before[i]);
            } else {
                assert(closed_packages(lines, installed)[i] == more[i - before.len()]);
            }
        }
    }
}

/// An update written as `name current -> new` is read back.
pub proof fn upgrade_line_is_read_back(u: UpgradeView)
    requires
        crate::text::is_word(u.name),
        crate::text::is_word(u.current),
        crate::text::is_word(u.new),
    ensures
        upgrade_of(
            words_of(u.name + " "@ + (u.current + " "@ + ("->"@ + " "@ + u.new))),
            u.aur,
        ) == Some(u),
{
    reveal_strlit("->");
    assert(crate::text::is_word("->"@));
    crate::text::words_of_one_word(u.new);
    crate::text::words_of_word_and_rest("->"@, u.new);
    crate::text::words_of_word_and_rest(u.current, "->"@ + " "@ + u.new);
    crate::text::words_of_word_and_rest(u.name, u.current + " "@ + ("->"@ + " "@ + u.new));
    let w = words_of(u.name + " "@ + (u.current + " "@ + ("->"@ + " "@ + u.new)));
    assert(w =~= seq![u.name, u.current, "->"@, u.new]);
}

proof fn lemma_entry_at(v: Seq<SyncView>, name: Seq<char>)
    ensures
        entry_at(v, name) <= v.len(),
        entry_at(v, name) < v.len() ==> v[entry_at(v, name) as int].name == name,
        forall|j: int| 0 <= j < entry_at(v, name) ==> (#[trigger] v[j]).name != name,
    decreases v.len(),
{
    if v.len() > 0 && v[0].name != name {
        lemma_entry_at(v.drop_first(), name);
        assert forall|j: int| 0 <= j < entry_at(v, name) implies (#[trigger] v[j]).name != name by {
            if j > 0 {
                assert(v.drop_first()[j - 1] == v[j]);
            }
        }
    }
}

/// Each name stands once in the list of the sync databases.
pub proof fn synced_names_are_unique(lines: Seq<Seq<char>>)
    ensures
        forall|i: int, j: int|
            0 <= i < j < synced(lines).len() ==> (#[trigger] synced(lines)[i]).name != (
            #[trigger] synced(lines)[j]).name,
    decreases lines.len(),
{
    if lines.len() > 0 {
        synced_names_are_unique(lines.drop_last());
        let w = words_of(lines.last());
        lemma_entry_at(synced(lines.drop_last()), w[1]);
    }
}

/// A package that the listing of foreign ones names ends up foreign, and one that it does not name
/// keeps the repo that its record gives.
pub proof fn foreign_packages_are_marked(
    p: PackageView,
    foreign: Seq<Seq<char>>,
    orphans: Seq<Seq<char>>,
    sync: Seq<SyncView>,
    helper: bool,
)
    ensures
        foreign.contains(p.name) ==> placed_package(
            p,
            foreign,
            orphans,
            sync,
            helper,
        ).is_foreign() && placed_package(p, foreign, orphans, sync, helper).is_aur() == helper,
        !foreign.contains(p.name) && !lacks_repo(p) ==> placed_package(
            p,
            foreign,
            orphans,
            sync,
            helper,
        ).repo == p.repo,
{
    reveal_strlit("aur");
    reveal_strlit("local");
    assert("aur"@.len() != "local"@.len());
}

} // verus!
