//! Recognise the interactive prompts pacman, AUR helpers and `sudo` print, so the UI can offer
//! a dialog instead of a blinking cursor.
//!
//! Detection is purely textual: it looks at the line the cursor is waiting on (and, for
//! numbered selections, the lines above it). Anything unrecognised is left to the console's
//! free-form input line, so a new upstream prompt still works — it just is not pretty yet.

use crate::num::{number, parse_usize};
use crate::text::{
    chars_of, contains, copy, halves, includes, last_at, lower_ascii, lowercase, member,
    occurs_at, rfind, split_once, starts_with, string_of, strip_prefix, texts, to_lower_ascii,
    to_lowercase, trim, trim_end, trim_end_of, trimmed, trimmed_end, trimmed_end_of, without_prefix,
};
use vstd::prelude::*;
use vstd::slice::slice_subrange;

verus! {

/// A question that a program is waiting on.
#[derive(Debug, PartialEq, Eq)]
pub enum Prompt {
    /// `[Y/n]` / `[y/N]`. `default_yes` is what Enter alone means.
    YesNo { text: String, default_yes: bool },
    /// "Select the news to read (e.g. 1 3 5), select 0 to read them all or press enter …".
    /// `items` are the numbered lines above the prompt, in order (index 0 = item 1).
    Select { text: String, items: Vec<String>, all_label: String, enter_label: String },
    /// `Press "enter" to continue` / `to quit`.
    Continue { text: String, quit: bool },
    /// `[sudo] password for user:` and friends.
    Password { text: String },
    /// Free text with an optional default (`Enter a selection (default=all):`).
    Input { text: String, default: String },
}

/// The model of a [`Prompt`].
#[verifier::ext_equal]
pub enum PromptView {
    YesNo { text: Seq<char>, default_yes: bool },
    Select {
        text: Seq<char>,
        items: Seq<Seq<char>>,
        all_label: Seq<char>,
        enter_label: Seq<char>,
    },
    Continue { text: Seq<char>, quit: bool },
    Password { text: Seq<char> },
    Input { text: Seq<char>, default: Seq<char> },
}

impl View for Prompt {
    type V = PromptView;

    open spec fn view(&self) -> PromptView {
        match self {
            Prompt::YesNo { text, default_yes } => PromptView::YesNo {
                text: text@,
                default_yes: *default_yes,
            },
            Prompt::Select { text, items, all_label, enter_label } => PromptView::Select {
                text: text@,
                items: texts(items@),
                all_label: all_label@,
                enter_label: enter_label@,
            },
            Prompt::Continue { text, quit } => PromptView::Continue { text: text@, quit: *quit },
            Prompt::Password { text } => PromptView::Password { text: text@ },
            Prompt::Input { text, default } => PromptView::Input {
                text: text@,
                default: default@,
            },
        }
    }
}

impl Clone for Prompt {
    fn clone(&self) -> (r: Self)
        ensures
            r@ == self@,
    {
        match self {
            Prompt::YesNo { text, default_yes } => Prompt::YesNo {
                text: text.clone(),
                default_yes: *default_yes,
            },
            Prompt::Select { text, items, all_label, enter_label } => Prompt::Select {
                text: text.clone(),
                items: crate::text::copies(items),
                all_label: all_label.clone(),
                enter_label: enter_label.clone(),
            },
            Prompt::Continue { text, quit } => Prompt::Continue { text: text.clone(), quit: *quit },
            Prompt::Password { text } => Prompt::Password { text: text.clone() },
            Prompt::Input { text, default } => Prompt::Input {
                text: text.clone(),
                default: default.clone(),
            },
        }
    }
}

impl PromptView {
    /// The question itself.
    pub open spec fn text(self) -> Seq<char> {
        match self {
            PromptView::YesNo { text, .. } => text,
            PromptView::Select { text, .. } => text,
            PromptView::Continue { text, .. } => text,
            PromptView::Password { text } => text,
            PromptView::Input { text, .. } => text,
        }
    }

    /// The dialog's title, `lower` being the question in lower case.
    pub open spec fn title(self, lower: Seq<char>) -> Seq<char> {
        match self {
            PromptView::Password { .. } => "AUTHENTICATE"@,
            PromptView::Continue { quit, .. } => if quit {
                "FINISHED"@
            } else {
                "CONTINUE"@
            },
            PromptView::Select { .. } => if includes(lower, "news"@) {
                "ARCH NEWS"@
            } else if includes(lower, "service"@) {
                "RESTART SERVICES"@
            } else {
                "SELECT"@
            },
            PromptView::YesNo { .. } => if includes(lower, "proceed with update"@) {
                "PROCEED WITH UPDATE"@
            } else if includes(lower, "orphan"@) {
                "ORPHAN PACKAGES"@
            } else if includes(lower, "cache"@) {
                "PACKAGE CACHE"@
            } else if includes(lower, "reboot"@) {
                "REBOOT"@
            } else if includes(lower, "pacnew"@) || includes(lower, "process th"@) {
                "PACNEW FILES"@
            } else if includes(lower, "flatpak"@) {
                "FLATPAK"@
            } else if includes(lower, "proceed with installation"@) || includes(
                lower,
                "remove these packages"@,
            ) {
                "PACMAN"@
            } else if includes(lower, "proceed to review"@) || includes(lower, "diffs"@)
                || includes(lower, "import"@) || includes(lower, "clean build"@) {
                "AUR HELPER"@
            } else {
                "CONFIRM"@
            },
            PromptView::Input { .. } => "INPUT"@,
        }
    }

    /// The verb on the dialog's primary button, `lower` being the question in lower case.
    pub open spec fn verb(self, lower: Seq<char>) -> Seq<char> {
        match self {
            PromptView::Password { .. } => "AUTHENTICATE"@,
            PromptView::Continue { quit, .. } => if quit {
                "CLOSE"@
            } else {
                "CONTINUE"@
            },
            PromptView::Select { .. } => "SELECTED"@,
            PromptView::YesNo { .. } => if includes(lower, "reboot"@) {
                "REBOOT NOW"@
            } else if includes(lower, "remove"@) {
                "REMOVE"@
            } else if includes(lower, "update"@) {
                "UPDATE"@
            } else if includes(lower, "install"@) {
                "INSTALL"@
            } else if includes(lower, "process"@) {
                "PROCESS"@
            } else {
                "YES"@
            },
            PromptView::Input { .. } => "SEND"@,
        }
    }

    /// Answering it changes the system.
    pub open spec fn consequential(self) -> bool {
        self is YesNo
    }

    /// Answering yes is irreversible or disruptive, `lower` being the question in lower case.
    pub open spec fn dangerous(self, lower: Seq<char>) -> bool {
        self is YesNo && (includes(lower, "reboot"@) || includes(lower, "remove"@))
    }
}

/// What is dangerous is consequential too.
pub proof fn dangerous_is_consequential(p: PromptView, lower: Seq<char>)
    ensures
        p.dangerous(lower) ==> p.consequential(),
{
}

// ------------------------------------------------------------------ detection: the rules

/// `s` without the prefix `p`, or `s` itself where it does not begin with `p`.
pub open spec fn peeled(s: Seq<char>, p: Seq<char>) -> Seq<char> {
    match without_prefix(s, p) {
        Some(rest) => rest,
        None => s,
    }
}

/// Where the `[y/n]` stands that ends a yes / no question, in a line in lower case.
pub open spec fn yes_no_at(lower: Seq<char>) -> Option<int> {
    let tail = trimmed_end_of(lower, " :"@);
    if "[y/n]"@.is_suffix_of(tail) {
        Some(tail.len() - "[y/n]"@.len())
    } else {
        None
    }
}

/// A line without the `[Y/n]` that ends it.
pub open spec fn without_yes_no(s: Seq<char>) -> Seq<char> {
    match yes_no_at(lower_ascii(s)) {
        Some(p) => s.take(p),
        None => s,
    }
}

/// A line without the `==> ` / `-> ` / `:: ` prefixes (each once, in this order), the `[Y/n]` tail
/// and the white space around what is left.
pub open spec fn cleaned(line: Seq<char>) -> Seq<char> {
    trimmed(without_yes_no(peeled(peeled(peeled(trimmed(line), "==> "@), "-> "@), ":: "@)))
}

/// A `N - text` line.
pub open spec fn numbered_line(t: Seq<char>) -> Option<(nat, Seq<char>)> {
    match halves(t, " - "@) {
        Some((a, b)) => match number(trimmed(a), usize::MAX as nat) {
            Some(n) => Some((n, trimmed(b))),
            None => None,
        },
        None => None,
    }
}

/// The numbered lines just above a prompt, `items` being those found so far below them. Blank
/// lines are passed over; any other line ends the list. Before the list begins, the complaint about
/// an invalid answer is passed over too.
pub open spec fn numbered_above(
    above: Seq<Seq<char>>,
    items: Seq<(nat, Seq<char>)>,
) -> Seq<(nat, Seq<char>)>
    decreases above.len(),
{
    if above.len() == 0 {
        items
    } else {
        let t = trimmed(above.last());
        if t.len() == 0 {
            numbered_above(above.drop_last(), items)
        } else {
            match numbered_line(t) {
                Some(item) => numbered_above(above.drop_last(), seq![item] + items),
                None => if items.len() == 0 && (includes(t, "Invalid input"@) || includes(
                    t,
                    "WARNING"@,
                )) {
                    numbered_above(above.drop_last(), items)
                } else {
                    items
                },
            }
        }
    }
}

/// The numbers are 1, 2, 3 … in order.
pub open spec fn counts_up(items: Seq<(nat, Seq<char>)>) -> bool {
    forall|i: int| 0 <= i < items.len() ==> (#[trigger] items[i]).0 == i + 1
}

/// The texts of a numbered list; none where the numbers are not 1, 2, 3 ….
pub open spec fn list_items(items: Seq<(nat, Seq<char>)>) -> Seq<Seq<char>> {
    if counts_up(items) {
        items.map_values(|x: (nat, Seq<char>)| x.1)
    } else {
        Seq::empty()
    }
}

/// A password prompt, `line` being the line and `lower` the same in lower case.
pub open spec fn asks_password(line: Seq<char>, lower: Seq<char>) -> bool {
    let body = trimmed_end_of(lower, " "@);
    ||| (includes(lower, "password"@) || includes(line, "パスワード"@)) && body.len() > 0
        && body.last() == ':'
    ||| "[sudo]"@.is_prefix_of(lower)
    ||| "[sudo:"@.is_prefix_of(lower)
}

/// A selection from a numbered list.
pub open spec fn asks_selection(lower: Seq<char>) -> bool {
    "-> select"@.is_prefix_of(lower) || includes(lower, "select the"@)
}

/// A question for free text.
pub open spec fn asks_input(lower: Seq<char>) -> bool {
    ||| "enter a selection"@.is_prefix_of(lower)
    ||| "enter a number"@.is_prefix_of(lower)
    ||| ":: packages to"@.is_prefix_of(lower)
    ||| "==> packages to"@.is_prefix_of(lower)
    ||| includes(lower, "or (1 2 3, 1-3, ^4)"@)
}

/// The label of the button that selects everything.
pub open spec fn all_label_of(lower: Seq<char>) -> Seq<char> {
    if includes(lower, "read them all"@) {
        "READ ALL"@
    } else if includes(lower, "restart them all"@) {
        "RESTART ALL"@
    } else {
        "ALL"@
    }
}

/// The label of the button for Enter alone.
pub open spec fn enter_label_of(lower: Seq<char>) -> Seq<char> {
    if includes(lower, "proceed with update"@) {
        "PROCEED WITH UPDATE"@
    } else if includes(lower, "without restarting"@) {
        "SKIP"@
    } else if includes(lower, "quit"@) {
        "QUIT"@
    } else {
        "SKIP"@
    }
}

/// What follows the last `(default=`, without the closing bracket.
pub open spec fn default_of(line: Seq<char>) -> Seq<char> {
    match last_at(line, "(default="@) {
        Some(p) => trimmed_end_of(line.skip(p + "(default="@.len()), "): "@),
        None => Seq::empty(),
    }
}

/// The prompt on the cursor's line, `above` being the lines before it, oldest first.
pub open spec fn detected(above: Seq<Seq<char>>, cursor: Seq<char>) -> Option<PromptView> {
    let line = trimmed(cursor);
    let lower = lower_ascii(line);
    if line.len() == 0 {
        None
    } else if asks_password(line, lower) {
        Some(PromptView::Password { text: cleaned(line) })
    } else if yes_no_at(lower) is Some {
        let pos = yes_no_at(lower)->0;
        Some(
            PromptView::YesNo {
                text: cleaned(line.take(pos)),
                default_yes: line.subrange(pos, pos + "[y/n]"@.len()).contains('Y'),
            },
        )
    } else if asks_selection(lower) {
        Some(
            PromptView::Select {
                text: cleaned(line),
                items: list_items(numbered_above(above, Seq::empty())),
                all_label: all_label_of(lower),
                enter_label: enter_label_of(lower),
            },
        )
    } else if includes(lower, "press \"enter\""@) || includes(lower, "press enter"@) {
        Some(
            PromptView::Continue {
                text: trimmed_end(cleaned(line)),
                quit: includes(lower, "quit"@),
            },
        )
    } else if asks_input(lower) {
        Some(PromptView::Input { text: cleaned(line), default: default_of(line) })
    } else {
        None
    }
}

/// White space around the cursor's line makes no difference.
pub proof fn detection_ignores_surrounding_space(above: Seq<Seq<char>>, cursor: Seq<char>)
    ensures
        detected(above, trimmed(cursor)) == detected(above, cursor),
{
    crate::text::trimming_is_idempotent(cursor);
}

/// A blank line is no prompt.
pub proof fn blank_line_is_no_prompt(above: Seq<Seq<char>>, cursor: Seq<char>)
    requires
        trimmed(cursor).len() == 0,
    ensures
        detected(above, cursor) is None,
{
}

// ------------------------------------------------------------------ detection: the code

fn peel<'a>(s: &'a [char], p: &str) -> (r: &'a [char])
    ensures
        r@ == peeled(s@, p@),
{
    match strip_prefix(s, p) {
        Some(rest) => rest,
        None => s,
    }
}

fn yes_no_index(lower: &[char]) -> (r: Option<usize>)
    ensures
        match r {
            Some(p) => yes_no_at(lower@) == Some(p as int),
            None => yes_no_at(lower@) is None,
        },
{
    let mark = chars_of("[y/n]");
    let tail = trim_end_of(lower, " :");
    if mark.len() > tail.len() {
        return None;
    }
    let p: usize = tail.len() - mark.len();
    if crate::text::same(slice_subrange(tail, p, tail.len()), &mark) {
        Some(p)
    } else {
        None
    }
}

proof fn lemma_trimmed_end_of_len(s: Seq<char>, set: Seq<char>)
    ensures
        trimmed_end_of(s, set).len() <= s.len(),
    decreases s.len(),
{
    if s.len() > 0 && set.contains(s.last()) {
        lemma_trimmed_end_of_len(s.drop_last(), set);
    }
}

fn cut_yes_no<'a>(s: &'a [char]) -> (r: &'a [char])
    ensures
        r@ == without_yes_no(s@),
{
    match yes_no_index(&to_lower_ascii(s)) {
        Some(p) => {
            proof {
                lemma_trimmed_end_of_len(lower_ascii(s@), " :"@);
            }
            slice_subrange(s, 0, p)
        },
        None => s,
    }
}

fn clean_chars<'a>(line: &'a [char]) -> (r: &'a [char])
    ensures
        r@ == cleaned(line@),
{
    trim(cut_yes_no(peel(peel(peel(trim(line), "==> "), "-> "), ":: ")))
}

/// Strip the script's `==> ` / `-> ` / `:: ` prefixes and the `[Y/n]` tail for display.
pub fn clean(line: &str) -> (r: String)
    ensures
        r@ == cleaned(line@),
{
    let cs = chars_of(line);
    string_of(clean_chars(&cs))
}

/// `3 - openssl 3.5.0-1 -> 3.5.1-1` → (3, "openssl …"). Also `[NEW]` markers are kept.
fn parse_numbered(t: &[char]) -> (r: Option<(usize, String)>)
    ensures
        match r {
            Some((n, s)) => numbered_line(t@) == Some((n as nat, s@)),
            None => numbered_line(t@) is None,
        },
{
    match split_once(t, " - ") {
        Some((a, b)) => match parse_usize(trim(a)) {
            Some(n) => Some((n, string_of(trim(b)))),
            None => None,
        },
        None => None,
    }
}

/// The model of numbered items.
spec fn item_views(v: Seq<(usize, String)>) -> Seq<(nat, Seq<char>)> {
    v.map_values(|x: (usize, String)| (x.0 as nat, x.1@))
}

/// The numbered lines just above a prompt, the lowest first.
fn collect_numbered(above: &[String]) -> (r: Vec<(usize, String)>)
    ensures
        item_views(r@).reverse() == numbered_above(texts(above@), Seq::empty()),
{
    let mut found: Vec<(usize, String)> = Vec::new();
    let mut i: usize = above.len();
    let ghost all = texts(above@);
    assert(all.take(i as int) =~= all);
    assert(item_views(found@).reverse() =~= Seq::empty());
    while i > 0
        invariant
            i <= above.len(),
            all == texts(above@),
            numbered_above(all, Seq::empty()) == numbered_above(
                all.take(i as int),
                item_views(found@).reverse(),
            ),
        decreases i,
    {
        let cs = chars_of(above[i - 1].as_str());
        let t = trim(&cs);
        let ghost head = all.take(i as int);
        let ghost items = item_views(found@).reverse();
        assert(head.last() == cs@);
        assert(head.drop_last() =~= all.take(i - 1));
        assert(items.len() == found.len());
        if t.len() > 0 {
            match parse_numbered(t) {
                Some(item) => {
                    let ghost before = found@;
                    found.push(item);
                    assert(item_views(found@).reverse() =~= seq![(item.0 as nat, item.1@)]
                        + item_views(before).reverse());
                },
                None => {
                    if !(found.len() == 0 && (contains(t, "Invalid input") || contains(
                        t,
                        "WARNING",
                    ))) {
                        return found;
                    }
                },
            }
        }
        i -= 1;
    }
    found
}

/// The items of the numbered list above a prompt, in order.
fn list_above(above: &[String]) -> (r: Vec<String>)
    ensures
        texts(r@) == list_items(numbered_above(texts(above@), Seq::empty())),
{
    let found = collect_numbered(above);
    let n: usize = found.len();
    let ghost items = item_views(found@).reverse();
    let mut out: Vec<String> = Vec::new();
    let mut i: usize = 0;
    while i < n
        invariant
            i <= n == found.len(),
            items == item_views(found@).reverse(),
            items == numbered_above(texts(above@), Seq::empty()),
            items.len() == n,
            out.len() == i,
            forall|j: int| 0 <= j < i ==> (#[trigger] items[j]).0 == j + 1,
            forall|j: int| 0 <= j < i ==> (#[trigger] out@[j])@ == items[j].1,
        decreases n - i,
    {
        assert(items[i as int] == (found@[n - 1 - i].0 as nat, found@[n - 1 - i].1@));
        if found[n - 1 - i].0 != i + 1 {
            let none: Vec<String> = Vec::new();
            assert(!counts_up(items));
            assert(texts(none@) =~= Seq::empty());
            return none;
        }
        out.push(found[n - 1 - i].1.clone());
        i += 1;
    }
    assert(texts(out@) =~= list_items(items));
    out
}

fn all_label(lower: &[char]) -> (r: String)
    ensures
        r@ == all_label_of(lower@),
{
    if contains(lower, "read them all") {
        copy("READ ALL")
    } else if contains(lower, "restart them all") {
        copy("RESTART ALL")
    } else {
        copy("ALL")
    }
}

fn enter_label(lower: &[char]) -> (r: String)
    ensures
        r@ == enter_label_of(lower@),
{
    if contains(lower, "proceed with update") {
        copy("PROCEED WITH UPDATE")
    } else if contains(lower, "without restarting") {
        copy("SKIP")
    } else if contains(lower, "quit") {
        copy("QUIT")
    } else {
        copy("SKIP")
    }
}

fn default_text(line: &[char]) -> (r: String)
    ensures
        r@ == default_of(line@),
{
    let mark = chars_of("(default=");
    match rfind(line, &mark) {
        Some(p) => {
            let n: usize = line.len();
            assert(occurs_at(line@, mark@, p as int));
            string_of(trim_end_of(slice_subrange(line, p + mark.len(), n), "): "))
        },
        None => String::new(),
    }
}

fn is_password(line: &[char], lower: &[char]) -> (r: bool)
    ensures
        r == asks_password(line@, lower@),
{
    if contains(lower, "password") || contains(line, "パスワード") {
        let body = trim_end_of(lower, " ");
        if body.len() > 0 && body[body.len() - 1] == ':' {
            return true;
        }
    }
    starts_with(lower, "[sudo]") || starts_with(lower, "[sudo:")
}

/// Detect a prompt on `cursor` (the cursor line, trimmed). `above` are the lines preceding it,
/// oldest first (used for numbered selections).
pub fn detect(above: &[String], cursor: &str) -> (r: Option<Prompt>)
    ensures
        match r {
            Some(p) => detected(texts(above@), cursor@) == Some(p@),
            None => detected(texts(above@), cursor@) is None,
        },
{
    let cs = chars_of(cursor);
    let line = trim(&cs);
    if line.len() == 0 {
        return None;
    }
    let lowered = to_lower_ascii(line);
    let lower: &[char] = &lowered;
    if is_password(line, lower) {
        return Some(Prompt::Password { text: string_of(clean_chars(line)) });
    }
    let mark = chars_of("[y/n]");
    if let Some(pos) = yes_no_index(lower) {
        proof {
            lemma_trimmed_end_of_len(lower@, " :"@);
        }
        // `[Y/n]` = Enter means yes, `[y/N]` = Enter means no, `[y/n]` = no default (treated as no)
        let raw = slice_subrange(line, pos, pos + mark.len());
        return Some(
            Prompt::YesNo {
                text: string_of(clean_chars(slice_subrange(line, 0, pos))),
                default_yes: member('Y', raw),
            },
        );
    }
    // numbered selection (news / services): items are `N - text` lines above
    if starts_with(lower, "-> select") || contains(lower, "select the") {
        return Some(
            Prompt::Select {
                text: string_of(clean_chars(line)),
                items: list_above(above),
                all_label: all_label(lower),
                enter_label: enter_label(lower),
            },
        );
    }
    // press enter
    if contains(lower, "press \"enter\"") || contains(lower, "press enter") {
        return Some(
            Prompt::Continue {
                text: string_of(trim_end(clean_chars(line))),
                quit: contains(lower, "quit"),
            },
        );
    }
    // pacman / paru free-form selections
    if starts_with(lower, "enter a selection") || starts_with(lower, "enter a number")
        || starts_with(lower, ":: packages to") || starts_with(lower, "==> packages to")
        || contains(lower, "or (1 2 3, 1-3, ^4)") {
        return Some(
            Prompt::Input { text: string_of(clean_chars(line)), default: default_text(line) },
        );
    }
    None
}

impl Prompt {
    /// The question itself.
    pub fn text(&self) -> (r: &str)
        ensures
            r@ == self@.text(),
    {
        match self {
            Prompt::YesNo { text, .. } => text.as_str(),
            Prompt::Select { text, .. } => text.as_str(),
            Prompt::Continue { text, .. } => text.as_str(),
            Prompt::Password { text } => text.as_str(),
            Prompt::Input { text, .. } => text.as_str(),
        }
    }

    /// Short upper-case title for the dialog chip.
    pub fn title(&self) -> (r: String)
        ensures
            r@ == self@.title(lowercase(self@.text())),
    {
        let lower = to_lowercase(self.text());
        self.title_for(lower.as_str())
    }

    /// The title, `lower` being the question in lower case.
    pub fn title_for(&self, lower: &str) -> (r: String)
        ensures
            r@ == self@.title(lower@),
    {
        let cs = chars_of(lower);
        match self {
            Prompt::Password { .. } => copy("AUTHENTICATE"),
            Prompt::Continue { quit, .. } => if *quit {
                copy("FINISHED")
            } else {
                copy("CONTINUE")
            },
            Prompt::Select { .. } => if contains(&cs, "news") {
                copy("ARCH NEWS")
            } else if contains(&cs, "service") {
                copy("RESTART SERVICES")
            } else {
                copy("SELECT")
            },
            Prompt::YesNo { .. } => if contains(&cs, "proceed with update") {
                copy("PROCEED WITH UPDATE")
            } else if contains(&cs, "orphan") {
                copy("ORPHAN PACKAGES")
            } else if contains(&cs, "cache") {
                copy("PACKAGE CACHE")
            } else if contains(&cs, "reboot") {
                copy("REBOOT")
            } else if contains(&cs, "pacnew") || contains(&cs, "process th") {
                copy("PACNEW FILES")
            } else if contains(&cs, "flatpak") {
                copy("FLATPAK")
            } else if contains(&cs, "proceed with installation") || contains(
                &cs,
                "remove these packages",
            ) {
                copy("PACMAN")
            } else if contains(&cs, "proceed to review") || contains(&cs, "diffs") || contains(
                &cs,
                "import",
            ) || contains(&cs, "clean build") {
                copy("AUR HELPER")
            } else {
                copy("CONFIRM")
            },
            Prompt::Input { .. } => copy("INPUT"),
        }
    }

    /// The verb on the dialog's primary button.
    pub fn verb(&self) -> (r: &'static str)
        ensures
            r@ == self@.verb(lowercase(self@.text())),
    {
        let lower = to_lowercase(self.text());
        self.verb_for(lower.as_str())
    }

    /// The verb, `lower` being the question in lower case.
    pub fn verb_for(&self, lower: &str) -> (r: &'static str)
        ensures
            r@ == self@.verb(lower@),
    {
        let cs = chars_of(lower);
        match self {
            Prompt::Password { .. } => "AUTHENTICATE",
            Prompt::Continue { quit, .. } => if *quit {
                "CLOSE"
            } else {
                "CONTINUE"
            },
            Prompt::Select { .. } => "SELECTED",
            Prompt::YesNo { .. } => if contains(&cs, "reboot") {
                "REBOOT NOW"
            } else if contains(&cs, "remove") {
                "REMOVE"
            } else if contains(&cs, "update") {
                "UPDATE"
            } else if contains(&cs, "install") {
                "INSTALL"
            } else if contains(&cs, "process") {
                "PROCESS"
            } else {
                "YES"
            },
            Prompt::Input { .. } => "SEND",
        }
    }

    /// Consequential (needs the warning colour): anything that changes the system.
    pub fn consequential(&self) -> (r: bool)
        ensures
            r == self@.consequential(),
    {
        match self {
            Prompt::YesNo { .. } => true,
            _ => false,
        }
    }

    /// Irreversible / disruptive: rendered in the danger colour.
    pub fn dangerous(&self) -> (r: bool)
        ensures
            r == self@.dangerous(lowercase(self@.text())),
    {
        let lower = to_lowercase(self.text());
        self.dangerous_for(lower.as_str())
    }

    /// Whether it is dangerous, `lower` being the question in lower case.
    pub fn dangerous_for(&self, lower: &str) -> (r: bool)
        ensures
            r == self@.dangerous(lower@),
    {
        let cs = chars_of(lower);
        match self {
            Prompt::YesNo { .. } => contains(&cs, "reboot") || contains(&cs, "remove"),
            _ => false,
        }
    }
}

} // verus!
