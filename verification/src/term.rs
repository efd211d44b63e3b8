//! A small line-oriented terminal emulator for the console panel.
//!
//! Enough of VT100 for `arch-update`, `pacman`, `paru` and `flatpak`: SGR colours, `\r`
//! overwrite, erase-in-line, cursor up / down / column moves (pacman's parallel download
//! bars) and erase-below. There is no scroll region and no wrapping: lines grow as needed and
//! the panel wraps them visually. Unknown sequences are dropped.
//!
//! [`Screen`] is the mathematical model; [`Terminal`] implements it. Cursor positions saturate at
//! `usize::MAX`.

use crate::num::{number, parse_usize};
use crate::text::{
    chars_of, pieces, slices, split, string_of, texts, trim_end, trim_start_of, trimmed_end,
    trimmed_start_of,
};
use crate::utf8::{decode, decoded, decoding_in_parts};
use vstd::prelude::*;

verus! {

/// Basic colour of a cell, from the 8 / 16 ANSI colours. RGB / 256-colour SGR values are
/// mapped onto the nearest of these (the palette has few colours by design).
#[derive(Clone, Copy, Debug, PartialEq, Eq, Structural, Hash)]
pub enum Hue {
    Default,
    Black,
    Red,
    Green,
    Yellow,
    Blue,
    Magenta,
    Cyan,
    White,
}

impl Default for Hue {
    fn default() -> (r: Self)
        ensures
            r == Hue::Default,
    {
        Hue::Default
    }
}

/// How a cell is drawn.
#[derive(Clone, Copy, Debug, PartialEq, Eq, Structural, Hash)]
pub struct Style {
    pub hue: Hue,
    pub bold: bool,
    pub dim: bool,
}

impl Style {
    /// No colour, neither bold nor dim.
    pub open spec fn plain() -> Style {
        Style { hue: Hue::Default, bold: false, dim: false }
    }
}

impl Default for Style {
    fn default() -> (r: Self)
        ensures
            r == Style::plain(),
    {
        Style { hue: Hue::Default, bold: false, dim: false }
    }
}

/// One character on the screen.
#[derive(Clone, Copy, Debug, PartialEq, Eq, Structural)]
pub struct Cell {
    pub ch: char,
    pub style: Style,
}

/// One run of equally styled text within a line.
#[derive(Debug, PartialEq, Eq)]
pub struct Run {
    pub text: String,
    pub style: Style,
}

/// The model of a [`Run`].
#[verifier::ext_equal]
pub struct RunView {
    pub text: Seq<char>,
    pub style: Style,
}

impl View for Run {
    type V = RunView;

    open spec fn view(&self) -> RunView {
        RunView { text: self.text@, style: self.style }
    }
}

impl Clone for Run {
    fn clone(&self) -> (r: Self)
        ensures
            r@ == self@,
    {
        Run { text: self.text.clone(), style: self.style }
    }
}

/// Where the parser stands within an escape sequence.
#[derive(Debug)]
enum State {
    Ground,
    Esc,
    /// `ESC [` … parameters accumulate until the final byte.
    Csi(Vec<char>),
    /// `ESC ]` … until BEL or `ESC \`.
    Osc(bool),
    /// `ESC (` / `ESC )` charset designation: one more byte.
    Charset,
}

/// The model of the parser's position within an escape sequence.
#[verifier::ext_equal]
pub enum Mode {
    Ground,
    Esc,
    Csi(Seq<char>),
    Osc(bool),
    Charset,
}

impl View for State {
    type V = Mode;

    closed spec fn view(&self) -> Mode {
        match self {
            State::Ground => Mode::Ground,
            State::Esc => Mode::Esc,
            State::Csi(p) => Mode::Csi(p@),
            State::Osc(e) => Mode::Osc(*e),
            State::Charset => Mode::Charset,
        }
    }
}

// ------------------------------------------------------------------ the model

/// `n`, or the largest `usize` where `n` is larger.
pub open spec fn sat(n: int) -> int {
    if n > usize::MAX {
        usize::MAX as int
    } else {
        n
    }
}

/// An unstyled space.
pub open spec fn blank() -> Cell {
    Cell { ch: ' ', style: Style::plain() }
}

/// `line` with spaces added until it has `n` cells.
pub open spec fn padded(line: Seq<Cell>, n: int) -> Seq<Cell> {
    if line.len() < n {
        line + Seq::new((n - line.len()) as nat, |i: int| blank())
    } else {
        line
    }
}

/// `line` with `cell` at column `col`, after spaces where the line was shorter.
pub open spec fn placed(line: Seq<Cell>, col: int, cell: Cell) -> Seq<Cell> {
    if col < line.len() {
        line.update(col, cell)
    } else {
        padded(line, col).push(cell)
    }
}

/// `line` cut to at most `n` cells.
pub open spec fn cut(line: Seq<Cell>, n: int) -> Seq<Cell> {
    if n < line.len() {
        line.take(n)
    } else {
        line
    }
}

/// `line` with the characters up to and at column `col` made spaces, their styles kept.
pub open spec fn blanked(line: Seq<Cell>, col: int) -> Seq<Cell> {
    Seq::new(
        line.len(),
        |i: int|
            if i <= col {
                Cell { ch: ' ', style: line[i].style }
            } else {
                line[i]
            },
    )
}

/// `lines` with empty lines added until there are `n`.
pub open spec fn grown(lines: Seq<Seq<Cell>>, n: int) -> Seq<Seq<Cell>> {
    if lines.len() < n {
        lines + Seq::new((n - lines.len()) as nat, |i: int| Seq::<Cell>::empty())
    } else {
        lines
    }
}

/// The numbers of a CSI parameter string: leading `?` dropped, cut at `;`, anything that is no
/// number read as 0.
pub open spec fn csi_numbers(params: Seq<char>) -> Seq<int> {
    pieces(trimmed_start_of(params, "?"@), ';').map_values(
        |p: Seq<char>|
            match number(p, usize::MAX as nat) {
                Some(n) => n as int,
                None => 0,
            },
    )
}

/// The number at index `i`, or `default` where there is none.
pub open spec fn nth(nums: Seq<int>, i: int, default: int) -> int {
    if 0 <= i < nums.len() {
        nums[i]
    } else {
        default
    }
}

/// The first number, which counts as 1 where it is 0 or missing.
pub open spec fn count(nums: Seq<int>) -> int {
    if nth(nums, 0, 0) == 0 {
        1
    } else {
        nums[0]
    }
}

/// The basic colour nearest to an RGB colour: black when dark, else by which channels reach two
/// thirds of the strongest.
pub open spec fn rgb_hue(r: int, g: int, b: int) -> Hue {
    let max = if r >= g && r >= b {
        r
    } else if g >= b {
        g
    } else {
        b
    };
    let (hr, hg, hb) = (r * 3 >= max * 2, g * 3 >= max * 2, b * 3 >= max * 2);
    if max < 40 {
        Hue::Black
    } else if hr && hg && hb {
        Hue::White
    } else if hr && hg {
        Hue::Yellow
    } else if hr && hb {
        Hue::Magenta
    } else if hg && hb {
        Hue::Cyan
    } else if hr {
        Hue::Red
    } else if hg {
        Hue::Green
    } else {
        Hue::Blue
    }
}

/// The colour of index `n` of the eight basic ones.
pub open spec fn basic_hue(n: int) -> Hue {
    if n == 0 {
        Hue::Black
    } else if n == 1 {
        Hue::Red
    } else if n == 2 {
        Hue::Green
    } else if n == 3 {
        Hue::Yellow
    } else if n == 4 {
        Hue::Blue
    } else if n == 5 {
        Hue::Magenta
    } else if n == 6 {
        Hue::Cyan
    } else {
        Hue::White
    }
}

/// The basic colour for an index of the 256-colour palette: 16 basic colours, a 6×6×6 cube, and
/// greys (all white here).
pub open spec fn palette_hue(n: int) -> Hue {
    if n < 16 {
        basic_hue(n % 8)
    } else if n <= 231 {
        rgb_hue((n - 16) / 36 * 51, (n - 16) / 6 % 6 * 51, (n - 16) % 6 * 51)
    } else {
        Hue::White
    }
}

/// `style` after one SGR number that stands for itself.
pub open spec fn sgr_one(style: Style, n: int) -> Style {
    if n == 0 {
        Style::plain()
    } else if n == 1 {
        Style { bold: true, ..style }
    } else if n == 2 || n == 90 {
        Style { dim: true, ..style }
    } else if n == 22 {
        Style { bold: false, dim: false, ..style }
    } else if 30 <= n <= 37 {
        Style { hue: basic_hue(n - 30), ..style }
    } else if 91 <= n <= 97 {
        Style { hue: basic_hue(n - 90), ..style }
    } else if n == 39 {
        Style { hue: Hue::Default, ..style }
    } else {
        style
    }
}

/// `nums` without its first `n`.
pub open spec fn dropped(nums: Seq<int>, n: int) -> Seq<int> {
    if n < nums.len() {
        nums.skip(n)
    } else {
        Seq::empty()
    }
}

/// `style` after a list of SGR numbers. `38;5;n` and `38;2;r;g;b` set the colour to the nearest
/// basic one; the same forms with 48 (the background) are passed over.
pub open spec fn sgr_all(style: Style, nums: Seq<int>) -> Style
    decreases nums.len(),
{
    if nums.len() == 0 {
        style
    } else if (nums[0] == 38 || nums[0] == 48) && nth(nums, 1, 0) == 5 {
        let next = if nums[0] == 38 {
            Style { hue: palette_hue(nth(nums, 2, 7)), ..style }
        } else {
            style
        };
        sgr_all(next, dropped(nums, 3))
    } else if (nums[0] == 38 || nums[0] == 48) && nth(nums, 1, 0) == 2 {
        let next = if nums[0] == 38 {
            Style { hue: rgb_hue(nth(nums, 2, 0), nth(nums, 3, 0), nth(nums, 4, 0)), ..style }
        } else {
            style
        };
        sgr_all(next, dropped(nums, 5))
    } else {
        sgr_all(sgr_one(style, nums[0]), dropped(nums, 1))
    }
}

/// `style` after one `m` sequence: no numbers at all reset it.
pub open spec fn sgr_list(style: Style, nums: Seq<int>) -> Style {
    if nums.len() == 0 {
        Style::plain()
    } else {
        sgr_all(style, nums)
    }
}

/// What a terminal holds: the lines, the cursor, the current style, the parser's position, the
/// bytes of an unfinished character, and how many lines were dropped from the front.
#[verifier::ext_equal]
pub struct Screen {
    pub lines: Seq<Seq<Cell>>,
    pub row: int,
    pub col: int,
    pub style: Style,
    pub mode: Mode,
    pub partial: Seq<u8>,
    pub dropped: int,
    pub max_lines: int,
}

impl Screen {
    /// The cursor is on one of the lines.
    pub open spec fn wf(self) -> bool {
        0 <= self.row < self.lines.len()
    }

    /// A fresh screen: one empty line.
    pub open spec fn fresh() -> Screen {
        Screen {
            lines: seq![Seq::<Cell>::empty()],
            row: 0,
            col: 0,
            style: Style::plain(),
            mode: Mode::Ground,
            partial: Seq::empty(),
            dropped: 0,
            max_lines: 20_000,
        }
    }

    /// The same screen with another line under the cursor.
    pub open spec fn with_line(self, line: Seq<Cell>) -> Screen {
        Screen { lines: self.lines.update(self.row, line), ..self }
    }

    /// The cursor at the start of the next line, which is added where there is none.
    pub open spec fn newline(self) -> Screen {
        Screen {
            lines: grown(self.lines, self.row + 2),
            row: self.row + 1,
            col: 0,
            ..self
        }
    }

    /// `ch` written at the cursor in the current style; the cursor moves right.
    pub open spec fn written(self, ch: char) -> Screen {
        let cell = Cell { ch, style: self.style };
        Screen {
            lines: self.lines.update(self.row, placed(self.lines[self.row], self.col, cell)),
            col: sat(self.col + 1),
            ..self
        }
    }

    /// The effect of `CSI params fin`.
    pub open spec fn csi(self, params: Seq<char>, fin: char) -> Screen {
        let nums = csi_numbers(params);
        let private = params.len() > 0 && params[0] == '?';
        let n = count(nums);
        let line = self.lines[self.row];
        if fin == 'm' && !private {
            Screen { style: sgr_list(self.style, nums), ..self }
        } else if fin == 'A' {
            Screen {
                row: if self.row >= n {
                    self.row - n
                } else {
                    0
                },
                ..self
            }
        } else if fin == 'B' {
            Screen {
                row: sat(self.row + n),
                lines: grown(self.lines, sat(self.row + n) + 1),
                ..self
            }
        } else if fin == 'C' {
            Screen { col: sat(self.col + n), ..self }
        } else if fin == 'D' {
            Screen {
                col: if self.col >= n {
                    self.col - n
                } else {
                    0
                },
                ..self
            }
        } else if fin == 'G' {
            Screen { col: n - 1, ..self }
        } else if fin == 'H' || fin == 'f' {
            Screen {
                col: if nth(nums, 1, 1) > 1 {
                    nth(nums, 1, 1) - 1
                } else {
                    0
                },
                ..self
            }
        } else if fin == 'K' {
            if nth(nums, 0, 0) == 0 {
                self.with_line(cut(line, self.col))
            } else if nth(nums, 0, 0) == 1 {
                self.with_line(blanked(line, self.col))
            } else {
                self.with_line(Seq::empty())
            }
        } else if fin == 'J' {
            if nth(nums, 0, 0) == 0 {
                let s = self.with_line(cut(line, self.col));
                Screen { lines: s.lines.take(self.row + 1), ..s }
            } else {
                let lines = if self.lines.last().len() > 0 {
                    self.lines.push(Seq::empty())
                } else {
                    self.lines
                };
                Screen { lines, row: lines.len() - 1, col: 0, ..self }
            }
        } else {
            self
        }
    }

    /// The effect of one character.
    pub open spec fn put(self, ch: char) -> Screen {
        match self.mode {
            Mode::Ground => if ch == '\x1b' {
                Screen { mode: Mode::Esc, ..self }
            } else if ch == '\r' {
                Screen { col: 0, ..self }
            } else if ch == '\n' {
                self.newline()
            } else if ch == '\t' {
                Screen { col: sat((self.col / 8 + 1) * 8), ..self }
            } else if ch == '\x08' {
                Screen {
                    col: if self.col > 0 {
                        self.col - 1
                    } else {
                        0
                    },
                    ..self
                }
            } else if '\x20' > ch {
                self
            } else {
                self.written(ch)
            },
            Mode::Esc => Screen {
                mode: if ch == '[' {
                    Mode::Csi(Seq::empty())
                } else if ch == ']' {
                    Mode::Osc(false)
                } else if ch == '(' || ch == ')' {
                    Mode::Charset
                } else {
                    Mode::Ground
                },
                ..self
            },
            Mode::Csi(params) => if '\x40' <= ch <= '\x7e' {
                Screen { mode: Mode::Ground, ..self }.csi(params, ch)
            } else {
                Screen { mode: Mode::Csi(params.push(ch)), ..self }
            },
            Mode::Osc(esc) => Screen {
                mode: if ch == '\x07' || (ch == '\\' && esc) {
                    Mode::Ground
                } else {
                    Mode::Osc(ch == '\x1b')
                },
                ..self
            },
            Mode::Charset => Screen { mode: Mode::Ground, ..self },
        }
    }

    /// The effect of a text, character by character.
    pub open spec fn put_all(self, text: Seq<char>) -> Screen
        decreases text.len(),
    {
        if text.len() == 0 {
            self
        } else {
            self.put_all(text.drop_last()).put(text.last())
        }
    }

    /// How many lines [`Screen::trim`] drops: the excess and a tenth of the limit, but never the
    /// cursor's line.
    pub open spec fn surplus(self) -> int {
        if self.lines.len() > self.max_lines {
            let n = self.lines.len() - self.max_lines + self.max_lines / 10;
            if n < self.row {
                n
            } else {
                self.row
            }
        } else {
            0
        }
    }

    /// The oldest lines dropped once there are more than `max_lines`.
    pub open spec fn trim(self) -> Screen {
        Screen {
            lines: self.lines.skip(self.surplus()),
            row: self.row - self.surplus(),
            dropped: sat(self.dropped + self.surplus()),
            ..self
        }
    }

    /// The effect of some bytes on the lines, before old ones are dropped.
    pub open spec fn absorb(self, bytes: Seq<u8>) -> Screen {
        let (text, rest) = decoded(self.partial + bytes);
        Screen { partial: rest, ..self }.put_all(text)
    }

    /// The effect of some bytes.
    pub open spec fn feed(self, bytes: Seq<u8>) -> Screen {
        self.absorb(bytes).trim()
    }

    /// The effect of some chunks of bytes, one after the other.
    pub open spec fn feed_all(self, chunks: Seq<Seq<u8>>) -> Screen
        decreases chunks.len(),
    {
        if chunks.len() == 0 {
            self
        } else {
            self.feed_all(chunks.drop_last()).feed(chunks.last())
        }
    }

    /// The text of line `i`, trailing white space trimmed; empty where there is no such line.
    pub open spec fn text(self, i: int) -> Seq<char> {
        if 0 <= i < self.lines.len() {
            trimmed_end(glyphs(self.lines[i]))
        } else {
            Seq::empty()
        }
    }
}

/// The characters of some cells.
pub open spec fn glyphs(cells: Seq<Cell>) -> Seq<char> {
    cells.map_values(|c: Cell| c.ch)
}

/// `line` without its trailing spaces.
pub open spec fn unspaced(line: Seq<Cell>) -> Seq<Cell>
    decreases line.len(),
{
    if line.len() > 0 && line.last().ch == ' ' {
        unspaced(line.drop_last())
    } else {
        line
    }
}

/// One cell more in some runs.
pub open spec fn runs_step(before: Seq<RunView>, c: Cell) -> Seq<RunView> {
    if before.len() > 0 && before.last().style == c.style {
        before.drop_last().push(RunView { text: before.last().text.push(c.ch), style: c.style })
    } else {
        before.push(RunView { text: seq![c.ch], style: c.style })
    }
}

/// The maximal runs of equally styled cells.
pub open spec fn runs_of(cells: Seq<Cell>) -> Seq<RunView>
    decreases cells.len(),
{
    if cells.len() == 0 {
        Seq::empty()
    } else {
        runs_step(runs_of(cells.drop_last()), cells.last())
    }
}

// ------------------------------------------------------------------ colours

fn hue_rgb(r: usize, g: usize, b: usize) -> (h: Hue)
    ensures
        h == rgb_hue(r as int, g as int, b as int),
{
    let max: usize = if r >= g && r >= b {
        r
    } else if g >= b {
        g
    } else {
        b
    };
    if max < 40 {
        return Hue::Black;
    }
    let bar: u128 = max as u128 * 2;
    match (r as u128 * 3 >= bar, g as u128 * 3 >= bar, b as u128 * 3 >= bar) {
        (true, true, true) => Hue::White,
        (true, false, false) => Hue::Red,
        (false, true, false) => Hue::Green,
        (true, true, false) => Hue::Yellow,
        (false, false, true) => Hue::Blue,
        (true, false, true) => Hue::Magenta,
        (false, true, true) => Hue::Cyan,
        (false, false, false) => Hue::Default,
    }
}

fn hue_basic(n: usize) -> (h: Hue)
    ensures
        h == basic_hue(n as int),
{
    match n {
        0 => Hue::Black,
        1 => Hue::Red,
        2 => Hue::Green,
        3 => Hue::Yellow,
        4 => Hue::Blue,
        5 => Hue::Magenta,
        6 => Hue::Cyan,
        _ => Hue::White,
    }
}

fn hue_256(n: usize) -> (h: Hue)
    ensures
        h == palette_hue(n as int),
{
    if n < 16 {
        hue_basic(n % 8)
    } else if n <= 231 {
        let m: usize = n - 16;
        hue_rgb(m / 36 * 51, m / 6 % 6 * 51, m % 6 * 51)
    } else {
        Hue::White
    }
}

/// The number at index `i`, or `default`.
fn num_at(nums: &[usize], i: usize, default: usize) -> (r: usize)
    ensures
        r == nth(ints(nums@), i as int, default as int),
{
    if i < nums.len() {
        nums[i]
    } else {
        default
    }
}

/// The mathematical values of some machine integers.
pub open spec fn ints(v: Seq<usize>) -> Seq<int> {
    v.map_values(|n: usize| n as int)
}

/// The style after one SGR number that stands for itself.
fn sgr_single(style: Style, n: usize) -> (r: Style)
    ensures
        r == sgr_one(style, n as int),
{
    if n == 0 {
        Style::default()
    } else if n == 1 {
        Style { bold: true, ..style }
    } else if n == 2 || n == 90 {
        Style { dim: true, ..style }
    } else if n == 22 {
        Style { bold: false, dim: false, ..style }
    } else if 30 <= n && n <= 37 {
        Style { hue: hue_basic(n - 30), ..style }
    } else if 91 <= n && n <= 97 {
        Style { hue: hue_basic(n - 90), ..style }
    } else if n == 39 {
        Style { hue: Hue::Default, ..style }
    } else {
        style
    }
}

/// The style after a list of SGR numbers.
fn sgr(start: Style, nums: &[usize]) -> (r: Style)
    ensures
        r == sgr_list(start, ints(nums@)),
{
    if nums.len() == 0 {
        return Style::default();
    }
    let mut style = start;
    let mut i: usize = 0;
    let ghost all = ints(nums@);
    assert(dropped(all, 0) =~= all);
    while i < nums.len()
        invariant
            all == ints(nums@),
            sgr_all(start, all) == sgr_all(style, dropped(all, i as int)),
        decreases nums.len() - i,
    {
        let n: usize = nums[i];
        let ghost rest = dropped(all, i as int);
        assert(rest[0] == n);
        let kind: usize = if i + 1 < nums.len() {
            nums[i + 1]
        } else {
            0
        };
        assert(kind == nth(rest, 1, 0));
        let left: usize = nums.len() - i;
        if (n == 38 || n == 48) && kind == 5 {
            if n == 38 {
                let c: usize = if 2 < left {
                    nums[i + 2]
                } else {
                    7
                };
                assert(c == nth(rest, 2, 7));
                style = Style { hue: hue_256(c), ..style };
            }
            let step: usize = if left < 3 {
                left
            } else {
                3
            };
            assert(dropped(rest, 3) =~= dropped(all, i + step));
            i += step;
        } else if (n == 38 || n == 48) && kind == 2 {
            if n == 38 {
                let r: usize = if 2 < left {
                    nums[i + 2]
                } else {
                    0
                };
                let g: usize = if 3 < left {
                    nums[i + 3]
                } else {
                    0
                };
                let b: usize = if 4 < left {
                    nums[i + 4]
                } else {
                    0
                };
                assert(r == nth(rest, 2, 0));
                assert(g == nth(rest, 3, 0));
                assert(b == nth(rest, 4, 0));
                style = Style { hue: hue_rgb(r, g, b), ..style };
            }
            let step: usize = if left < 5 {
                left
            } else {
                5
            };
            assert(dropped(rest, 5) =~= dropped(all, i + step));
            i += step;
        } else {
            style = sgr_single(style, n);
            assert(dropped(rest, 1) =~= dropped(all, i + 1));
            i += 1;
        }
    }
    style
}

/// The numbers of a CSI parameter string.
fn numbers(params: &[char]) -> (r: Vec<usize>)
    ensures
        ints(r@) == csi_numbers(params@),
{
    let parts = split(trim_start_of(params, "?"), ';');
    let mut out: Vec<usize> = Vec::new();
    let mut i: usize = 0;
    while i < parts.len()
        invariant
            i <= parts.len(),
            out.len() == i,
            slices(parts@) == pieces(trimmed_start_of(params@, "?"@), ';'),
            forall|j: int| 0 <= j < i ==> #[trigger] out@[j] as int == csi_numbers(params@)[j],
        decreases parts.len() - i,
    {
        let n: usize = match parse_usize(parts[i]) {
            Some(n) => n,
            None => 0,
        };
        assert(slices(parts@)[i as int] == parts@[i as int]@);
        out.push(n);
        i += 1;
    }
    assert(slices(parts@).len() == parts@.len());
    assert(ints(out@) =~= csi_numbers(params@));
    out
}

// ------------------------------------------------------------------ the terminal

/// The lines of a terminal, its cursor, and what its parser is in the middle of.
pub struct Page {
    lines: Vec<Vec<Cell>>,
    row: usize,
    col: usize,
    cur: Style,
    state: State,
    /// Incomplete UTF-8 sequence carried over between `feed` calls.
    partial: Vec<u8>,
}

/// The terminal: the console panel's lines and the parser of a program's output.
pub struct Terminal {
    /// The lines and the cursor.
    pub page: Page,
    /// Lines dropped from the front so far (so callers can keep stable indices).
    pub dropped: usize,
    /// Lines kept before the oldest are dropped.
    pub max_lines: usize,
}

/// The views of some lines.
pub open spec fn line_views(v: Seq<Vec<Cell>>) -> Seq<Seq<Cell>> {
    v.map_values(|l: Vec<Cell>| l@)
}

impl Page {
    /// The screen that shows the page, `dropped` lines having been dropped before it and
    /// `max_lines` being kept.
    pub closed spec fn shown(&self, dropped: int, max_lines: int) -> Screen {
        Screen {
            lines: line_views(self.lines@),
            row: self.row as int,
            col: self.col as int,
            style: self.cur,
            mode: self.state@,
            partial: self.partial@,
            dropped,
            max_lines,
        }
    }
}

impl View for Terminal {
    type V = Screen;

    open spec fn view(&self) -> Screen {
        let dropped = self.dropped as int;
        let max_lines = self.max_lines as int;
        Screen { dropped, max_lines, ..self.page.shown(dropped, max_lines) }
    }
}

impl Default for Terminal {
    fn default() -> (r: Self)
        ensures
            r@ == Screen::fresh(),
            r.dropped == r@.dropped,
            r.max_lines == r@.max_lines,
    {
        Self::new()
    }
}

impl Terminal {
    /// The cursor is on one of the lines.
    pub open spec fn wf(&self) -> bool {
        self@.wf()
    }

    /// A terminal with one empty line.
    pub fn new() -> (r: Self)
        ensures
            r.wf(),
            r@ == Screen::fresh(),
            r.dropped == r@.dropped,
            r.max_lines == r@.max_lines,
    {
        let mut lines: Vec<Vec<Cell>> = Vec::new();
        lines.push(Vec::new());
        let page = Page {
            lines,
            row: 0,
            col: 0,
            cur: Style::default(),
            state: State::Ground,
            partial: Vec::new(),
        };
        let r = Self { page, dropped: 0, max_lines: 20_000 };
        assert(r@.lines =~= seq![Seq::<Cell>::empty()]);
        r
    }

    /// Everything gone, as in a new terminal.
    pub fn clear(&mut self)
        ensures
            final(self)@ == Screen::fresh(),
            final(self).dropped == final(self)@.dropped,
            final(self).max_lines == final(self)@.max_lines,
    {
        *self = Self::new();
    }

    /// The number of lines.
    pub fn len(&self) -> (r: usize)
        ensures
            r == self@.lines.len(),
    {
        self.page.lines.len()
    }

    /// Whether nothing has been written: one line, and it is empty.
    pub fn is_empty(&self) -> (r: bool)
        ensures
            r == (self@.lines.len() == 1 && self@.lines[0].len() == 0),
    {
        self.page.lines.len() == 1 && self.page.lines[0].len() == 0
    }

    /// Row the cursor is on (the line a prompt would be waiting on).
    pub fn cursor_row(&self) -> (r: usize)
        ensures
            r == self@.row,
    {
        self.page.row
    }

    /// Plain text of line `i` (trailing spaces trimmed).
    pub fn text(&self, i: usize) -> (r: String)
        ensures
            r@ == self@.text(i as int),
    {
        if i >= self.page.lines.len() {
            return String::new();
        }
        let line = &self.page.lines[i];
        let mut cs: Vec<char> = Vec::new();
        let mut j: usize = 0;
        while j < line.len()
            invariant
                j <= line.len(),
                cs@ == glyphs(line@.take(j as int)),
            decreases line.len() - j,
        {
            cs.push(line[j].ch);
            j += 1;
            assert(cs@ =~= glyphs(line@.take(j as int)));
        }
        assert(line@.take(line@.len() as int) =~= line@);
        string_of(trim_end(&cs))
    }

    /// Text of the cursor line: what a program waiting for input has just printed.
    pub fn cursor_text(&self) -> (r: String)
        ensures
            r@ == self@.text(self@.row),
    {
        self.text(self.page.row)
    }

    /// The last `n` lines as plain text, oldest first (for prompt context such as numbered lists).
    pub fn tail(&self, n: usize) -> (r: Vec<String>)
        ensures
            ({
                let start = if n <= self@.lines.len() {
                    self@.lines.len() - n
                } else {
                    0
                };
                texts(r@) == Seq::new(
                    (self@.lines.len() - start) as nat,
                    |i: int| self@.text(start + i),
                )
            }),
    {
        let start: usize = self.page.lines.len().saturating_sub(n);
        let mut out: Vec<String> = Vec::new();
        let mut i: usize = start;
        while i < self.page.lines.len()
            invariant
                start <= i <= self.page.lines.len(),
                out.len() == i - start,
                forall|j: int| 0 <= j < out.len() ==> (#[trigger] out@[j])@ == self@.text(start + j),
            decreases self.page.lines.len() - i,
        {
            out.push(self.text(i));
            i += 1;
        }
        assert(texts(out@) =~= Seq::new(
            (self@.lines.len() - start) as nat,
            |i: int| self@.text(start + i),
        ));
        out
    }

    /// Styled runs of line `i`.
    pub fn runs(&self, i: usize) -> (r: Vec<Run>)
        ensures
            r@.map_values(|x: Run| x@) == (if i < self@.lines.len() {
                runs_of(unspaced(self@.lines[i as int]))
            } else {
                Seq::empty()
            }),
    {
        let mut out: Vec<Run> = Vec::new();
        if i >= self.page.lines.len() {
            assert(out@.map_values(|x: Run| x@) =~= Seq::<RunView>::empty());
            return out;
        }
        let line = &self.page.lines[i];
        // trailing spaces carry no information; drop them (keeps wrapped labels tidy)
        let mut end: usize = line.len();
        assert(line@.take(end as int) =~= line@);
        while end > 0 && line[end - 1].ch == ' '
            invariant
                end <= line.len(),
                unspaced(line@) == unspaced(line@.take(end as int)),
            decreases end,
        {
            assert(line@.take(end as int).drop_last() =~= line@.take(end - 1));
            end -= 1;
        }
        let mut j: usize = 0;
        assert(out@.map_values(|x: Run| x@) =~= runs_of(line@.take(0)));
        while j < end
            invariant
                j <= end <= line.len(),
                out@.map_values(|x: Run| x@) == runs_of(line@.take(j as int)),
            decreases end - j,
        {
            let c = line[j];
            let ghost before = out@.map_values(|x: Run| x@);
            assert(line@.take(j + 1).drop_last() =~= line@.take(j as int));
            assert(line@.take(j + 1).last() == c);
            assert(out@.len() > 0 ==> before.last() == out@.last()@);
            match out.pop() {
                Some(mut r) => {
                    if r.style == c.style {
                        r.text.push(c.ch);
                        out.push(r);
                    } else {
                        out.push(r);
                        out.push(single(c));
                    }
                },
                None => {
                    out.push(single(c));
                },
            }
            j += 1;
            assert(out@.map_values(|x: Run| x@) =~= runs_of(line@.take(j as int)));
        }
        out
    }

    /// Feed raw bytes from the pty.
    pub fn feed(&mut self, bytes: &[u8])
        requires
            old(self).wf(),
        ensures
            final(self).wf(),
            final(self)@ == old(self)@.feed(bytes@),
            final(self).dropped == final(self)@.dropped,
            final(self).max_lines == final(self)@.max_lines,
    {
        let mut buf: Vec<u8> = Vec::new();
        std::mem::swap(&mut buf, &mut self.page.partial);
        buf.extend_from_slice(bytes);
        assert(buf@ =~= old(self)@.partial + bytes@);
        let (text, rest) = decode(&buf);
        self.page.partial = rest;
        self.put_text(&text);
        self.trim();
    }

    /// Every character of a text, in order.
    #[verifier::spinoff_prover]
    #[verifier::rlimit(40)]
    fn put_text(&mut self, text: &[char])
        requires
            old(self).wf(),
        ensures
            final(self).wf(),
            final(self)@ == old(self)@.put_all(text@),
    {
        let ghost start = self@;
        let mut i: usize = 0;
        assert(text@.take(0) =~= Seq::empty());
        while i < text.len()
            invariant
                i <= text.len(),
                self.wf(),
                self@ == start.put_all(text@.take(i as int)),
            decreases text.len() - i,
        {
            assert(text@.take(i + 1).drop_last() =~= text@.take(i as int));
            proof {
                lemma_put_all_step(start, text@.take(i + 1));
            }
            self.put(text[i]);
            i += 1;
        }
        assert(text@.take(text@.len() as int) =~= text@);
    }

    fn put(&mut self, ch: char)
        requires
            old(self).wf(),
        ensures
            final(self).wf(),
            final(self)@ == old(self)@.put(ch),
    {
        let mut state = State::Ground;
        std::mem::swap(&mut state, &mut self.page.state);
        match state {
            State::Ground => {
                if ch == '\x1b' {
                    self.page.state = State::Esc;
                } else if ch == '\r' {
                    self.page.col = 0;
                } else if ch == '\n' {
                    self.newline();
                } else if ch == '\t' {
                    let stop: u128 = (self.page.col as u128 / 8 + 1) * 8;
                    self.page.col =
                    if stop > usize::MAX as u128 {
                        usize::MAX
                    } else {
                        stop as usize
                    };
                } else if ch == '\x08' {
                    self.page.col = self.page.col.saturating_sub(1);
                } else if '\x20' > ch {
                } else {
                    self.write_char(ch);
                }
            },
            State::Esc => {
                self.page.state =
                if ch == '[' {
                    State::Csi(Vec::new())
                } else if ch == ']' {
                    State::Osc(false)
                } else if ch == '(' || ch == ')' {
                    State::Charset
                } else {
                    // ESC 7 / ESC 8 (save / restore cursor), ESC = / ESC > (keypad), ESC c (reset)...
                    State::Ground
                };
            },
            State::Csi(mut params) => {
                if '\x40' <= ch && ch <= '\x7e' {
                    self.csi(&params, ch);
                } else {
                    params.push(ch);
                    self.page.state = State::Csi(params);
                }
            },
            State::Osc(esc) => {
                if ch == '\x07' || (ch == '\\' && esc) {
                } else {
                    self.page.state = State::Osc(ch == '\x1b');
                }
            },
            State::Charset => {},
        }
        assert(self@ =~= old(self)@.put(ch));
    }

    fn newline(&mut self)
        requires
            old(self).wf(),
        ensures
            final(self).wf(),
            final(self)@ == old(self)@.newline(),
    {
        let n: usize = self.page.lines.len();
        self.page.row += 1;
        self.page.col = 0;
        if self.page.row >= self.page.lines.len() {
            self.page.lines.push(Vec::new());
        }
        assert(self@.lines =~= grown(old(self)@.lines, old(self)@.row + 2));
    }

    fn write_char(&mut self, ch: char)
        requires
            old(self).wf(),
        ensures
            final(self).wf(),
            final(self)@ == old(self)@.written(ch),
    {
        let row: usize = self.page.row;
        let col: usize = self.page.col;
        let cell = Cell { ch, style: self.page.cur };
        let mut line: Vec<Cell> = Vec::new();
        std::mem::swap(&mut line, &mut self.page.lines[row]);
        let ghost before = line@;
        assert(before == old(self)@.lines[row as int]);
        while line.len() < col
            invariant
                line@ == padded(before, line.len() as int),
                line.len() <= col || line@ == before,
                line.len() >= before.len(),
            decreases col - line.len(),
        {
            line.push(Cell { ch: ' ', style: Style::default() });
            assert(line@ =~= padded(before, line.len() as int));
        }
        if col < line.len() {
            line.set(col, cell);
        } else {
            line.push(cell);
        }
        assert(line@ =~= placed(before, col as int, cell));
        self.page.lines.set(row, line);
        self.page.col = col.saturating_add(1);
        assert(self@.lines =~= old(self)@.lines.update(row as int, placed(before, col as int, cell)));
    }

    /// The line under the cursor replaced.
    fn set_line(&mut self, line: Vec<Cell>)
        requires
            old(self).wf(),
        ensures
            final(self).wf(),
            final(self)@ == old(self)@.with_line(line@),
    {
        let row: usize = self.page.row;
        let ghost l = line@;
        self.page.lines.set(row, line);
        assert(self@.lines =~= old(self)@.lines.update(row as int, l));
    }

    /// The line under the cursor taken out; an empty one stands in its place.
    fn take_line(&mut self) -> (line: Vec<Cell>)
        requires
            old(self).wf(),
        ensures
            final(self).wf(),
            line@ == old(self)@.lines[old(self)@.row],
            final(self)@ == old(self)@.with_line(Seq::empty()),
    {
        let mut line: Vec<Cell> = Vec::new();
        let row: usize = self.page.row;
        std::mem::swap(&mut line, &mut self.page.lines[row]);
        assert(self@.lines =~= old(self)@.lines.update(row as int, Seq::empty()));
        line
    }

    /// Empty lines added until there is one at `row`.
    fn grow(&mut self, row: usize)
        ensures
            final(self)@ == (Screen { lines: grown(old(self)@.lines, row + 1), ..old(self)@ }),
    {
        let ghost before = self@;
        while row >= self.page.lines.len()
            invariant
                self@.lines.len() >= before.lines.len(),
                self@.lines.len() <= row + 1 || self@.lines == before.lines,
                self@ == (Screen { lines: grown(before.lines, self@.lines.len() as int), ..before }),
            decreases row + 1 - self.page.lines.len(),
        {
            let ghost prev = self@.lines;
            self.page.lines.push(Vec::new());
            assert(self@.lines =~= prev.push(Seq::empty()));
            assert(self@.lines =~= grown(before.lines, self@.lines.len() as int));
        }
        assert(self@.lines =~= grown(before.lines, row + 1));
    }

    fn csi(&mut self, params: &[char], fin: char)
        requires
            old(self).wf(),
        ensures
            final(self).wf(),
            final(self)@ == old(self)@.csi(params@, fin),
    {
        let private = params.len() > 0 && params[0] == '?';
        let nums = numbers(params);
        let first: usize = num_at(&nums, 0, 0);
        let n: usize = if first == 0 {
            1
        } else {
            first
        };
        assert(n == count(csi_numbers(params@)));
        let ghost before = self@;
        if fin == 'm' && !private {
            self.page.cur = sgr(self.page.cur, &nums);
        } else if fin == 'A' {
            self.page.row = self.page.row.saturating_sub(n);
        } else if fin == 'B' {
            let row: usize = self.page.row.saturating_add(n);
            self.page.row = row;
            self.grow(row);
        } else if fin == 'C' {
            self.page.col = self.page.col.saturating_add(n);
        } else if fin == 'D' {
            self.page.col = self.page.col.saturating_sub(n);
        } else if fin == 'G' {
            self.page.col = n - 1;
        } else if fin == 'H' || fin == 'f' {
            // absolute positioning has no meaning without a screen; treat as "column"
            let c: usize = num_at(&nums, 1, 1);
            self.page.col =
            if c > 1 {
                c - 1
            } else {
                0
            };
        } else if fin == 'K' {
            let mut line = self.take_line();
            if first == 0 {
                line.truncate(self.page.col);
                assert(line@ =~= cut(before.lines[before.row], before.col));
            } else if first == 1 {
                let ghost whole = line@;
                let mut i: usize = 0;
                while i < line.len() && i <= self.page.col
                    invariant
                        line.len() == whole.len(),
                        i <= line.len(),
                        i <= self.page.col + 1,
                        forall|j: int|
                            0 <= j < line.len() ==> line@[j] == (if j < i {
                                Cell { ch: ' ', style: whole[j].style }
                            } else {
                                whole[j]
                            }),
                    decreases line.len() - i,
                {
                    let style = line[i].style;
                    line.set(i, Cell { ch: ' ', style });
                    i += 1;
                }
                assert(line@ =~= blanked(whole, before.col));
            } else {
                line.clear();
            }
            let ghost l = line@;
            self.set_line(line);
            assert(self@.lines =~= before.with_line(l).lines);
        } else if fin == 'J' {
            if first == 0 {
                let mut line = self.take_line();
                line.truncate(self.page.col);
                let ghost l = line@;
                assert(l =~= cut(before.lines[before.row], before.col));
                self.set_line(line);
                assert(self@.lines =~= before.with_line(l).lines);
                let len: usize = self.page.lines.len();
                self.page.lines.truncate(self.page.row + 1);
                assert(self@.lines =~= before.with_line(l).lines.take(before.row + 1));
            } else {
                // clear screen: keep the history, start a fresh line
                let last: usize = self.page.lines.len() - 1;
                if self.page.lines[last].len() > 0 {
                    self.page.lines.push(Vec::new());
                    assert(self@.lines =~= before.lines.push(Seq::empty()));
                }
                self.page.row = self.page.lines.len() - 1;
                self.page.col = 0;
            }
        }
        // cursor show / hide, bracketed paste, alternate screen, save / restore: ignored
        assert(self@ =~= before.csi(params@, fin));
    }

    fn trim(&mut self)
        requires
            old(self).wf(),
        ensures
            final(self).wf(),
            final(self)@ == old(self)@.trim(),
    {
        let len: usize = self.page.lines.len();
        if len > self.max_lines {
            let n: usize = len - self.max_lines + self.max_lines / 10;
            let drop: usize = if n < self.page.row {
                n
            } else {
                self.page.row
            };  // never drop the cursor line
            let kept = self.page.lines.split_off(drop);
            self.page.lines = kept;
            self.page.row -= drop;
            self.dropped = self.dropped.saturating_add(drop);
        }
        assert(self@.lines =~= old(self)@.lines.skip(old(self)@.surplus()));
    }
}

/// A run of one cell.
fn single(c: Cell) -> (r: Run)
    ensures
        r@ == (RunView { text: seq![c.ch], style: c.style }),
{
    let mut text = String::new();
    text.push(c.ch);
    assert(text@ =~= seq![c.ch]);
    Run { text, style: c.style }
}

// ------------------------------------------------------------------ laws

#[verifier::spinoff_prover]
#[verifier::rlimit(40)]
proof fn lemma_put_all_add(s: Screen, a: Seq<char>, b: Seq<char>)
    ensures
        s.put_all(a + b) == s.put_all(a).put_all(b),
    decreases b.len(),
{
    if b.len() == 0 {
        assert(a + b =~= a);
    } else {
        let all = a + b;
        assert(all.drop_last() =~= a + b.drop_last());
        lemma_put_all_add(s, a, b.drop_last());
        lemma_put_all_step(s, all);
        lemma_put_all_step(s.put_all(a), b);
    }
}

proof fn lemma_put_all_step(s: Screen, text: Seq<char>)
    requires
        text.len() > 0,
    ensures
        s.put_all(text) == s.put_all(text.drop_last()).put(text.last()),
{
}

proof fn lemma_csi_partial(s: Screen, params: Seq<char>, fin: char, p: Seq<u8>)
    ensures
        (Screen { partial: p, ..s }).csi(params, fin) == (Screen {
            partial: p,
            ..s.csi(params, fin)
        }),
        s.csi(params, fin).partial == s.partial,
{
}

/// The bytes that wait for the rest of their character play no part in [`Screen::put`].
proof fn lemma_put_partial(s: Screen, ch: char, p: Seq<u8>)
    ensures
        (Screen { partial: p, ..s }).put(ch) == (Screen { partial: p, ..s.put(ch) }),
        s.put(ch).partial == s.partial,
{
    match s.mode {
        Mode::Csi(params) => {
            lemma_csi_partial(Screen { mode: Mode::Ground, ..s }, params, ch, p);
        },
        _ => {},
    }
}

proof fn lemma_put_all_partial(s: Screen, text: Seq<char>, p: Seq<u8>)
    ensures
        (Screen { partial: p, ..s }).put_all(text) == (Screen { partial: p, ..s.put_all(text) }),
        s.put_all(text).partial == s.partial,
    decreases text.len(),
{
    if text.len() > 0 {
        lemma_put_all_partial(s, text.drop_last(), p);
        lemma_put_partial(s.put_all(text.drop_last()), text.last(), p);
    }
}

/// Where a stream of bytes is cut makes no difference: two chunks, one after the other, do what
/// they do in one go. Characters, bad sequences and escape sequences may be cut anywhere.
pub proof fn chunk_boundaries_do_not_matter(s: Screen, a: Seq<u8>, b: Seq<u8>)
    ensures
        s.absorb(a).absorb(b) == s.absorb(a + b),
{
    let x = s.partial + a;
    assert(s.partial + (a + b) =~= x + b);
    decoding_in_parts(x, b);
    lemma_put_all_twice(s, decoded(x).0, decoded(x).1, decoded(decoded(x).1 + b).0, decoded(x + b).1);
}

proof fn lemma_put_all_twice(s: Screen, t1: Seq<char>, r1: Seq<u8>, t2: Seq<char>, r2: Seq<u8>)
    ensures
        (Screen { partial: r1, ..s }).put_all(t1).partial == r1,
        (Screen { partial: r2, ..(Screen { partial: r1, ..s }).put_all(t1) }).put_all(t2) == (
        Screen { partial: r2, ..s }).put_all(t1 + t2),
{
    lemma_put_all_partial(Screen { partial: r1, ..s }, t1, r2);
    lemma_put_all_add(Screen { partial: r2, ..s }, t1, t2);
}

proof fn lemma_put_all_keeps(s: Screen, text: Seq<char>)
    requires
        s.wf(),
    ensures
        s.put_all(text).wf(),
        s.put_all(text).dropped == s.dropped,
        s.put_all(text).max_lines == s.max_lines,
    decreases text.len(),
{
    if text.len() > 0 {
        let before = s.put_all(text.drop_last());
        lemma_put_all_keeps(s, text.drop_last());
        put_keeps_the_cursor_on_a_line(before, text.last());
        lemma_put_keeps_counts(before, text.last());
    }
}

proof fn lemma_put_keeps_counts(s: Screen, ch: char)
    ensures
        s.put(ch).dropped == s.dropped,
        s.put(ch).max_lines == s.max_lines,
{
}

/// A feed keeps what it does not have to drop. Once it is done, there are at most `max_lines`
/// lines, or the cursor is on the first one; only lines from the front are gone, never the
/// cursor's; and `dropped` counts them, so that line `i` of those before is found at the same
/// distance from it. (Only the count itself ends at `usize::MAX`.)
pub proof fn feed_drops_only_old_lines(s: Screen, bytes: Seq<u8>, i: int)
    requires
        s.wf(),
        s.max_lines >= 0,
        0 <= s.dropped <= usize::MAX,
    ensures
        ({
            let before = s.absorb(bytes);
            let after = s.feed(bytes);
            let gone = before.lines.len() - after.lines.len();
            &&& after.wf()
            &&& after.max_lines == s.max_lines
            &&& after.lines.len() <= s.max_lines || after.row == 0
            &&& 0 <= gone <= before.row
            &&& after.lines == before.lines.skip(gone)
            &&& after.row == before.row - gone
            &&& after.lines[after.row] == before.lines[before.row]
            &&& s.dropped <= after.dropped <= usize::MAX
            &&& s.dropped + gone <= usize::MAX ==> after.dropped == s.dropped + gone
            &&& s.dropped + gone <= usize::MAX && gone <= i < before.lines.len() ==> after.lines[i
                - (after.dropped - s.dropped)] == before.lines[i]
        }),
{
    let (text, rest) = decoded(s.partial + bytes);
    lemma_put_all_keeps(Screen { partial: rest, ..s }, text);
}

/// Whatever is fed to a new terminal, it keeps at most twenty thousand lines, or the cursor is on
/// the first one.
pub proof fn history_is_capped(chunks: Seq<Seq<u8>>)
    ensures
        ({
            let t = Screen::fresh().feed_all(chunks);
            &&& t.wf()
            &&& t.max_lines == 20_000
            &&& t.lines.len() <= 20_000 || t.row == 0
            &&& 0 <= t.dropped <= usize::MAX
        }),
    decreases chunks.len(),
{
    if chunks.len() > 0 {
        history_is_capped(chunks.drop_last());
        feed_drops_only_old_lines(
            Screen::fresh().feed_all(chunks.drop_last()),
            chunks.last(),
            0,
        );
    }
}

/// Every step keeps the cursor on one of the lines.
pub proof fn put_keeps_the_cursor_on_a_line(s: Screen, ch: char)
    requires
        s.wf(),
    ensures
        s.put(ch).wf(),
{
    assert forall|params: Seq<char>| #[trigger]
        (Screen { mode: Mode::Ground, ..s }).csi(params, ch).wf() by {
        let nums = csi_numbers(params);
        assert(nth(nums, 0, 0) >= 0) by {
            lemma_csi_numbers(params);
        }
        lemma_csi_numbers(params);
    }
}

proof fn lemma_csi_numbers(params: Seq<char>)
    ensures
        forall|i: int| 0 <= i < csi_numbers(params).len() ==> csi_numbers(params)[i] >= 0,
{
}

/// A cell with a character in a style.
pub open spec fn cell(ch: char, style: Style) -> Cell {
    Cell { ch, style }
}

/// The cells of a text in one style.
pub open spec fn styled(text: Seq<char>, style: Style) -> Seq<Cell> {
    text.map_values(|ch: char| cell(ch, style))
}

/// The screen with some cells added at the end of the cursor's line and the cursor behind them.
pub open spec fn appended(s: Screen, cells: Seq<Cell>) -> Screen {
    Screen {
        lines: s.lines.update(s.row, s.lines[s.row] + cells),
        col: s.col + cells.len(),
        ..s
    }
}

proof fn lemma_styled(text: Seq<char>, style: Style)
    requires
        text.len() > 0,
    ensures
        styled(text.drop_last(), style).len() == text.len() - 1,
        styled(text.drop_last(), style).push(cell(text.last(), style)) == styled(text, style),
{
    let a = styled(text.drop_last(), style).push(cell(text.last(), style));
    let b = styled(text, style);
    assert(a.len() == b.len());
    assert forall|i: int| 0 <= i < a.len() implies a[i] == b[i] by {
        assert(b[i] == cell(text[i], style));
        if i < text.len() - 1 {
            assert(a[i] == cell(text.drop_last()[i], style));
        }
    }
    assert(a =~= b);
}

proof fn lemma_put_printable(s: Screen, cells: Seq<Cell>, ch: char)
    requires
        s.wf(),
        s.mode == Mode::Ground,
        s.col == s.lines[s.row].len(),
        s.col + cells.len() < usize::MAX,
        '\x20' <= ch,
    ensures
        appended(s, cells).put(ch) == appended(s, cells.push(cell(ch, s.style))),
{
    let c = cell(ch, s.style);
    let line = s.lines[s.row];
    assert((line + cells).push(c) =~= line + cells.push(c));
    assert(appended(s, cells).put(ch).lines =~= appended(s, cells.push(c)).lines);
}

/// Printable text typed at the end of the cursor's line is appended to it as it is.
pub proof fn printable_text_is_appended(s: Screen, text: Seq<char>)
    requires
        s.wf(),
        s.mode == Mode::Ground,
        s.col == s.lines[s.row].len(),
        s.col + text.len() <= usize::MAX,
        forall|i: int| 0 <= i < text.len() ==> '\x20' <= #[trigger] text[i],
    ensures
        s.put_all(text) == appended(s, styled(text, s.style)),
    decreases text.len(),
{
    if text.len() == 0 {
        assert(s.lines[s.row] + styled(text, s.style) =~= s.lines[s.row]);
        assert(appended(s, styled(text, s.style)) =~= s);
    } else {
        let t = text.drop_last();
        lemma_styled(text, s.style);
        printable_text_is_appended(s, t);
        lemma_put_printable(s, styled(t, s.style), text.last());
    }
}

/// All the texts of some runs, one after the other.
pub open spec fn run_text(runs: Seq<RunView>) -> Seq<char>
    decreases runs.len(),
{
    if runs.len() == 0 {
        Seq::empty()
    } else {
        run_text(runs.drop_last()) + runs.last().text
    }
}

/// The runs of a line spell the line, none is empty, and neighbours differ in style.
pub proof fn runs_spell_the_line(cells: Seq<Cell>)
    ensures
        run_text(runs_of(cells)) == glyphs(cells),
        forall|i: int| 0 <= i < runs_of(cells).len() ==> (#[trigger] runs_of(cells)[i]).text.len() > 0,
        forall|i: int, j: int|
            0 <= i < j < runs_of(cells).len() && j == i + 1 ==> (
            #[trigger] runs_of(cells)[i]).style != (#[trigger] runs_of(cells)[j]).style,
    decreases cells.len(),
{
    if cells.len() == 0 {
        assert(glyphs(cells) =~= Seq::empty());
    } else {
        runs_spell_the_line(cells.drop_last());
        lemma_runs_step(runs_of(cells.drop_last()), cells.last());
        assert(glyphs(cells) =~= glyphs(cells.drop_last()).push(cells.last().ch));
    }
}

proof fn lemma_runs_step(before: Seq<RunView>, c: Cell)
    requires
        forall|i: int| 0 <= i < before.len() ==> (#[trigger] before[i]).text.len() > 0,
        forall|i: int, j: int|
            0 <= i < j < before.len() && j == i + 1 ==> (#[trigger] before[i]).style != (
            #[trigger] before[j]).style,
    ensures
        ({
            let after = runs_step(before, c);
            &&& run_text(after) == run_text(before).push(c.ch)
            &&& forall|i: int| 0 <= i < after.len() ==> (#[trigger] after[i]).text.len() > 0
            &&& forall|i: int, j: int|
                0 <= i < j < after.len() && j == i + 1 ==> (#[trigger] after[i]).style != (
                #[trigger] after[j]).style
        }),
{
    let after = runs_step(before, c);
    if before.len() > 0 && before.last().style == c.style {
        assert(after.drop_last() =~= before.drop_last());
        assert(run_text(after) =~= run_text(before).push(c.ch));
    } else {
        assert(after.drop_last() =~= before);
        assert(run_text(after) =~= run_text(before).push(c.ch));
    }
}

} // verus!
