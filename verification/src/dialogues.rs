//! What a program in the terminal shows and asks: laws that say what its output does to the screen
//! and which dialog its questions open, in terms of the characters that it prints.

use crate::backend::{after_last_cr, output_text, stripped};
use crate::num::decimal;
use crate::prompt::{
    cleaned, default_of, detected, list_items, numbered_above, numbered_line, PromptView,
};
use crate::readings::neat;
use crate::term::{
    csi_numbers, palette_hue, rgb_hue, sgr_all, sgr_list, Cell, Hue, Mode, Screen, Style,
};
use crate::text::{includes, is_white, lower_ascii, trimmed, trimmed_end};
use vstd::prelude::*;

verus! {

// ------------------------------------------------------------------ characters on the screen

/// Control characters move the cursor and leave what is written: back to the start of the line, to
/// the start of the next one, one to the left, and to the next column that eight divides.
pub proof fn control_characters_move_the_cursor(s: Screen, c: char)
    requires
        s.wf(),
        s.mode == Mode::Ground,
        0 <= s.col <= usize::MAX - 8,
    ensures
        s.put('\r') == (Screen { col: 0, ..s }),
        s.put('\x08') == (Screen {
            col: if s.col == 0 {
                0
            } else {
                s.col - 1
            },
            ..s
        }),
        ({
            let t = s.put('\t');
            &&& t == (Screen { col: t.col, ..s })
            &&& t.col % 8 == 0
            &&& s.col < t.col <= s.col + 8
        }),
        ({
            let t = s.put('\n');
            &&& t == (Screen { lines: t.lines, row: s.row + 1, col: 0, ..s })
            &&& s.lines.is_prefix_of(t.lines)
            &&& s.row + 1 < s.lines.len() ==> t.lines == s.lines
            &&& s.row + 1 == s.lines.len() ==> t.lines == s.lines.push(Seq::empty())
        }),
        c < '\x20' && c != '\r' && c != '\x08' && c != '\t' && c != '\n' && c != '\x1b' ==> s.put(c)
            == s,
{
    let t = s.put('\n');
    if s.row + 1 < s.lines.len() {
        assert(t.lines =~= s.lines);
    } else {
        assert(t.lines =~= s.lines.push(Seq::empty()));
    }
    assert(s.lines =~= t.lines.subrange(0, s.lines.len() as int));
}

/// A character overwrites what stands at the cursor, in the current style, and nothing else; behind
/// the end of the line there are spaces before it.
pub proof fn characters_overwrite(s: Screen, c: char, i: int, j: int)
    requires
        s.wf(),
        s.mode == Mode::Ground,
        0 <= s.col < usize::MAX,
        c >= '\x20',
    ensures
        ({
            let t = s.put(c);
            let line = t.lines[s.row];
            let before = s.lines[s.row];
            &&& t == (Screen { lines: t.lines, col: s.col + 1, ..s })
            &&& t.lines.len() == s.lines.len()
            &&& 0 <= i < s.lines.len() && i != s.row ==> t.lines[i] == s.lines[i]
            &&& line.len() == if s.col < before.len() {
                before.len() as int
            } else {
                s.col + 1
            }
            &&& line[s.col] == (Cell { ch: c, style: s.style })
            &&& 0 <= j < before.len() && j != s.col ==> line[j] == before[j]
            &&& before.len() <= j < s.col ==> line[j] == (Cell {
                ch: ' ',
                style: Style { hue: Hue::Default, bold: false, dim: false },
            })
        }),
{
}

/// A control sequence as it is printed.
pub open spec fn sequence(params: Seq<char>, fin: char) -> Seq<char> {
    seq!['\x1b', '['] + params + seq![fin]
}

/// The characters that end no control sequence.
pub open spec fn are_params(params: Seq<char>) -> bool {
    forall|i: int| 0 <= i < params.len() ==> '\x20' <= #[trigger] params[i] < '\x40'
}

#[verifier::opaque]
spec fn next(s: Screen, c: char) -> Screen {
    s.put(c)
}

#[verifier::opaque]
spec fn shown(s: Screen, text: Seq<char>) -> Screen {
    s.put_all(text)
}

proof fn lemma_escape(s: Screen)
    requires
        s.mode == Mode::Ground,
    ensures
        next(s, '\x1b') == (Screen { mode: Mode::Esc, ..s }),
{
    reveal(next);
}

proof fn lemma_bracket(s: Screen)
    requires
        s.mode == Mode::Esc,
    ensures
        next(s, '[') == (Screen { mode: Mode::Csi(Seq::empty()), ..s }),
{
    reveal(next);
}

proof fn lemma_param(s: Screen, params: Seq<char>, c: char)
    requires
        s.mode == Mode::Csi(params),
        c < '\x40',
    ensures
        next(s, c) == (Screen { mode: Mode::Csi(params.push(c)), ..s }),
{
    reveal(next);
}

proof fn lemma_shown(s: Screen, text: Seq<char>)
    ensures
        text.len() == 0 ==> shown(s, text) == s,
        text.len() > 0 ==> shown(s, text) == next(shown(s, text.drop_last()), text.last()),
{
    reveal(next);
    reveal(shown);
}

proof fn lemma_params(s: Screen, params: Seq<char>)
    requires
        s.mode == Mode::Ground,
        are_params(params),
    ensures
        shown(s, seq!['\x1b', '['] + params) == (Screen { mode: Mode::Csi(params), ..s }),
    decreases params.len(),
{
    let text = seq!['\x1b', '['] + params;
    lemma_shown(s, text);
    if params.len() == 0 {
        let one = seq!['\x1b'];
        assert(text.drop_last() =~= one);
        assert(text.last() == '[');
        lemma_shown(s, one);
        assert(one.drop_last() =~= Seq::empty());
        lemma_shown(s, Seq::empty());
        lemma_escape(s);
        lemma_bracket(Screen { mode: Mode::Esc, ..s });
        assert(params =~= Seq::empty());
    } else {
        let less = params.drop_last();
        assert(text.drop_last() =~= seq!['\x1b', '['] + less);
        assert(text.last() == params.last());
        assert(are_params(less)) by {
            assert(forall|i: int| 0 <= i < less.len() ==> less[i] == params[i]);
        }
        lemma_params(s, less);
        assert(params.last() < '\x40') by {
            assert('\x20' <= params[params.len() - 1] < '\x40');
        }
        assert(less.push(params.last()) =~= params);
        lemma_param(Screen { mode: Mode::Csi(less), ..s }, less, params.last());
    }
}

proof fn lemma_sequence(s: Screen, params: Seq<char>, fin: char)
    requires
        s.mode == Mode::Ground,
        are_params(params),
        '\x40' <= fin <= '\x7e',
    ensures
        s.put_all(sequence(params, fin)) == s.csi(params, fin),
{
    lemma_params(s, params);
    let text = sequence(params, fin);
    lemma_shown(s, text);
    assert(text.drop_last() =~= seq!['\x1b', '['] + params);
    assert(text.last() == fin);
    let open = Screen { mode: Mode::Csi(params), ..s };
    assert((Screen { mode: Mode::Ground, ..open }) == s);
    assert(next(open, fin) == s.csi(params, fin)) by {
        reveal(next);
    }
    assert(shown(s, text) == s.put_all(text)) by {
        reveal(shown);
    }
}

proof fn lemma_one_number(n: nat)
    requires
        n <= usize::MAX,
    ensures
        csi_numbers(decimal(n)) == seq![n as int],
        are_params(decimal(n)),
        decimal(n).len() > 0 && decimal(n)[0] != '?',
{
    reveal_strlit("?");
    crate::num::lemma_decimal(n);
    crate::num::decimal_is_read_back(n, usize::MAX as nat);
    let d = decimal(n);
    assert(crate::num::is_digit(d[0]));
    assert(!"?"@.contains(d[0]));
    assert(crate::text::trimmed_start_of(d, "?"@) == d);
    assert forall|i: int| 0 <= i < d.len() implies '\x20' <= #[trigger] d[i] < '\x40' by {
        assert(crate::num::is_digit(d[i]));
    }
    assert(!d.contains(';')) by {
        if d.contains(';') {
            let i = choose|i: int| 0 <= i < d.len() && d[i] == ';';
            assert(crate::num::is_digit(d[i]));
        }
    }
    crate::text::pieces_of_piece_and_rest(d, ';', Seq::empty());
    assert(csi_numbers(d) =~= seq![n as int]);
}

/// The sequences that move the cursor: up, right and left by so many, no further than the edge, and
/// to a column counted from one. What is written stays.
pub proof fn sequences_move_the_cursor(s: Screen, n: nat)
    requires
        s.wf(),
        s.mode == Mode::Ground,
        s.col >= 0,
        1 <= n,
        s.col + n <= usize::MAX,
    ensures
        s.put_all(sequence(decimal(n), 'A')) == (Screen {
            row: if n <= s.row {
                s.row - n
            } else {
                0
            },
            ..s
        }),
        s.put_all(sequence(decimal(n), 'C')) == (Screen { col: s.col + n, ..s }),
        s.put_all(sequence(decimal(n), 'D')) == (Screen {
            col: if n <= s.col {
                s.col - n
            } else {
                0
            },
            ..s
        }),
        s.put_all(sequence(decimal(n), 'G')) == (Screen { col: n - 1, ..s }),
{
    lemma_one_number(n);
    lemma_sequence(s, decimal(n), 'A');
    lemma_sequence(s, decimal(n), 'C');
    lemma_sequence(s, decimal(n), 'D');
    lemma_sequence(s, decimal(n), 'G');
}

/// Down by so many lines, which are added where there are none; what is written stays.
pub proof fn sequence_moves_down(s: Screen, n: nat, i: int)
    requires
        s.wf(),
        s.mode == Mode::Ground,
        1 <= n,
        s.row + n <= usize::MAX,
    ensures
        ({
            let t = s.put_all(sequence(decimal(n), 'B'));
            &&& t == (Screen { lines: t.lines, row: s.row + n, ..s })
            &&& t.wf()
            &&& 0 <= i < s.lines.len() ==> t.lines[i] == s.lines[i]
            &&& s.lines.len() <= i < t.lines.len() ==> t.lines[i].len() == 0
            &&& s.row + n < s.lines.len() ==> t.lines.len() == s.lines.len()
        }),
{
    lemma_one_number(n);
    lemma_sequence(s, decimal(n), 'B');
}

/// The sequences that erase a line: what stands from the cursor on, what stands up to it, and all
/// of it. The cursor and the other lines stay.
pub proof fn sequences_erase_the_line(s: Screen, i: int, j: int)
    requires
        s.wf(),
        s.mode == Mode::Ground,
        s.col >= 0,
    ensures
        ({
            let line = s.lines[s.row];
            let right = s.put_all(sequence(decimal(0), 'K'));
            let left = s.put_all(sequence(decimal(1), 'K'));
            let all = s.put_all(sequence(decimal(2), 'K'));
            &&& right == (Screen { lines: right.lines, ..s })
            &&& left == (Screen { lines: left.lines, ..s })
            &&& all == (Screen { lines: all.lines, ..s })
            &&& right.lines.len() == s.lines.len() && left.lines.len() == s.lines.len()
                && all.lines.len() == s.lines.len()
            &&& 0 <= i < s.lines.len() && i != s.row ==> right.lines[i] == s.lines[i]
                && left.lines[i] == s.lines[i] && all.lines[i] == s.lines[i]
            &&& right.lines[s.row].is_prefix_of(line)
            &&& right.lines[s.row].len() == if s.col < line.len() {
                s.col
            } else {
                line.len() as int
            }
            &&& left.lines[s.row].len() == line.len()
            &&& 0 <= j < line.len() && j > s.col ==> left.lines[s.row][j] == line[j]
            &&& 0 <= j < line.len() && j <= s.col ==> left.lines[s.row][j].ch == ' '
            &&& all.lines[s.row].len() == 0
        }),
{
    lemma_one_number(0);
    lemma_one_number(1);
    lemma_one_number(2);
    lemma_sequence(s, decimal(0), 'K');
    lemma_sequence(s, decimal(1), 'K');
    lemma_sequence(s, decimal(2), 'K');
    let line = s.lines[s.row];
    let right = s.put_all(sequence(decimal(0), 'K'));
    assert(right.lines[s.row] =~= line.subrange(0, right.lines[s.row].len() as int));
}

/// The sequences that erase the screen: from the cursor on, all that is written is gone; where all
/// is to be erased, the lines stay as history, and an empty line follows them.
pub proof fn sequences_erase_the_screen(s: Screen, i: int)
    requires
        s.wf(),
        s.mode == Mode::Ground,
        s.col >= 0,
    ensures
        ({
            let below = s.put_all(sequence(decimal(0), 'J'));
            let all = s.put_all(sequence(decimal(2), 'J'));
            &&& below == (Screen { lines: below.lines, ..s })
            &&& below.lines.len() == s.row + 1
            &&& 0 <= i < s.row ==> below.lines[i] == s.lines[i]
            &&& below.lines[s.row].is_prefix_of(s.lines[s.row])
            &&& below.lines[s.row].len() <= s.col
            &&& all == (Screen { lines: all.lines, row: all.lines.len() - 1, col: 0, ..s })
            &&& s.lines.is_prefix_of(all.lines)
            &&& all.lines.len() <= s.lines.len() + 1
            &&& all.lines.last().len() == 0
        }),
{
    lemma_one_number(0);
    lemma_one_number(2);
    lemma_sequence(s, decimal(0), 'J');
    lemma_sequence(s, decimal(2), 'J');
    let below = s.put_all(sequence(decimal(0), 'J'));
    let line = s.lines[s.row];
    assert(below.lines[s.row] =~= line.subrange(0, below.lines[s.row].len() as int));
    let all = s.put_all(sequence(decimal(2), 'J'));
    assert(s.lines =~= all.lines.subrange(0, s.lines.len() as int));
}

/// A sequence with another end does nothing.
pub proof fn other_sequences_do_nothing(s: Screen, params: Seq<char>, fin: char)
    requires
        s.mode == Mode::Ground,
        are_params(params),
        '\x40' <= fin <= '\x7e',
        fin != 'm' && fin != 'A' && fin != 'B' && fin != 'C' && fin != 'D' && fin != 'G',
        fin != 'H' && fin != 'f' && fin != 'K' && fin != 'J',
    ensures
        s.put_all(sequence(params, fin)) == s,
{
    lemma_sequence(s, params, fin);
}

// ------------------------------------------------------------------ colours

/// The screen with another style.
pub open spec fn drawn(s: Screen, style: Style) -> Screen {
    Screen { style, ..s }
}

/// The screen after the sequence that sets the style by one number.
#[verifier::opaque]
pub open spec fn after_number(s: Screen, n: nat) -> Screen {
    s.put_all(sequence(decimal(n), 'm'))
}

proof fn lemma_style(s: Screen, n: nat)
    requires
        s.mode == Mode::Ground,
        n <= 1000,
        n != 38 && n != 48,
    ensures
        after_number(s, n) == drawn(
            s,
            crate::term::sgr_one(s.style, n as int),
        ),
{
    reveal(after_number);
    lemma_one_number(n);
    lemma_sequence(s, decimal(n), 'm');
    reveal_with_fuel(sgr_all, 2);
}

/// The numbers that set the style: zero takes all off; one is bold, two is dim, and twenty-two
/// takes off both; thirty to thirty-seven are the eight colours, and thirty-nine is none.
pub proof fn numbers_set_the_style(s: Screen)
    requires
        s.mode == Mode::Ground,
    ensures
        after_number(s, 0) == drawn(
            s,
            Style { hue: Hue::Default, bold: false, dim: false },
        ),
        after_number(s, 1) == drawn(s, Style { bold: true, ..s.style }),
        after_number(s, 2) == drawn(s, Style { dim: true, ..s.style }),
        after_number(s, 22) == drawn(
            s,
            Style { bold: false, dim: false, ..s.style },
        ),
        after_number(s, 30) == drawn(s, Style { hue: Hue::Black, ..s.style }),
        after_number(s, 31) == drawn(s, Style { hue: Hue::Red, ..s.style }),
        after_number(s, 32) == drawn(s, Style { hue: Hue::Green, ..s.style }),
        after_number(s, 33) == drawn(s, Style { hue: Hue::Yellow, ..s.style }),
        after_number(s, 34) == drawn(s, Style { hue: Hue::Blue, ..s.style }),
        after_number(s, 35) == drawn(s, Style { hue: Hue::Magenta, ..s.style }),
        after_number(s, 36) == drawn(s, Style { hue: Hue::Cyan, ..s.style }),
        after_number(s, 37) == drawn(s, Style { hue: Hue::White, ..s.style }),
        after_number(s, 39) == drawn(s, Style { hue: Hue::Default, ..s.style }),
        after_number(s, 90) == drawn(s, Style { dim: true, ..s.style }),
{
    lemma_style(s, 0);
    lemma_style(s, 1);
    lemma_style(s, 2);
    lemma_style(s, 22);
    lemma_style(s, 30);
    lemma_style(s, 31);
    lemma_style(s, 32);
    lemma_style(s, 33);
    lemma_style(s, 34);
    lemma_style(s, 35);
    lemma_style(s, 36);
    lemma_style(s, 37);
    lemma_style(s, 39);
    lemma_style(s, 90);
}

/// The bright colours are the colours, and numbers for backgrounds change nothing.
pub proof fn bright_colours_are_the_colours(s: Screen, k: nat)
    requires
        s.mode == Mode::Ground,
    ensures
        1 <= k <= 7 ==> after_number(s, 90 + k) == after_number(s, 30 + k),
        40 <= k <= 47 || 100 <= k <= 107 ==> after_number(s, k) == s,
{
    if 1 <= k <= 7 {
        lemma_style(s, 90 + k);
        lemma_style(s, 30 + k);
    }
    if 40 <= k <= 47 || 100 <= k <= 107 {
        lemma_style(s, k);
        assert(drawn(s, s.style) == s);
    }
}

/// The numbers of one sequence have their effects one after the other; no number at all takes off
/// the style.
pub proof fn numbers_follow_each_other(style: Style, n: int, rest: Seq<int>)
    requires
        n != 38 && n != 48,
    ensures
        sgr_list(style, Seq::empty()) == (Style { hue: Hue::Default, bold: false, dim: false }),
        sgr_all(style, seq![n] + rest) == sgr_all(sgr_list(style, seq![n]), rest),
{
    let a = seq![n] + rest;
    assert(a[0] == n);
    assert(crate::term::dropped(a, 1) =~= rest);
    let one = seq![n];
    assert(one[0] == n);
    assert(sgr_list(style, one) == crate::term::sgr_one(style, n)) by {
        reveal_with_fuel(sgr_all, 2);
        assert(crate::term::dropped(one, 1) =~= Seq::empty());
    }
}

/// A palette colour takes three numbers; as a background it changes nothing.
pub proof fn palette_colours_take_three_numbers(style: Style, n: int, rest: Seq<int>)
    ensures
        sgr_all(style, seq![38int, 5, n] + rest) == sgr_all(
            Style { hue: palette_hue(n), ..style },
            rest,
        ),
        sgr_all(style, seq![48int, 5, n] + rest) == sgr_all(style, rest),
{
    let c = seq![38int, 5, n] + rest;
    assert(c[0] == 38 && c[1] == 5 && c[2] == n);
    assert(crate::term::dropped(c, 3) =~= rest);
    let d = seq![48int, 5, n] + rest;
    assert(d[0] == 48 && d[1] == 5 && d[2] == n);
    assert(crate::term::dropped(d, 3) =~= rest);
}

/// A mixed colour takes five numbers; as a background it changes nothing.
pub proof fn mixed_colours_take_five_numbers(style: Style, r: int, g: int, b: int, rest: Seq<int>)
    ensures
        sgr_all(style, seq![38int, 2, r, g, b] + rest) == sgr_all(
            Style { hue: rgb_hue(r, g, b), ..style },
            rest,
        ),
        sgr_all(style, seq![48int, 2, r, g, b] + rest) == sgr_all(style, rest),
{
    let e = seq![38int, 2, r, g, b] + rest;
    assert(e[0] == 38 && e[1] == 2 && e[2] == r && e[3] == g && e[4] == b);
    assert(crate::term::dropped(e, 5) =~= rest);
    let f = seq![48int, 2, r, g, b] + rest;
    assert(f[0] == 48 && f[1] == 2 && f[2] == r && f[3] == g && f[4] == b);
    assert(crate::term::dropped(f, 5) =~= rest);
}

/// A mixed colour is the colour of its strong channels, those that reach two thirds of the
/// strongest; a dark one is black.
pub proof fn mixed_colours_are_the_nearest(weak: int, strong: int, max: int)
    requires
        40 <= max,
        0 <= weak && 3 * weak < 2 * max,
        2 * max <= 3 * strong && strong <= max,
    ensures
        rgb_hue(max, weak, weak) == Hue::Red,
        rgb_hue(weak, max, weak) == Hue::Green,
        rgb_hue(weak, weak, max) == Hue::Blue,
        rgb_hue(max, strong, weak) == Hue::Yellow && rgb_hue(strong, max, weak) == Hue::Yellow,
        rgb_hue(max, weak, strong) == Hue::Magenta && rgb_hue(strong, weak, max) == Hue::Magenta,
        rgb_hue(weak, max, strong) == Hue::Cyan && rgb_hue(weak, strong, max) == Hue::Cyan,
        rgb_hue(max, strong, strong) == Hue::White && rgb_hue(strong, max, strong) == Hue::White
            && rgb_hue(strong, strong, max) == Hue::White,
        weak < 40 ==> rgb_hue(weak, weak, weak) == Hue::Black,
{
}

/// The palette begins with sixteen numbers for the eight colours and ends with the greys.
pub proof fn palette_has_the_colours(n: int)
    ensures
        n == 0 || n == 8 ==> palette_hue(n) == Hue::Black,
        n == 1 || n == 9 ==> palette_hue(n) == Hue::Red,
        n == 2 || n == 10 ==> palette_hue(n) == Hue::Green,
        n == 3 || n == 11 ==> palette_hue(n) == Hue::Yellow,
        n == 4 || n == 12 ==> palette_hue(n) == Hue::Blue,
        n == 5 || n == 13 ==> palette_hue(n) == Hue::Magenta,
        n == 6 || n == 14 ==> palette_hue(n) == Hue::Cyan,
        n == 7 || n == 15 ==> palette_hue(n) == Hue::White,
        n >= 232 ==> palette_hue(n) == Hue::White,
{
}

proof fn lemma_cube(r: int, g: int, b: int)
    requires
        0 <= r < 6 && 0 <= g < 6 && 0 <= b < 6,
    ensures
        (36 * r + 6 * g + b) / 36 == r,
        (36 * r + 6 * g + b) / 6 % 6 == g,
        (36 * r + 6 * g + b) % 6 == b,
{
    let m = 36 * r + 6 * g + b;
    assert(m / 6 == 6 * r + g);
}

/// Between them stands a cube with six steps for each channel.
pub proof fn palette_has_a_cube(r: int, g: int, b: int)
    requires
        0 <= r < 6 && 0 <= g < 6 && 0 <= b < 6,
    ensures
        palette_hue(16 + 36 * r + 6 * g + b) == rgb_hue(51 * r, 51 * g, 51 * b),
{
    lemma_cube(r, g, b);
    let n = 16 + 36 * r + 6 * g + b;
    assert(n - 16 == 36 * r + 6 * g + b);
    assert(16 <= n <= 231);
    assert((n - 16) / 36 * 51 == 51 * r);
    assert((n - 16) / 6 % 6 * 51 == 51 * g);
    assert((n - 16) % 6 * 51 == 51 * b);
}

// ------------------------------------------------------------------ lines of output

/// What a log line shows: of a progress line only what was drawn last, no control sequences and no
/// bells, and no white space at the end.
pub proof fn log_lines_show_the_last_state(before: Seq<char>, line: Seq<char>)
    requires
        !line.contains('\r'),
    ensures
        after_last_cr(before.push('\r') + line) == line,
        after_last_cr(line) == line,
        output_text(before.push('\r') + line) == output_text(line),
        output_text(line) == trimmed_end(stripped(line)),
    decreases line.len(),
{
    let all = before.push('\r') + line;
    if line.len() == 0 {
        assert(all.last() == '\r');
        assert(line =~= Seq::empty());
    } else {
        let less = line.drop_last();
        assert(!less.contains('\r')) by {
            if less.contains('\r') {
                let i = choose|i: int| 0 <= i < less.len() && less[i] == '\r';
                assert(line[i] == '\r');
            }
        }
        log_lines_show_the_last_state(before, less);
        assert(all.drop_last() =~= before.push('\r') + less);
        assert(all.last() == line[line.len() - 1]);
        assert(line[line.len() - 1] != '\r');
        assert(less.push(line.last()) =~= line);
    }
}

/// A control sequence leaves nothing in a line of output, and neither does a bell.
pub proof fn control_sequences_are_left_out(params: Seq<char>, fin: char, rest: Seq<char>, c: char)
    requires
        are_params(params),
        '\x40' <= fin <= '\x7e',
    ensures
        stripped(sequence(params, fin) + rest) == stripped(rest),
        stripped(seq!['\x07'] + rest) == stripped(rest),
        c != '\x1b' && c != '\x07' ==> stripped(seq![c] + rest) == seq![c] + stripped(rest),
{
    let s = sequence(params, fin) + rest;
    assert(s[0] == '\x1b' && s[1] == '[');
    assert(s.skip(2) =~= params + seq![fin] + rest);
    lemma_sequence_end(params, fin, rest);
    assert((seq!['\x07'] + rest).drop_first() =~= rest);
    assert((seq![c] + rest).drop_first() =~= rest);
    assert((seq!['\x07'] + rest)[0] == '\x07');
    assert((seq![c] + rest)[0] == c);
}

proof fn lemma_sequence_end(params: Seq<char>, fin: char, rest: Seq<char>)
    requires
        are_params(params),
        '\x40' <= fin <= '\x7e',
    ensures
        crate::backend::after_csi(params + seq![fin] + rest) == rest,
    decreases params.len(),
{
    let s = params + seq![fin] + rest;
    if params.len() == 0 {
        assert(s[0] == fin);
        assert(s.drop_first() =~= rest);
    } else {
        assert('\x20' <= params[0] < '\x40');
        assert(s[0] == params[0]);
        let less = params.drop_first();
        assert(are_params(less)) by {
            assert forall|i: int| 0 <= i < less.len() implies '\x20' <= #[trigger] less[i]
                < '\x40' by {
                assert('\x20' <= params[i + 1] < '\x40');
            }
        }
        lemma_sequence_end(less, fin, rest);
        assert(s.drop_first() =~= less + seq![fin] + rest);
    }
}

// ------------------------------------------------------------------ questions

/// A question without the marks that programs print before it and behind it.
pub open spec fn bare(q: Seq<char>) -> bool {
    &&& q.len() > 0 && !is_white(q[0]) && !is_white(q.last())
    &&& q[0] != '=' && q[0] != '-' && q[0] != ':'
    &&& q.last() != ']' && q.last() != ':'
}

/// Neither a word for a password is in the line nor does it begin with the mark of `sudo`.
pub open spec fn no_password(line: Seq<char>) -> bool {
    &&& !includes(lower_ascii(line), "password"@)
    &&& !includes(line, "パスワード"@)
    &&& line.len() > 0 && line[0] != '['
}

proof fn lemma_not_peeled(q: Seq<char>, p: Seq<char>)
    requires
        q.len() > 0,
        p.len() > 0,
        q[0] != p[0],
    ensures
        crate::prompt::peeled(q, p) == q,
{
    if p.is_prefix_of(q) {
        assert(p =~= q.subrange(0, p.len() as int));
        assert(p[0] == q[0]);
    }
}

proof fn lemma_peeled(q: Seq<char>, p: Seq<char>)
    ensures
        crate::prompt::peeled(p + q, p) == q,
{
    assert(p =~= (p + q).subrange(0, p.len() as int));
    assert((p + q).skip(p.len() as int) =~= q);
}

proof fn lemma_no_yes_no(q: Seq<char>)
    requires
        bare(q),
    ensures
        crate::prompt::without_yes_no(q) == q,
        crate::prompt::yes_no_at(lower_ascii(q)) is None,
{
    reveal_strlit(" :");
    reveal_strlit("[y/n]");
    let l = lower_ascii(q);
    assert(l.last() == crate::text::lower_ascii_char(q.last()));
    assert(!is_white(q.last()));
    assert(l.last() != ']' && l.last() != ':' && l.last() != ' ');
    assert(!" :"@.contains(l.last()));
    assert(crate::text::trimmed_end_of(l, " :"@) == l);
    let p = "[y/n]"@;
    if p.is_suffix_of(l) {
        assert(l.subrange(l.len() - p.len(), l.len() as int)[4] == p[4]);
    }
}

/// The text of a question is what stands between the marks: the arrows and colons before it are
/// taken off.
pub proof fn marks_are_taken_off(q: Seq<char>)
    requires
        bare(q),
    ensures
        cleaned(q) == q,
        cleaned("==> "@ + q) == q,
        cleaned("-> "@ + q) == q,
        cleaned(":: "@ + q) == q,
{
    reveal_strlit("==> ");
    reveal_strlit("-> ");
    reveal_strlit(":: ");
    crate::text::trimming_keeps_clean_text(q);
    lemma_no_yes_no(q);
    lemma_not_peeled(q, "==> "@);
    lemma_not_peeled(q, "-> "@);
    lemma_not_peeled(q, ":: "@);
    let a = "==> "@ + q;
    assert(a[0] == '=' && a.last() == q.last());
    crate::text::trimming_keeps_clean_text(a);
    lemma_peeled(q, "==> "@);
    let b = "-> "@ + q;
    assert(b[0] == '-' && b.last() == q.last());
    crate::text::trimming_keeps_clean_text(b);
    lemma_not_peeled(b, "==> "@);
    lemma_peeled(q, "-> "@);
    let c = ":: "@ + q;
    assert(c[0] == ':' && c.last() == q.last());
    crate::text::trimming_keeps_clean_text(c);
    lemma_not_peeled(c, "==> "@);
    lemma_not_peeled(c, "-> "@);
    lemma_peeled(q, ":: "@);
}

proof fn lemma_yes_no(q: Seq<char>, mark: Seq<char>)
    requires
        bare(q),
        mark.len() == 6,
        mark[0] == ' ' && lower_ascii(mark) == " [y/n]"@,
    ensures
        ({
            let line = q + mark;
            let lower = lower_ascii(line);
            &&& trimmed(line) == line
            &&& crate::prompt::yes_no_at(lower) == Some(q.len() as int + 1)
            &&& line.take(q.len() as int + 1) == q.push(' ')
            &&& line.subrange(q.len() as int + 1, q.len() as int + 6) == mark.skip(1)
            &&& lower.len() == line.len() && lower.last() == ']'
        }),
{
    reveal_strlit(" [y/n]");
    reveal_strlit("[y/n]");
    reveal_strlit(" :");
    let line = q + mark;
    let lower = lower_ascii(line);
    assert(lower_ascii(mark)[5] == ']');
    assert(mark[5] == ']');
    assert(line[0] == q[0] && line.last() == ']');
    crate::text::trimming_keeps_clean_text(line);
    assert(lower.last() == ']');
    assert(!" :"@.contains(']'));
    assert(crate::text::trimmed_end_of(lower, " :"@) == lower);
    let k = q.len() as int + 1;
    assert(lower.subrange(k, lower.len() as int) =~= "[y/n]"@) by {
        assert forall|i: int| 0 <= i < 5 implies lower[k + i] == "[y/n]"@[i] by {
            assert(lower[k + i] == lower_ascii(mark)[i + 1]);
            assert(" [y/n]"@[i + 1] == "[y/n]"@[i]);
        }
    }
    assert(line.take(k) =~= q.push(' '));
    assert(line.subrange(k, k + 5) =~= mark.skip(1));
}

proof fn lemma_yes_no_question(above: Seq<Seq<char>>, q: Seq<char>, mark: Seq<char>)
    requires
        bare(q),
        mark.len() == 6,
        mark[0] == ' ' && lower_ascii(mark) == " [y/n]"@,
        no_password(q + mark),
    ensures
        detected(above, q + mark) == Some(
            PromptView::YesNo { text: q, default_yes: mark.skip(1).contains('Y') },
        ),
{
    reveal_strlit("[y/n]");
    assert("[y/n]"@.len() == 5);
    let line = q + mark;
    lemma_yes_no(q, mark);
    lemma_spaced(q);
    lemma_asks_no_password(line);
    assert(line.len() > 0);
}

/// A question that ends in `[Y/n]` is answered with yes or no, and yes is the answer of Enter alone;
/// with `[y/N]` it is no.
pub proof fn yes_no_questions(above: Seq<Seq<char>>, q: Seq<char>)
    requires
        bare(q),
        no_password(q + " [Y/n]"@),
        no_password(q + " [y/N]"@),
    ensures
        detected(above, q + " [Y/n]"@) == Some(PromptView::YesNo { text: q, default_yes: true }),
        detected(above, q + " [y/N]"@) == Some(PromptView::YesNo { text: q, default_yes: false }),
{
    reveal_strlit(" [Y/n]");
    reveal_strlit(" [y/N]");
    reveal_strlit(" [y/n]");
    assert(lower_ascii(" [Y/n]"@) =~= " [y/n]"@);
    assert(lower_ascii(" [y/N]"@) =~= " [y/n]"@);
    lemma_yes_no_question(above, q, " [Y/n]"@);
    lemma_yes_no_question(above, q, " [y/N]"@);
    assert(" [Y/n]"@.skip(1)[1] == 'Y');
    assert(!" [y/N]"@.skip(1).contains('Y')) by {
        let t = " [y/N]"@.skip(1);
        assert(t.len() == 5);
        assert(t[0] == '[' && t[1] == 'y' && t[2] == '/' && t[3] == 'N' && t[4] == ']');
    }
}

proof fn lemma_spaced(q: Seq<char>)
    requires
        bare(q),
    ensures
        cleaned(q.push(' ')) == q,
{
    marks_are_taken_off(q);
    crate::text::trimming_keeps_clean_text(q);
    let s = q.push(' ');
    assert(s[0] == q[0]);
    assert(crate::text::trimmed_start(s) == s);
    assert(s.drop_last() =~= q);
    assert(trimmed_end(s) == trimmed_end(q));
    assert(trimmed(s) == q);
}

proof fn lemma_asks_no_password(line: Seq<char>)
    requires
        no_password(line),
    ensures
        !crate::prompt::asks_password(line, lower_ascii(line)),
{
    reveal_strlit("[sudo]");
    reveal_strlit("[sudo:");
    let l = lower_ascii(line);
    assert(l[0] == crate::text::lower_ascii_char(line[0]));
    assert(l[0] != '[');
    if "[sudo]"@.is_prefix_of(l) {
        assert("[sudo]"@ =~= l.subrange(0, 6));
        assert(l.subrange(0, 6)[0] == l[0]);
    }
    if "[sudo:"@.is_prefix_of(l) {
        assert("[sudo:"@ =~= l.subrange(0, 6));
        assert(l.subrange(0, 6)[0] == l[0]);
    }
}

/// A line that ends in a colon and has the word in it asks for the password, and so does one with
/// the mark of `sudo`; whatever else is in it.
pub proof fn password_questions(above: Seq<Seq<char>>, q: Seq<char>, rest: Seq<char>)
    requires
        q.len() > 0 && !is_white(q[0]),
        rest.len() > 0 && !is_white(rest.last()),
    ensures
        includes(lower_ascii(q.push(':')), "password"@) ==> detected(above, q.push(':')) == Some(
            PromptView::Password { text: cleaned(q.push(':')) },
        ),
        detected(above, "[sudo]"@ + rest) == Some(
            PromptView::Password { text: cleaned("[sudo]"@ + rest) },
        ),
{
    reveal_strlit(" ");
    reveal_strlit("[sudo]");
    let line = q.push(':');
    assert(line[0] == q[0] && line.last() == ':');
    crate::text::trimming_keeps_clean_text(line);
    let lower = lower_ascii(line);
    assert(lower.last() == ':');
    assert(!" "@.contains(':'));
    assert(crate::text::trimmed_end_of(lower, " "@) == lower);
    let s = "[sudo]"@ + rest;
    assert(s[0] == '[' && s.last() == rest.last());
    crate::text::trimming_keeps_clean_text(s);
    assert(lower_ascii(s).subrange(0, 6) =~= "[sudo]"@) by {
        assert forall|i: int| 0 <= i < 6 implies lower_ascii(s)[i] == "[sudo]"@[i] by {
            assert(s[i] == "[sudo]"@[i]);
        }
    }
    assert("[sudo]"@.is_prefix_of(lower_ascii(s)));
}

/// A numbered line as it is printed.
pub open spec fn printed_item(n: nat, t: Seq<char>) -> Seq<char> {
    decimal(n) + " - "@ + t
}

/// The lines of a numbered list, counted from one.
pub open spec fn printed_items(items: Seq<Seq<char>>) -> Seq<Seq<char>> {
    Seq::new(items.len(), |i: int| printed_item((i + 1) as nat, items[i]))
}

proof fn lemma_item(n: nat, t: Seq<char>)
    requires
        n <= usize::MAX,
        t.len() > 0 && neat(t),
    ensures
        trimmed(printed_item(n, t)) == printed_item(n, t),
        printed_item(n, t).len() > 0,
        numbered_line(printed_item(n, t)) == Some((n, t)),
{
    reveal_strlit(" - ");
    crate::num::lemma_decimal(n);
    crate::num::decimal_is_read_back(n, usize::MAX as nat);
    let d = decimal(n);
    let s = printed_item(n, t);
    assert(crate::num::is_digit(d[0]));
    assert(s[0] == d[0]);
    assert(s.last() == t.last());
    crate::text::trimming_keeps_clean_text(s);
    let p = " - "@;
    let k = d.len() as int;
    assert(s.subrange(k, k + p.len()) =~= p);
    assert forall|j: int| 0 <= j < k implies !crate::text::occurs_at(s, p, j) by {
        if crate::text::occurs_at(s, p, j) {
            assert(s.subrange(j, j + p.len())[0] == ' ');
            assert(s[j] == d[j]);
            assert(crate::num::is_digit(d[j]));
        }
    }
    assert(crate::text::is_first(s, p, k));
    crate::text::lemma_first_at(s, p, k);
    assert(s.take(k) =~= d);
    assert(s.skip(k + p.len()) =~= t);
    assert(crate::num::is_digit(d[d.len() - 1]));
    crate::text::trimming_keeps_clean_text(d);
    crate::text::trimming_keeps_clean_text(t);
}

proof fn lemma_items(
    head: Seq<Seq<char>>,
    items: Seq<Seq<char>>,
    n: int,
    found: Seq<(nat, Seq<char>)>,
)
    requires
        0 <= n <= items.len() <= usize::MAX,
        forall|i: int| 0 <= i < items.len() ==> items[i].len() > 0 && neat(#[trigger] items[i]),
        found == Seq::new((items.len() - n) as nat, |i: int| ((n + i + 1) as nat, items[n + i])),
        head.len() > 0 ==> trimmed(head.last()).len() > 0 && numbered_line(trimmed(head.last()))
            is None,
        items.len() > 0,
        head.len() > 0 ==> !includes(trimmed(head.last()), "Invalid input"@) && !includes(
            trimmed(head.last()),
            "WARNING"@,
        ),
    ensures
        numbered_above(head + printed_items(items).take(n), found) == Seq::new(
            items.len(),
            |i: int| ((i + 1) as nat, items[i]),
        ),
    decreases n,
{
    let above = head + printed_items(items).take(n);
    if n == 0 {
        assert(above =~= head);
        assert(found =~= Seq::new(items.len(), |i: int| ((i + 1) as nat, items[i])));
    } else {
        assert(above.last() == printed_items(items)[n - 1]);
        assert(above.last() == printed_item(n as nat, items[n - 1]));
        lemma_item(n as nat, items[n - 1]);
        assert(above.drop_last() =~= head + printed_items(items).take(n - 1));
        let more = seq![(n as nat, items[n - 1])] + found;
        assert(more =~= Seq::new(
            (items.len() - (n - 1)) as nat,
            |i: int| ((n - 1 + i + 1) as nat, items[n - 1 + i]),
        ));
        lemma_items(head, items, n - 1, more);
    }
}

/// A numbered list above a question gives the choices, in order and none left out.
pub proof fn numbered_lines_are_the_choices(head: Seq<Seq<char>>, items: Seq<Seq<char>>)
    requires
        0 < items.len() <= usize::MAX,
        forall|i: int| 0 <= i < items.len() ==> items[i].len() > 0 && neat(#[trigger] items[i]),
        head.len() > 0 ==> trimmed(head.last()).len() > 0 && numbered_line(trimmed(head.last()))
            is None,
        head.len() > 0 ==> !includes(trimmed(head.last()), "Invalid input"@) && !includes(
            trimmed(head.last()),
            "WARNING"@,
        ),
    ensures
        list_items(numbered_above(head + printed_items(items), Seq::empty())) == items,
{
    let all = printed_items(items);
    let n = items.len() as int;
    assert(all.take(n) =~= all);
    assert(Seq::<(nat, Seq<char>)>::empty() =~= Seq::new(
        (items.len() - n) as nat,
        |i: int| ((n + i + 1) as nat, items[n + i]),
    ));
    lemma_items(head, items, n, Seq::empty());
    let found = numbered_above(head + all, Seq::empty());
    assert(crate::prompt::counts_up(found));
    assert(list_items(found) =~= items);
}

/// A question that selects offers the choices above it, under the labels that fit its words.
pub proof fn selection_questions(above: Seq<Seq<char>>, q: Seq<char>)
    requires
        bare(q),
        no_password(q),
        includes(lower_ascii(q), "select the"@),
    ensures
        ({
            let p = detected(above, q);
            &&& p is Some && p->0 is Select
            &&& p->0->Select_text == q
            &&& p->0->items == list_items(numbered_above(above, Seq::empty()))
            &&& includes(lower_ascii(q), "read them all"@) ==> p->0->all_label == "READ ALL"@
            &&& !includes(lower_ascii(q), "read them all"@) && includes(
                lower_ascii(q),
                "restart them all"@,
            ) ==> p->0->all_label == "RESTART ALL"@
            &&& !includes(lower_ascii(q), "read them all"@) && !includes(
                lower_ascii(q),
                "restart them all"@,
            ) ==> p->0->all_label == "ALL"@
            &&& includes(lower_ascii(q), "proceed with update"@) ==> p->0->enter_label
                == "PROCEED WITH UPDATE"@
            &&& !includes(lower_ascii(q), "proceed with update"@) && (includes(
                lower_ascii(q),
                "without restarting"@,
            ) || !includes(lower_ascii(q), "quit"@)) ==> p->0->enter_label == "SKIP"@
            &&& !includes(lower_ascii(q), "proceed with update"@) && !includes(
                lower_ascii(q),
                "without restarting"@,
            ) && includes(lower_ascii(q), "quit"@) ==> p->0->enter_label == "QUIT"@
        }),
{
    crate::text::trimming_keeps_clean_text(q);
    lemma_no_yes_no(q);
    lemma_asks_no_password(q);
    marks_are_taken_off(q);
}

/// A line that asks to press Enter goes on, or quits where it says so.
pub proof fn enter_questions(above: Seq<Seq<char>>, q: Seq<char>)
    requires
        bare(q),
        no_password(q),
        !includes(lower_ascii(q), "select the"@),
        includes(lower_ascii(q), "press enter"@) || includes(lower_ascii(q), "press \"enter\""@),
    ensures
        detected(above, q) == Some(
            PromptView::Continue { text: q, quit: includes(lower_ascii(q), "quit"@) },
        ),
{
    reveal_strlit("-> select");
    crate::text::trimming_keeps_clean_text(q);
    lemma_no_yes_no(q);
    lemma_asks_no_password(q);
    marks_are_taken_off(q);
    lemma_no_dash(q);
}

proof fn lemma_no_dash(q: Seq<char>)
    requires
        bare(q),
    ensures
        !"-> select"@.is_prefix_of(lower_ascii(q)),
{
    reveal_strlit("-> select");
    let l = lower_ascii(q);
    if "-> select"@.is_prefix_of(l) {
        assert(l.subrange(0, 9)[0] == l[0]);
        assert(l[0] == crate::text::lower_ascii_char(q[0]));
    }
}

/// A line with none of the marks of a question is no question.
pub proof fn other_lines_ask_nothing(above: Seq<Seq<char>>, q: Seq<char>)
    requires
        bare(q),
        no_password(q),
        !includes(lower_ascii(q), "select the"@),
        !includes(lower_ascii(q), "press enter"@),
        !includes(lower_ascii(q), "press \"enter\""@),
        !includes(lower_ascii(q), "or (1 2 3, 1-3, ^4)"@),
        !"enter a selection"@.is_prefix_of(lower_ascii(q)),
        !"enter a number"@.is_prefix_of(lower_ascii(q)),
    ensures
        detected(above, q) is None,
{
    reveal_strlit(":: packages to");
    reveal_strlit("==> packages to");
    crate::text::trimming_keeps_clean_text(q);
    lemma_no_yes_no(q);
    lemma_asks_no_password(q);
    lemma_no_dash(q);
    let l = lower_ascii(q);
    assert(l[0] == crate::text::lower_ascii_char(q[0]));
    if ":: packages to"@.is_prefix_of(l) {
        assert(l.subrange(0, 14)[0] == l[0]);
    }
    if "==> packages to"@.is_prefix_of(l) {
        assert(l.subrange(0, 15)[0] == l[0]);
    }
}

/// A question for a number is answered with text.
pub proof fn number_questions(above: Seq<Seq<char>>, q: Seq<char>)
    requires
        bare(q),
        no_password(q),
        !includes(lower_ascii(q), "select the"@),
        !includes(lower_ascii(q), "press enter"@),
        !includes(lower_ascii(q), "press \"enter\""@),
        "enter a selection"@.is_prefix_of(lower_ascii(q)) || "enter a number"@.is_prefix_of(
            lower_ascii(q),
        ),
    ensures
        detected(above, q) == Some(PromptView::Input { text: q, default: default_of(q) }),
{
    crate::text::trimming_keeps_clean_text(q);
    lemma_no_yes_no(q);
    lemma_asks_no_password(q);
    lemma_no_dash(q);
    marks_are_taken_off(q);
}

proof fn lemma_last_part(q: Seq<char>, p: Seq<char>, d: Seq<char>)
    requires
        p.len() > 0,
        forall|i: int| 0 < i < p.len() ==> #[trigger] p[i] != p[0],
        !d.contains(p[0]),
    ensures
        crate::text::last_at(q + p + d, p) == Some(q.len() as int),
{
    let s = q + p + d;
    let k = q.len() as int;
    assert(s.subrange(k, k + p.len()) =~= p);
    assert(crate::text::occurs_at(s, p, k));
    assert forall|j: int| k < j implies !crate::text::occurs_at(s, p, j) by {
        if crate::text::occurs_at(s, p, j) {
            assert(s.subrange(j, j + p.len())[0] == s[j]);
            if j < k + p.len() {
                assert(s[j] == p[j - k]);
            } else {
                assert(s[j] == d[j - k - p.len()]);
                assert(d.contains(p[0]));
            }
        }
    }
    assert(crate::text::is_last(s, p, k));
    let c = choose|i: int| crate::text::is_last(s, p, i);
    assert(crate::text::is_last(s, p, c));
    if c < k {
        assert(!crate::text::occurs_at(s, p, k));
    }
}

proof fn lemma_closed(d: Seq<char>)
    requires
        d.len() > 0 && d.last() != ')' && d.last() != ':' && d.last() != ' ',
    ensures
        crate::text::trimmed_end_of(d + "):"@, "): "@) == d,
{
    reveal_strlit("):");
    reveal_strlit("): ");
    let set = "): "@;
    let rest = d + "):"@;
    assert(set[0] == ')' && set[1] == ':' && set[2] == ' ');
    assert(set.contains(')') && set.contains(':'));
    assert(rest.last() == ':');
    assert(rest.drop_last() =~= d.push(')'));
    assert(d.push(')').drop_last() =~= d);
    assert(!set.contains(d.last()));
    assert(crate::text::trimmed_end_of(d, set) == d);
    assert(crate::text::trimmed_end_of(d.push(')'), set) == d);
}

/// The answer of Enter alone to a question for text stands behind `(default=`.
pub proof fn defaults_are_read(q: Seq<char>, d: Seq<char>)
    requires
        !d.contains('('),
        d.len() > 0 && d.last() != ')' && d.last() != ':' && d.last() != ' ',
    ensures
        default_of(q + "(default="@ + (d + "):"@)) == d,
        !includes(q, "(default="@) ==> default_of(q) == Seq::<char>::empty(),
{
    let rest = d + "):"@;
    assert(!rest.contains('(')) by {
        reveal_strlit("):");
        if rest.contains('(') {
            let i = choose|i: int| 0 <= i < rest.len() && rest[i] == '(';
            if i < d.len() {
                assert(d[i] == '(');
            }
        }
    }
    assert("(default="@.len() == 9 && "(default="@[0] == '(' && forall|i: int|
        0 < i < 9 ==> #[trigger] "(default="@[i] != '(') by {
        reveal_strlit("(default=");
    }
    lemma_last_part(q, "(default="@, rest);
    lemma_closed(d);
    let s = q + "(default="@ + rest;
    assert(s.skip(q.len() as int + "(default="@.len()) =~= rest);
}

// ------------------------------------------------------------------ dialogs

/// What restarts or removes is dangerous, and its button says so; what only goes on is not.
pub proof fn dangerous_answers_are_marked(text: Seq<char>, default_yes: bool, lower: Seq<char>)
    ensures
        ({
            let p = PromptView::YesNo { text, default_yes };
            &&& includes(lower, "reboot"@) ==> p.dangerous(lower) && p.verb(lower)
                == "REBOOT NOW"@
            &&& includes(lower, "remove"@) ==> p.dangerous(lower)
            &&& includes(lower, "remove"@) && !includes(lower, "reboot"@) ==> p.verb(lower)
                == "REMOVE"@
            &&& p.dangerous(lower) ==> p.verb(lower) == "REBOOT NOW"@ || p.verb(lower)
                == "REMOVE"@
            &&& p.consequential()
        }),
        ({
            let p = PromptView::Password { text };
            &&& !p.dangerous(lower) && !p.consequential()
            &&& p.title(lower) == "AUTHENTICATE"@ && p.verb(lower) == "AUTHENTICATE"@
        }),
        ({
            let p = PromptView::Continue { text, quit: true };
            &&& !p.dangerous(lower) && !p.consequential()
            &&& p.title(lower) == "FINISHED"@ && p.verb(lower) == "CLOSE"@
        }),
        ({
            let p = PromptView::Continue { text, quit: false };
            &&& !p.dangerous(lower) && !p.consequential()
            &&& p.title(lower) == "CONTINUE"@ && p.verb(lower) == "CONTINUE"@
        }),
{
}

/// The button of any other question names what yes does.
pub proof fn buttons_name_what_yes_does(text: Seq<char>, default_yes: bool, lower: Seq<char>)
    requires
        !includes(lower, "reboot"@) && !includes(lower, "remove"@),
    ensures
        ({
            let v = (PromptView::YesNo { text, default_yes }).verb(lower);
            let update = includes(lower, "update"@);
            let install = includes(lower, "install"@);
            let process = includes(lower, "process"@);
            &&& update ==> v == "UPDATE"@
            &&& install && !update ==> v == "INSTALL"@
            &&& process && !update && !install ==> v == "PROCESS"@
            &&& !update && !install && !process ==> v == "YES"@
        }),
{
}

/// The title of a yes / no dialog tells what it is about, where just one thing is named.
pub proof fn titles_tell_the_subject(text: Seq<char>, default_yes: bool, lower: Seq<char>)
    ensures
        ({
            let t = (PromptView::YesNo { text, default_yes }).title(lower);
            let update = includes(lower, "proceed with update"@);
            let orphan = includes(lower, "orphan"@);
            let cache = includes(lower, "cache"@);
            let reboot = includes(lower, "reboot"@);
            let pacnew = includes(lower, "pacnew"@) || includes(lower, "process th"@);
            let flatpak = includes(lower, "flatpak"@);
            let pacman = includes(lower, "proceed with installation"@) || includes(
                lower,
                "remove these packages"@,
            );
            let helper = includes(lower, "proceed to review"@) || includes(lower, "diffs"@)
                || includes(lower, "import"@) || includes(lower, "clean build"@);
            &&& update ==> t == "PROCEED WITH UPDATE"@
            &&& orphan && !update ==> t == "ORPHAN PACKAGES"@
            &&& cache && !update && !orphan ==> t == "PACKAGE CACHE"@
            &&& reboot && !update && !orphan && !cache ==> t == "REBOOT"@
            &&& pacnew && !update && !orphan && !cache && !reboot ==> t == "PACNEW FILES"@
            &&& flatpak && !update && !orphan && !cache && !reboot && !pacnew ==> t == "FLATPAK"@
            &&& pacman && !update && !orphan && !cache && !reboot && !pacnew && !flatpak ==> t
                == "PACMAN"@
            &&& helper && !update && !orphan && !cache && !reboot && !pacnew && !flatpak && !pacman
                ==> t == "AUR HELPER"@
            &&& !update && !orphan && !cache && !reboot && !pacnew && !flatpak && !pacman && !helper
                ==> t == "CONFIRM"@
        }),
{
}

/// The title of a dialog that selects, and that of one for text.
pub proof fn other_titles(
    text: Seq<char>,
    items: Seq<Seq<char>>,
    all_label: Seq<char>,
    enter_label: Seq<char>,
    default: Seq<char>,
    lower: Seq<char>,
)
    ensures
        ({
            let p = PromptView::Select { text, items, all_label, enter_label };
            &&& includes(lower, "news"@) ==> p.title(lower) == "ARCH NEWS"@
            &&& includes(lower, "service"@) && !includes(lower, "news"@) ==> p.title(lower)
                == "RESTART SERVICES"@
            &&& !includes(lower, "service"@) && !includes(lower, "news"@) ==> p.title(lower)
                == "SELECT"@
            &&& p.verb(lower) == "SELECTED"@
            &&& !p.dangerous(lower) && !p.consequential()
        }),
        ({
            let p = PromptView::Input { text, default };
            &&& p.title(lower) == "INPUT"@ && p.verb(lower) == "SEND"@
            &&& !p.dangerous(lower) && !p.consequential()
        }),
{
}

} // verus!
