use archpkg::term::{Hue, Terminal};

fn lines(t: &Terminal) -> Vec<String> {
    (0..t.len()).map(|i| t.text(i)).collect()
}

#[test]
fn plain_lines_and_crlf() {
    let mut t = Terminal::new();
    t.feed(b"hello\r\nworld\r\n");
    assert_eq!(lines(&t), vec!["hello", "world", ""]);
    assert_eq!(t.cursor_row(), 2);
    assert_eq!(t.cursor_text(), "");
}

#[test]
fn carriage_return_overwrites() {
    let mut t = Terminal::new();
    t.feed(b"progress 10%\rprogress 20%\rdone\x1b[K");
    assert_eq!(lines(&t), vec!["done"]);
}

#[test]
fn colours_become_runs() {
    let mut t = Terminal::new();
    t.feed(b"\x1b[1m\x1b[34m==>\x1b[0m\x1b[1m Packages:\x1b[0m\r\n");
    let runs = t.runs(0);
    assert_eq!(runs.len(), 2);
    assert_eq!(runs[0].text, "==>");
    assert_eq!(runs[0].style.hue, Hue::Blue);
    assert!(runs[0].style.bold);
    assert_eq!(runs[1].text, " Packages:");
    assert_eq!(runs[1].style.hue, Hue::Default);
    assert!(runs[1].style.bold);
}

#[test]
fn cursor_up_rewrites_earlier_line() {
    // pacman-style parallel download bars: move up two lines and repaint
    let mut t = Terminal::new();
    t.feed(b"a 10%\r\nb 10%\r\n\x1b[2A\ra 50%\x1b[K\r\n\x1b[K\rb 60%\r\n");
    assert_eq!(lines(&t), vec!["a 50%", "b 60%", ""]);
}

#[test]
fn prompt_stays_on_cursor_line() {
    let mut t = Terminal::new();
    t.feed(b"\x1b[1m\x1b[34m->\x1b[0m\x1b[1m Proceed with update? [Y/n]\x1b[0m ");
    assert_eq!(t.cursor_text(), "-> Proceed with update? [Y/n]");
    t.feed(b"y\r\n");
    assert_eq!(t.text(0), "-> Proceed with update? [Y/n] y");
    assert_eq!(t.cursor_text(), "");
}

#[test]
fn split_utf8_and_escape_sequences_survive_chunk_boundaries() {
    let mut t = Terminal::new();
    let s = "日本語\x1b[32mok\x1b[0m".as_bytes();
    for b in s {
        t.feed(std::slice::from_ref(b));
    }
    assert_eq!(t.text(0), "日本語ok");
    assert_eq!(t.runs(0)[1].style.hue, Hue::Green);
}

#[test]
fn a_cut_character_behind_a_bad_byte_is_carried_over() {
    let mut t = Terminal::new();
    t.feed(b"\xff\xe6");
    assert_eq!(t.text(0), "\u{FFFD}");
    t.feed(b"\x97\xa5");
    assert_eq!(t.text(0), "\u{FFFD}日");
}

#[test]
fn bad_sequences_are_replaced_one_by_one() {
    // a lone byte, a cut sequence of two and one of three bytes, an overlong form, a surrogate
    for (bytes, text) in [
        (&b"a\x80b"[..], "a\u{FFFD}b"),
        (b"\xe6\x97A", "\u{FFFD}A"),
        (b"\xf0\x9f\x98A", "\u{FFFD}A"),
        (b"\xc0\x80", "\u{FFFD}\u{FFFD}"),
        (b"\xed\xa0\x80", "\u{FFFD}\u{FFFD}\u{FFFD}"),
        ("日\u{FFFD}本".as_bytes(), "日\u{FFFD}本"),
        (b"\xe6\x97\xa5\xff\xe6\x9c\xac", "日\u{FFFD}本"),
    ] {
        let mut whole = Terminal::new();
        whole.feed(bytes);
        assert_eq!(whole.text(0), text);
        assert_eq!(whole.text(0), String::from_utf8_lossy(bytes));
        let mut single = Terminal::new();
        for b in bytes {
            single.feed(std::slice::from_ref(b));
        }
        assert_eq!(single.text(0), text);
    }
}

#[test]
fn osc_title_and_private_modes_are_ignored() {
    let mut t = Terminal::new();
    t.feed(b"\x1b]0;title\x07\x1b[?25lvisible\x1b[?25h\x1b(B");
    assert_eq!(t.text(0), "visible");
}

#[test]
fn erase_below_truncates_history() {
    let mut t = Terminal::new();
    t.feed(b"one\r\ntwo\r\nthree\x1b[2A\r\x1b[Jnew");
    assert_eq!(lines(&t), vec!["new"]);
}

#[test]
fn tail_gives_context_lines() {
    let mut t = Terminal::new();
    t.feed(b"1 - a\r\n2 - b\r\n\r\n-> Select:");
    assert_eq!(t.tail(3), vec!["2 - b", "", "-> Select:"]);
}

#[test]
fn history_is_capped_without_losing_the_cursor_line() {
    let mut t = Terminal::new();
    t.max_lines = 100;
    for i in 0..250 {
        t.feed(format!("line {i}\r\n").as_bytes());
    }
    assert!(t.len() <= 100);
    assert_eq!(t.cursor_text(), "");
    assert!(t.dropped > 0);
    assert_eq!(t.text(t.len() - 2), "line 249");
}

#[test]
fn chunks_do_not_matter() {
    let bytes = "a\r\n\x1b[1;31mé日\x1b[0m\x1b[2Kz\tq\x08r".as_bytes();
    let mut whole = Terminal::new();
    whole.feed(bytes);
    for cut in 0..bytes.len() {
        let mut t = Terminal::new();
        t.feed(&bytes[..cut]);
        t.feed(&bytes[cut..]);
        assert_eq!(lines(&t), lines(&whole), "{cut}");
        assert_eq!(t.cursor_text(), whole.cursor_text(), "{cut}");
    }
}

#[test]
fn invalid_bytes_are_replaced() {
    let mut t = Terminal::new();
    t.feed(b"a\xffb");
    assert_eq!(t.cursor_text(), "a\u{fffd}b");
}

#[test]
fn an_empty_style_sequence_resets() {
    let mut t = Terminal::new();
    t.feed(b"\x1b[1;31ma\x1b[mb");
    assert_eq!(t.runs(0)[0].style.hue, Hue::Red);
    assert_eq!(t.runs(0)[1].style, Default::default());
}

#[test]
fn dropped_keeps_line_numbers_stable() {
    let mut t = Terminal::new();
    assert_eq!((t.dropped, t.max_lines), (0, 20_000));
    t.max_lines = 10;
    for i in 0..50 {
        let before = t.dropped;
        t.feed(format!("{i}\r\n").as_bytes());
        assert!(t.dropped >= before);
        assert!(t.len() <= 10 || t.cursor_row() == 0);
        assert_eq!(t.text(i - t.dropped), i.to_string());
    }
    // the cursor on the first line: nothing can go
    let mut t = Terminal::new();
    t.max_lines = 2;
    t.feed(b"a\r\nb\r\nc\x1b[2A");
    assert_eq!((t.len(), t.cursor_row(), t.dropped), (3, 0, 0));
    t.clear();
    assert_eq!((t.dropped, t.max_lines), (0, 20_000));
}
