use archpkg::num::{parse_u32, parse_u64, to_decimal, to_signed};
use archpkg::text::{
    chars_of, contains, file_name, find, join, lines, path_join, replace, rfind, split, split_by,
    split_once, string_of, strip_prefix, to_lower_ascii, trim, trim_end, trim_start, white, words,
};

const SAMPLES: [&str; 14] = [
    "",
    " ",
    "a",
    " a b\tc ",
    "a\nb\r\nc\r",
    "\n\n",
    "x\r\n",
    "a  b  c",
    "\u{3000}日本\u{2003}語\u{85}",
    "/usr/bin/pacman",
    "/usr/bin/",
    "a/../..",
    "..",
    "aabaaab",
];

fn strings(v: Vec<&[char]>) -> Vec<String> {
    v.into_iter().map(string_of).collect()
}

#[test]
fn every_character_is_white_as_std_says() {
    for c in '\0'..=char::MAX {
        assert_eq!(white(c), c.is_whitespace(), "{c:?}");
    }
}

#[test]
fn trimming_and_splitting_agree_with_std() {
    for s in SAMPLES {
        let cs = chars_of(s);
        assert_eq!(string_of(trim(&cs)), s.trim());
        assert_eq!(string_of(trim_start(&cs)), s.trim_start());
        assert_eq!(string_of(trim_end(&cs)), s.trim_end());
        assert_eq!(strings(lines(&cs)), s.lines().collect::<Vec<_>>(), "{s:?}");
        assert_eq!(
            strings(words(&cs)),
            s.split_whitespace().collect::<Vec<_>>()
        );
        assert_eq!(
            strings(split(&cs, '/')),
            s.split('/').collect::<Vec<_>>()
        );
        assert_eq!(
            strings(split_by(&cs, "  ")),
            s.split("  ").collect::<Vec<_>>()
        );
        assert_eq!(
            split_once(&cs, " ").map(|(a, b)| (string_of(a), string_of(b))),
            s.split_once(" ")
                .map(|(a, b)| (a.to_string(), b.to_string()))
        );
        assert_eq!(
            strip_prefix(&cs, "/usr").map(string_of),
            s.strip_prefix("/usr").map(String::from)
        );
        assert_eq!(contains(&cs, "b"), s.contains("b"));
        assert_eq!(string_of(&to_lower_ascii(&cs)), s.to_ascii_lowercase());
        assert_eq!(string_of(&replace(&cs, 'a', 'z')), s.replace('a', "z"));
    }
}

#[test]
fn finding_agrees_with_std() {
    let s = "aabaaab";
    let cs = chars_of(s);
    for p in ["a", "ab", "aab", "b", "zz", "aaab"] {
        let pc = chars_of(p);
        assert_eq!(find(&cs, &pc), s.find(p));
        assert_eq!(rfind(&cs, &pc), s.rfind(p));
    }
}

#[test]
fn paths_agree_with_std() {
    for s in SAMPLES {
        let cs = chars_of(s);
        assert_eq!(
            file_name(&cs).map(string_of),
            std::path::Path::new(s)
                .file_name()
                .map(|n| n.to_string_lossy().into_owned()),
            "{s:?}"
        );
        assert_eq!(
            path_join(s, "check"),
            std::path::Path::new(s).join("check").display().to_string()
        );
    }
}

#[test]
fn numbers_agree_with_std() {
    for n in [0u64, 7, 10, 99, 100, u64::MAX] {
        assert_eq!(to_decimal(n), n.to_string());
        assert_eq!(parse_u64(&chars_of(&n.to_string())), Some(n));
    }
    for n in [0i32, -1, 42, i32::MIN, i32::MAX] {
        assert_eq!(to_signed(n), n.to_string());
    }
    for s in [
        "", "+", "-1", "+5", "007", "4294967295", "4294967296", "1x", " 1", "18446744073709551616",
    ] {
        assert_eq!(parse_u32(&chars_of(s)), s.parse().ok(), "{s:?}");
        assert_eq!(parse_u64(&chars_of(s)), s.parse().ok(), "{s:?}");
    }
}

#[test]
fn joining() {
    assert_eq!(join(&["a".to_string(), "b".to_string()], ", "), "a, b");
    assert_eq!(join(&[], ", "), "");
}
