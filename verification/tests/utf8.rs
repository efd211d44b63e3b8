use archpkg::utf8::{decode, from_utf8_lossy};

#[test]
fn lossy_text_is_that_of_the_standard_library() {
    for bytes in [
        &b""[..],
        b"plain",
        "日本語 é".as_bytes(),
        b"\xff",
        b"a\x80b",
        b"\xe6\x97",
        b"\xe6\x97A",
        b"\xf0\x9f\x98",
        b"\xc0\x80\xed\xa0\x80\xf4\x90",
        b"\xff\xe6\x97\xa5\xe6",
    ] {
        assert_eq!(from_utf8_lossy(bytes), String::from_utf8_lossy(bytes));
    }
}

#[test]
fn a_cut_character_is_kept() {
    assert_eq!(decode(b"a\xe6\x97"), (vec!['a'], vec![0xe6, 0x97]));
    assert_eq!(decode(b"a\xff\xe6"), (vec!['a', '\u{FFFD}'], vec![0xe6]));
    assert_eq!(decode(b"ab"), (vec!['a', 'b'], vec![]));
}
