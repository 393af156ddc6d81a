//! Byte-text utilities and decimal reading and writing.

use kobold_dispatch::num::i64_to_dec;
use kobold_dispatch::num::parse_milli;
use kobold_dispatch::num::parse_usize;
use kobold_dispatch::num::u64_to_dec;
use kobold_dispatch::text::find_sub;
use kobold_dispatch::text::find_sub_last;
use kobold_dispatch::text::join_filename;
use kobold_dispatch::text::replace_char_user;
use kobold_dispatch::text::trim_ascii_ws;
use kobold_dispatch::text::trim_newline_left;
use kobold_dispatch::text::trim_newline_left_right;
use kobold_dispatch::text::trim_newline_right;

#[test]
fn substring_search_finds_first_and_last() {
    assert_eq!(find_sub(b"abcabc", b"bc"), Some(1));
    assert_eq!(find_sub_last(b"abcabc", b"bc"), Some(4));
    assert_eq!(find_sub(b"abc", b"zz"), None);
    assert_eq!(find_sub(b"abc", b""), Some(0));
}

#[test]
fn newline_trims_take_one_line_break() {
    assert_eq!(trim_newline_right(b"text\r\n"), b"text");
    assert_eq!(trim_newline_right(b"text\n\n"), b"text\n");
    assert_eq!(trim_newline_left(b"\r\ntext"), b"text");
    assert_eq!(trim_newline_left_right(b"\ntext\r\n"), b"text");
    assert_eq!(trim_newline_left_right(b"text"), b"text");
}

#[test]
fn whitespace_trim() {
    assert_eq!(trim_ascii_ws(b"  a b \t"), b"a b");
    assert_eq!(trim_ascii_ws(b"\n\n"), b"");
}

#[test]
fn placeholders_are_substituted_everywhere() {
    assert_eq!(
        replace_char_user(b"{{char}} greets {{user}}, {{user}} nods", b"Bob", b"Alice"),
        b"Bob greets Alice, Alice nods".to_vec()
    );
    assert_eq!(replace_char_user(b"plain", b"B", b"A"), b"plain".to_vec());
}

#[test]
fn joined_filenames_live_beside_the_first_file() {
    assert_eq!(join_filename(b"/tales/main.txt", b"side.txt"), b"/tales/side.txt".to_vec());
    assert_eq!(join_filename(b"main.txt", b"side.txt"), b"side.txt".to_vec());
    assert_eq!(join_filename(b"/tales/main.txt", b"/abs.txt"), b"/abs.txt".to_vec());
}

#[test]
fn decimal_formatting() {
    assert_eq!(u64_to_dec(0), b"0".to_vec());
    assert_eq!(u64_to_dec(5002), b"5002".to_vec());
    assert_eq!(i64_to_dec(-512), b"-512".to_vec());
    assert_eq!(i64_to_dec(7), b"7".to_vec());
}

#[test]
fn thousandths_are_read_exactly() {
    assert_eq!(parse_milli(b"1.1"), Some(1100));
    assert_eq!(parse_milli(b"0.92"), Some(920));
    assert_eq!(parse_milli(b"7"), Some(7000));
    assert_eq!(parse_milli(b"1.0"), Some(1000));
    assert_eq!(parse_milli(b"0.1234"), Some(123));
    assert_eq!(parse_milli(b""), None);
    assert_eq!(parse_milli(b"1.2.3"), None);
    assert_eq!(parse_milli(b".5"), None);
    assert_eq!(parse_milli(b"-1"), None);
}

#[test]
fn usize_reading() {
    assert_eq!(parse_usize(b"42"), Some(42));
    assert_eq!(parse_usize(b"+42"), Some(42));
    assert_eq!(parse_usize(b""), None);
    assert_eq!(parse_usize(b"+"), None);
    assert_eq!(parse_usize(b"4x"), None);
}
