use alacritty::text::{
    bytes_of, contains_text, field_of, is_not_after, split_filled, split_lines, split_words, trim,
    write_decimal,
};
use alacritty::wgsl::{minify_wgsl, strip_wgsl_comments, try_strip_wgsl_comments};
use alacritty::wide::{before_zero, text_before_zero, win32_string};

#[test]
fn lines_end_with_line_feeds() {
    assert_eq!(split_lines("a\r\nb\n\nc\r"), ["a", "b", "", "c\r"]);
    assert_eq!(split_lines("a\n"), ["a"]);
    assert!(split_lines("").is_empty());
}

#[test]
fn fields_are_separated() {
    assert_eq!(field_of("a:b::d", ':', 0), "a");
    assert_eq!(field_of("a:b::d", ':', 2), "");
    assert_eq!(field_of("a:b::d", ':', 3), "d");
    assert_eq!(field_of("a:b::d", ':', 4), "");
}

#[test]
fn white_space_is_trimmed() {
    let spaces: String = ('\0'..=char::MAX)
        .filter(|character| trim(&character.to_string()).is_empty())
        .collect();
    assert_eq!(
        spaces,
        "\t\n\u{b}\u{c}\r \u{85}\u{a0}\u{1680}\u{2000}\u{2001}\u{2002}\u{2003}\u{2004}\u{2005}\
         \u{2006}\u{2007}\u{2008}\u{2009}\u{200a}\u{2028}\u{2029}\u{202f}\u{205f}\u{3000}"
    );
}

#[test]
fn texts_are_split_and_trimmed() {
    assert_eq!(split_words(" a\u{3000}b\tc "), ["a", "b", "c"]);
    assert_eq!(split_filled(";a;;b;", ';'), ["a", "b"]);
    assert_eq!(trim(" \n a b\u{a0}"), "a b");
    assert_eq!(trim(" \t"), "");
    assert!(contains_text(&vec!["x".to_owned()], "x"));
    assert_eq!(bytes_of("é"), [0xc3, 0xa9]);
}

#[test]
fn texts_are_ordered() {
    assert!(is_not_after("", "a"));
    assert!(is_not_after("3.3", "3.30"));
    assert!(!is_not_after("3.3", "3.2"));
    assert!(!is_not_after("b", "a"));
    assert!(!is_not_after("ab", "a"));
}

#[test]
fn numbers_are_written_in_decimal() {
    assert_eq!(write_decimal(0), "0");
    assert_eq!(write_decimal(90210), "90210");
    assert_eq!(write_decimal(u64::MAX), "18446744073709551615");
}

#[test]
fn comments_are_taken_out() {
    assert_eq!(strip_wgsl_comments("a // b\nc/* d /* e */ f */g"), "a  \nc g");
    assert_eq!(strip_wgsl_comments("a / b * c"), "a / b * c");
    assert_eq!(strip_wgsl_comments("x // y"), "x  ");
    assert_eq!(try_strip_wgsl_comments("a /* b"), None);
    assert_eq!(try_strip_wgsl_comments("a /* /* b */"), None);
    assert_eq!(strip_wgsl_comments("no comment"), "no comment");
}

#[test]
fn taken_out_comments_are_gone() {
    for source in ["a//b\nc", "/ /* x */ / y", "a /* /* */ // */ b", "x / y / z"] {
        let stripped = strip_wgsl_comments(source);
        assert!(!stripped.contains("//") && !stripped.contains("/*"));
        assert_eq!(strip_wgsl_comments(&stripped), stripped);
    }
}

#[test]
fn shaders_are_minified() {
    let source = "fn  main() {\n    // nothing\n\n\tlet a =  1; /* b */ let c = 2;\n}\n";
    assert_eq!(minify_wgsl(source).unwrap(), "fn main() {\nlet a = 1; let c = 2;\n}");
    assert_eq!(minify_wgsl("/*"), None);
    assert_eq!(minify_wgsl(" \n// only\n").unwrap(), "");
}

#[test]
fn wide_text_ends_with_zero() {
    assert_eq!(win32_string("aé"), [97, 233, 0]);
    assert_eq!(win32_string("😀"), [0xd83d, 0xde00, 0]);
    assert_eq!(before_zero(&vec![1, 2, 0, 3]), [1, 2]);
    assert_eq!(before_zero(&vec![1, 2]), [1, 2]);
}

#[test]
fn wide_text_is_read_back() {
    for text in ["", "plain", "ünïcödé 漢字 😀"] {
        assert_eq!(text_before_zero(&win32_string(text)), text);
    }
    assert_eq!(text_before_zero(&win32_string("a\0b")), "a");
    assert_eq!(text_before_zero(&vec![0xd800, 97, 0]), "\u{fffd}a");
}
