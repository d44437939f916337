use combinators::parser::{Parser, ParserKind};
use combinators::render::{margin, to_decimal};
use combinators::text::{begins_with, split_text, strip_start};

#[test]
fn leaves_print_on_one_line() {
    assert_eq!(Parser::literal("ab").pretty_print(0), "Literal \"ab\"");
    assert_eq!(Parser::regex("[0-9]+").pretty_print(0), "Regex /[0-9]+/");
    assert_eq!(Parser::constant("c").pretty_print(0), "Constant \"c\"");
    assert_eq!(Parser::error("boom").pretty_print(0), "Error \"boom\"");
}

#[test]
fn indent_is_a_margin_of_spaces() {
    assert_eq!(Parser::literal("ab").pretty_print(3), "   Literal \"ab\"");
    assert_eq!(
        Parser::literal("a").optional().pretty_print(2),
        "  RepeatRange 0..1 [\n    Literal \"a\",\n  ]"
    );
}

#[test]
fn operands_are_listed_two_columns_further_in() {
    let parser = Parser::literal("a").and(Parser::literal("b"));
    assert_eq!(parser.pretty_print(0), "And [\n  Literal \"a\",\n  Literal \"b\",\n]");
}

#[test]
fn nested_trees_nest_their_outlines() {
    let parser = Parser::literal("a")
        .ignore_before(Parser::regex("b+").repeat(12))
        .or(Parser::constant("c").ignore_after(Parser::error("e")))
        .map(|text: String| Ok(text));
    let expected = "Map [\n\
                    \x20 Or [\n\
                    \x20   IgnoreBefore [\n\
                    \x20     Literal \"a\",\n\
                    \x20     Repeat 12 [\n\
                    \x20       Regex /b+/,\n\
                    \x20     ],\n\
                    \x20   ],\n\
                    \x20   IgnoreAfter [\n\
                    \x20     Constant \"c\",\n\
                    \x20     Error \"e\",\n\
                    \x20   ],\n\
                    \x20 ],\n\
                    ]";
    assert_eq!(parser.pretty_print(0), expected);
}

#[test]
fn printing_twice_gives_the_same_text() {
    let parser = Parser::literal("a")
        .and(Parser::regex("[0-9]+").repeat_range(2..5))
        .or(Parser::constant("c"))
        .map(|text: String| Ok(text));
    let first = parser.pretty_print(4);
    let second = parser.pretty_print(4);
    assert_eq!(first, second);
    assert_eq!(first.as_bytes(), second.as_bytes());
}

#[test]
fn labels_name_the_kind_and_its_payload() {
    assert_eq!(ParserKind::Literal("x".to_string()).label(), "Literal \"x\"");
    assert_eq!(ParserKind::Constant("x".to_string()).label(), "Constant \"x\"");
    assert_eq!(ParserKind::Error("x".to_string()).label(), "Error \"x\"");
    assert_eq!(ParserKind::And.label(), "And");
    assert_eq!(ParserKind::Or.label(), "Or");
    assert_eq!(ParserKind::Ignore(true).label(), "IgnoreBefore");
    assert_eq!(ParserKind::Ignore(false).label(), "IgnoreAfter");
    assert_eq!(ParserKind::Repeat(3).label(), "Repeat 3");
    assert_eq!(ParserKind::RepeatRange(0..10).label(), "RepeatRange 0..10");
    assert_eq!(ParserKind::RepeatRange(7..2).label(), "RepeatRange 7..2");
}

#[test]
fn label_of_a_regex_shows_its_source() {
    let kind = ParserKind::Regex(regex::Regex::new("a|b").unwrap());
    assert_eq!(kind.label(), "Regex /a|b/");
    assert_eq!(kind.clone().label(), "Regex /a|b/");
}

#[test]
fn labels_do_not_escape_their_payload() {
    assert_eq!(Parser::literal("a\"b\n").pretty_print(0), "Literal \"a\"b\n\"");
}

#[test]
fn decimal_numerals() {
    assert_eq!(to_decimal(0), "0");
    assert_eq!(to_decimal(7), "7");
    assert_eq!(to_decimal(10), "10");
    assert_eq!(to_decimal(12345), "12345");
    assert_eq!(to_decimal(9007199254740993), "9007199254740993");
    assert_eq!(to_decimal(usize::MAX), usize::MAX.to_string());
}

#[test]
fn margins() {
    assert_eq!(margin(0), "");
    assert_eq!(margin(1), " ");
    assert_eq!(margin(5), "     ");
}

#[test]
fn begins_with_compares_from_the_start() {
    assert!(begins_with("abc", "ab"));
    assert!(begins_with("abc", ""));
    assert!(begins_with("abc", "abc"));
    assert!(!begins_with("abc", "abcd"));
    assert!(!begins_with("abc", "bc"));
    assert!(!begins_with("é", "a"));
    assert!(begins_with("éa", "é"));
}

#[test]
fn strip_start_cuts_the_prefix_off() {
    assert_eq!(strip_start("abc", "ab"), Some(("ab", "c")));
    assert_eq!(strip_start("abc", ""), Some(("", "abc")));
    assert_eq!(strip_start("abc", "b"), None);
    assert_eq!(strip_start("éa", "é"), Some(("é", "a")));
}

#[test]
fn split_text_cuts_at_a_byte_offset() {
    assert_eq!(split_text("abc", 1), ("a", "bc"));
    assert_eq!(split_text("abc", 0), ("", "abc"));
    assert_eq!(split_text("abc", 3), ("abc", ""));
    assert_eq!(split_text("éa", 2), ("é", "a"));
}
