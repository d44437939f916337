use combinators::outcome::Outcome;
use combinators::parser::Parser;
use std::cell::Cell;
use std::rc::Rc;

fn matched(text: &str, rest: &str) -> Result<(String, String), String> {
    Ok((text.to_string(), rest.to_string()))
}

fn failed(rest: &str) -> Result<(String, String), String> {
    Err(rest.to_string())
}

fn upper_or_fail(text: String) -> Result<String, ron::Error> {
    if text.chars().all(|c| c.is_ascii_digit()) {
        Ok(format!("<{}>", text))
    } else {
        Err(ron::Error::Message(format!("not a number: {}", text)))
    }
}

fn counting(counter: &Rc<Cell<u32>>, tag: &'static str) -> impl Fn(String) -> Result<String, ron::Error> {
    let counter = Rc::clone(counter);
    move |_text: String| {
        counter.set(counter.get() + 1);
        Ok(tag.to_string())
    }
}

#[test]
fn sequence_reports_the_list_of_both_texts() {
    let parser = Parser::literal("a").and(Parser::literal("b"));
    assert_eq!(parser.parse("abc"), matched("[\"a\",\"b\"]", "c"));
}

#[test]
fn sequence_fails_with_what_the_failing_operand_left() {
    let parser = Parser::literal("a").and(Parser::literal("b"));
    assert_eq!(parser.parse("xbc"), failed("xbc"));
    assert_eq!(parser.parse("acd"), failed("cd"));
}

#[test]
fn sequence_does_not_evaluate_the_right_operand_after_a_failure() {
    let fired = Rc::new(Cell::new(0));
    let right = Parser::constant("r").map(counting(&fired, "right"));
    let parser = Parser::literal("a").and(right);
    assert_eq!(parser.parse("b"), failed("b"));
    assert_eq!(fired.get(), 0);
    assert_eq!(parser.parse("ab"), matched("[\"a\",\"right\"]", "b"));
    assert_eq!(fired.get(), 1);
}

#[test]
fn sequence_does_not_reach_an_error_node_after_a_failure() {
    let parser = Parser::literal("a").and(Parser::error("boom"));
    assert_eq!(parser.evaluate("b"), Outcome::Failed { rest: "b".to_string() });
    assert_eq!(parser.evaluate("ab"), Outcome::Fatal { message: "boom".to_string() });
}

#[test]
fn ignore_before_reports_the_second_text() {
    let parser = Parser::literal("(").ignore_before(Parser::regex("[a-z]+"));
    assert_eq!(parser.parse("(abc)"), matched("abc", ")"));
    assert_eq!(parser.parse("abc"), failed("abc"));
    assert_eq!(parser.parse("(123"), failed("123"));
}

#[test]
fn ignore_after_reports_the_first_text() {
    let parser = Parser::regex("[a-z]+").ignore_after(Parser::literal(";"));
    assert_eq!(parser.parse("abc;def"), matched("abc", "def"));
    assert_eq!(parser.parse("123;"), failed("123;"));
    assert_eq!(parser.parse("abc,def"), failed(",def"));
}

#[test]
fn alternation_takes_the_left_branch_first() {
    let left_fired = Rc::new(Cell::new(0));
    let right_fired = Rc::new(Cell::new(0));
    let left = Parser::literal("a").map(counting(&left_fired, "left"));
    let right = Parser::literal("a").map(counting(&right_fired, "right"));
    let parser = left.or(right);
    assert_eq!(parser.parse("a"), matched("left", ""));
    assert_eq!(left_fired.get(), 1);
    assert_eq!(right_fired.get(), 0);
}

#[test]
fn alternation_tries_the_right_branch_on_the_same_input() {
    let parser = Parser::literal("a").and(Parser::literal("b")).or(Parser::literal("ac"));
    assert_eq!(parser.parse("acd"), matched("ac", "d"));
    assert_eq!(parser.parse("abd"), matched("[\"a\",\"b\"]", "d"));
}

#[test]
fn alternation_fails_with_what_the_right_branch_left() {
    let parser = Parser::literal("a").or(Parser::literal("b").and(Parser::literal("c")));
    assert_eq!(parser.parse("bd"), failed("d"));
    assert_eq!(parser.parse("zz"), failed("zz"));
}

#[test]
fn alternation_does_not_rescue_an_error_node() {
    let parser = Parser::error("boom").or(Parser::literal("a"));
    assert_eq!(parser.evaluate("a"), Outcome::Fatal { message: "boom".to_string() });
    let parser = Parser::literal("a").or(Parser::error("late"));
    assert_eq!(parser.evaluate("a"), Outcome::Matched { text: "a".to_string(), rest: "".to_string() });
    assert_eq!(parser.evaluate("b"), Outcome::Fatal { message: "late".to_string() });
}

#[test]
fn repeat_matches_an_exact_count() {
    let parser = Parser::literal("x").repeat(2);
    assert_eq!(parser.parse("xxx"), matched("[\"x\",\"x\"]", "x"));
    assert_eq!(parser.parse("xxy"), matched("[\"x\",\"x\"]", "y"));
}

#[test]
fn repeat_fails_with_the_input_left_by_the_failed_attempt() {
    let parser = Parser::literal("x").repeat(2);
    assert_eq!(parser.parse("xy"), failed("y"));
    assert_eq!(parser.parse("yx"), failed("yx"));
}

#[test]
fn repeat_of_nothing_reports_the_empty_list() {
    let parser = Parser::literal("x").repeat(0);
    assert_eq!(parser.parse("xx"), matched("[]", "xx"));
}

#[test]
fn bounded_repeat_from_zero_never_fails() {
    let parser = Parser::literal("x").repeat_range(0..3);
    assert_eq!(parser.parse("xxxy"), matched("[\"x\",\"x\",\"x\"]", "y"));
    assert_eq!(parser.parse("xy"), matched("[\"x\"]", "y"));
    assert_eq!(parser.parse("y"), matched("[]", "y"));
}

#[test]
fn bounded_repeat_stops_at_its_upper_bound() {
    let parser = Parser::literal("x").repeat_range(1..3);
    assert_eq!(parser.parse("xxxxx"), matched("[\"x\",\"x\",\"x\"]", "xx"));
}

#[test]
fn bounded_repeat_fails_below_its_lower_bound() {
    let parser = Parser::literal("x").repeat_range(2..4);
    assert_eq!(parser.parse("xy"), failed("y"));
    assert_eq!(parser.parse("y"), failed("y"));
    assert_eq!(parser.parse("xxy"), matched("[\"x\",\"x\"]", "y"));
}

#[test]
fn bounded_repeat_keeps_what_the_failed_attempt_left() {
    let pair = Parser::literal("a").and(Parser::literal("b"));
    let parser = pair.repeat_range(0..3);
    assert_eq!(parser.parse("abac"), matched("[\"[\\\"a\\\",\\\"b\\\"]\"]", "c"));
}

#[test]
fn bounded_repeat_with_an_empty_range_does_the_owed_repetitions() {
    let parser = Parser::literal("x").repeat_range(2..1);
    assert_eq!(parser.parse("xxx"), matched("[\"x\",\"x\"]", "x"));
    assert_eq!(parser.parse("xy"), failed("y"));
}

#[test]
fn bounded_repeat_does_not_swallow_an_error_node() {
    let parser = Parser::literal("x").or(Parser::error("boom")).repeat_range(0..3);
    assert_eq!(parser.evaluate("xy"), Outcome::Fatal { message: "boom".to_string() });
}

#[test]
fn optional_accepts_one_or_none() {
    let parser = Parser::literal("x").optional();
    assert_eq!(parser.parse("xx"), matched("[\"x\"]", "x"));
    assert_eq!(parser.parse("y"), matched("[]", "y"));
}

#[test]
fn map_replaces_the_matched_text() {
    let parser = Parser::literal("42").map(upper_or_fail);
    assert_eq!(parser.parse("42rest"), matched("<42>", "rest"));
}

#[test]
fn map_fails_with_what_the_operand_left() {
    let parser = Parser::regex("[a-z0-9]+").map(upper_or_fail);
    assert_eq!(parser.parse("4x2 rest"), failed(" rest"));
    assert_eq!(parser.parse("42 rest"), matched("<42>", " rest"));
}

#[test]
fn map_is_not_applied_where_the_operand_fails() {
    let fired = Rc::new(Cell::new(0));
    let parser = Parser::literal("a").map(counting(&fired, "seen"));
    assert_eq!(parser.parse("b"), failed("b"));
    assert_eq!(fired.get(), 0);
}

#[test]
fn map_failure_is_recovered_by_alternation() {
    let parser = Parser::regex("[a-z0-9]+").map(upper_or_fail).or(Parser::literal("4x"));
    assert_eq!(parser.parse("4x2"), matched("4x", "2"));
}

#[test]
fn map_reads_the_list_that_a_sequence_reports() {
    let parser = Parser::literal("a").and(Parser::literal("b")).map(|text: String| {
        match ron::from_str::<Vec<String>>(&text) {
            Ok(items) => Ok(items.concat()),
            Err(error) => Err(error.code),
        }
    });
    assert_eq!(parser.parse("abc"), matched("ab", "c"));
}

#[test]
fn list_encoding_escapes_quotes_and_backslashes() {
    let parser = Parser::literal("\"").and(Parser::literal("\\"));
    assert_eq!(parser.parse("\"\\!"), matched("[\"\\\"\",\"\\\\\"]", "!"));
}

#[test]
fn clone_is_the_same_matcher() {
    let fired = Rc::new(Cell::new(0));
    let parser = Parser::regex("[0-9]+")
        .map(counting(&fired, "n"))
        .and(Parser::literal(";").optional())
        .repeat_range(1..4);
    let copy = parser.clone();
    assert_eq!(copy.parse("1;2;3;4;"), parser.parse("1;2;3;4;"));
    assert_eq!(copy.parse("x"), parser.parse("x"));
    assert_eq!(copy.pretty_print(0), parser.pretty_print(0));
    assert_eq!(fired.get(), 8);
}
