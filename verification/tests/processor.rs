use point_figure::classifier::Relation;
use point_figure::processor::{format_result, parse_coord, set_point_location, ParseError};

fn run(line: &str) -> &'static str {
    format_result(set_point_location(String::from(line)))
}

#[test]
fn scenarios_end_to_end() {
    assert_eq!(run("0 0"), "outside");
    assert_eq!(run("5 5"), "outside");
    assert_eq!(run(""), "error: empty string");
    assert_eq!(run("7"), "error: one coord");
    assert_eq!(run("1 2 3"), "error: too much coords");
    assert_eq!(run("101 5"), "error: out of range");
    assert_eq!(run("abc 5"), "error: bad format");
}

#[test]
fn all_three_relations_appear() {
    assert_eq!(run("10 3"), "border");
    assert_eq!(run("11 5"), "inside");
    assert_eq!(run("100 100"), "outside");
}

#[test]
fn coordinate_range_boundaries() {
    assert_eq!(parse_coord("100"), Ok(100));
    assert_eq!(parse_coord("-100"), Ok(-100));
    assert_eq!(parse_coord("101"), Err(ParseError::OutOfRange));
    assert_eq!(parse_coord("-101"), Err(ParseError::OutOfRange));
    assert_eq!(
        set_point_location(String::from("5 101")),
        Err(ParseError::OutOfRange)
    );
    assert_eq!(
        set_point_location(String::from("-101 5")),
        Err(ParseError::OutOfRange)
    );
    // A value far past the range is out of range however many digits it
    // takes to write it.
    assert_eq!(
        parse_coord("99999999999999999999"),
        Err(ParseError::OutOfRange)
    );
    assert_eq!(
        parse_coord("-99999999999999999999"),
        Err(ParseError::OutOfRange)
    );
}

#[test]
fn non_integer_tokens_are_bad_format() {
    assert_eq!(parse_coord("abc"), Err(ParseError::BadFormat));
    assert_eq!(parse_coord("1.5"), Err(ParseError::BadFormat));
    assert_eq!(parse_coord(""), Err(ParseError::BadFormat));
    assert_eq!(parse_coord("-"), Err(ParseError::BadFormat));
    assert_eq!(parse_coord("+"), Err(ParseError::BadFormat));
    assert_eq!(parse_coord("--5"), Err(ParseError::BadFormat));
    assert_eq!(parse_coord("5x"), Err(ParseError::BadFormat));
}

#[test]
fn signs_and_leading_zeros_parse() {
    assert_eq!(parse_coord("+5"), Ok(5));
    assert_eq!(parse_coord("-0"), Ok(0));
    assert_eq!(parse_coord("007"), Ok(7));
    assert_eq!(parse_coord("0"), Ok(0));
}

#[test]
fn error_priority_is_sequential() {
    // The first token's format and range are checked before the second
    // token's presence.
    assert_eq!(set_point_location(String::from("abc")), Err(ParseError::BadFormat));
    assert_eq!(set_point_location(String::from("101")), Err(ParseError::OutOfRange));
    // The second token's format is checked before the surplus-token
    // check.
    assert_eq!(
        set_point_location(String::from("1 abc 3")),
        Err(ParseError::BadFormat)
    );
    assert_eq!(
        set_point_location(String::from("1 101 3")),
        Err(ParseError::OutOfRange)
    );
    // A third token is surplus whatever it holds.
    assert_eq!(
        set_point_location(String::from("1 2 abc")),
        Err(ParseError::TooMuchCoords)
    );
}

#[test]
fn whitespace_runs_are_discarded() {
    assert_eq!(run("   "), "error: empty string");
    assert_eq!(run("  5   5  "), "outside");
    assert_eq!(run("\t10\t3\t"), "border");
    assert_eq!(run(" -2  4 "), "outside");
}

#[test]
fn formatting_is_total() {
    assert_eq!(format_result(Ok(Relation::Inside)), "inside");
    assert_eq!(format_result(Ok(Relation::Border)), "border");
    assert_eq!(format_result(Ok(Relation::Outside)), "outside");
    assert_eq!(format_result(Err(ParseError::BadFormat)), "error: bad format");
    assert_eq!(format_result(Err(ParseError::EmptyString)), "error: empty string");
    assert_eq!(format_result(Err(ParseError::OutOfRange)), "error: out of range");
    assert_eq!(format_result(Err(ParseError::OneCoord)), "error: one coord");
    assert_eq!(
        format_result(Err(ParseError::TooMuchCoords)),
        "error: too much coords"
    );
}
