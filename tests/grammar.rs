use md_parser::{MarkdownError, MarkdownParser, Rule};

#[test]
fn test_parse_digit() {
    let input = "5";
    let pair = MarkdownParser::parse_rule(Rule::Digit, input).expect("no pair");

    assert_eq!(pair, input);
}

#[test]
fn test_parse_bold() {
    let input = "**bold text**";
    let pair = MarkdownParser::parse_rule(Rule::Bold, input).expect("no pair");

    assert_eq!(pair, input);
}

#[test]
fn test_parse_italic() {
    let input = "*italic text*";
    let pair = MarkdownParser::parse_rule(Rule::Italic, input).expect("no pair");

    assert_eq!(pair, input);
}

#[test]
fn test_parse_bold_and_italic() {
    let input = "***bold and italic***";
    let pair = MarkdownParser::parse_rule(Rule::BoldItalic, input).expect("no pair");

    assert_eq!(pair, input);
}

#[test]
fn test_parse_unordered() {
    let input = "* ";
    let pair = MarkdownParser::parse_rule(Rule::Unordered, input).expect("no pair");

    assert_eq!(pair, input);
}

#[test]
fn test_parse_ordered() {
    let input = "1. ";
    let pair = MarkdownParser::parse_rule(Rule::Ordered, input).expect("no pair");

    assert_eq!(pair, input);
}

#[test]
fn test_parse_list_start() {
    let input = "- ";
    let pair = MarkdownParser::parse_rule(Rule::ListStart, input).expect("no pair");

    assert_eq!(pair, input);
}

#[test]
fn test_parse_header_start() {
    let input = "# ";
    let pair = MarkdownParser::parse_rule(Rule::HeaderStart, input).expect("no pair");

    assert_eq!(pair, input);
}

#[test]
fn test_parse_line_content() {
    let input = "**bold** and *italic* text";
    let pair = MarkdownParser::parse_rule(Rule::LineContent, input).expect("no pair");

    assert_eq!(pair, input);
}

#[test]
fn test_parse_line_with_literal_asterisk() {
    let input = "a * b and c#";
    let pair = MarkdownParser::parse_rule(Rule::LineContent, input).expect("no pair");

    assert_eq!(pair, input);
}

#[test]
fn test_parse_list_point() {
    let input = "* List point\n";
    let pair = MarkdownParser::parse_rule(Rule::ListPoint, input).expect("no pair");

    assert_eq!(pair, input);
}

#[test]
fn test_parse_header() {
    let input = "# Hello World\n";
    let pair = MarkdownParser::parse_rule(Rule::Header, input).expect("no pair");

    assert_eq!(pair, input);
}

#[test]
fn test_parse_paragraph() {
    let input = "This is a paragraph\nSecond line\n";
    let pair = MarkdownParser::parse_rule(Rule::Paragraph, input).expect("no pair");

    assert_eq!(pair, input);
}

#[test]
fn test_fail_on_invalid_header() {
    let pair = MarkdownParser::parse_rule(Rule::Header, "####### Not a h1-h6\n");
    assert!(pair.is_err(), "Parser incorrectly accepted #######");
}

#[test]
fn test_fail_on_mismatched_bold() {
    let pair = MarkdownParser::parse_rule(Rule::Bold, "**missing closure");
    assert!(pair.is_err(), "Parser did not fail on unclosed **");
}

#[test]
fn test_parse_document() {
    let input = "# Hello World\n* List point\n";

    let pair = MarkdownParser::parse_rule(Rule::Document, input).expect("no pair");

    assert_eq!(pair, input);
    assert_eq!(pair.len(), input.len());
}

#[test]
fn rule_matches_only_a_prefix() {
    assert_eq!(MarkdownParser::parse_rule(Rule::Bold, "**a** rest").unwrap(), "**a**");
    assert_eq!(MarkdownParser::parse_rule(Rule::Header, "# A\nnext\n").unwrap(), "# A\n");
    assert_eq!(MarkdownParser::parse_rule(Rule::HeaderStart, "##  x").unwrap(), "##  ");
    assert_eq!(MarkdownParser::parse_rule(Rule::Ordered, "12. x").unwrap(), "12. ");
    assert_eq!(MarkdownParser::parse_rule(Rule::Char, "xy").unwrap(), "x");
    assert_eq!(MarkdownParser::parse_rule(Rule::Block, "a\nb\n\nc").unwrap(), "a\nb\n");
    assert_eq!(
        MarkdownParser::parse_rule(Rule::UnorderedList, "- a\n- b\n1. c\n").unwrap(),
        "- a\n- b\n"
    );
}

#[test]
fn rule_that_does_not_match_names_itself() {
    match MarkdownParser::parse_rule(Rule::Digit, "x") {
        Err(MarkdownError::ParseError { line, column, attempted }) => {
            assert_eq!((line, column), (1, 1));
            assert_eq!(attempted, vec![Rule::Digit]);
        }
        _ => panic!("expected a parse error"),
    }
    assert!(MarkdownParser::parse_rule(Rule::HeaderStart, "####### x").is_err());
    assert!(MarkdownParser::parse_rule(Rule::Italic, "*a").is_err());
    assert!(MarkdownParser::parse_rule(Rule::OrderedList, "- a").is_err());
}

#[test]
fn unclosed_bold_stops_a_line_rule() {
    match MarkdownParser::parse_rule(Rule::LineContent, "ab **c") {
        Err(MarkdownError::ParseError { line, column, .. }) => assert_eq!((line, column), (1, 4)),
        _ => panic!("expected a parse error"),
    }
}
