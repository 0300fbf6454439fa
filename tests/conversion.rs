use md_parser::grammar::{Block, BlockKind, Inline, InlineKind};
use md_parser::{parse_to_html, render, MarkdownError, MarkdownParser, Rule};

fn html(markdown: &str) -> String {
    parse_to_html(markdown).unwrap()
}

#[test]
fn test_parse_simple_header() {
    let markdown = "# Hello World\n";
    let html = parse_to_html(markdown).unwrap();
    assert_eq!(html, "<h1>Hello World</h1>\n");
}

#[test]
fn test_parse_bold_text() {
    let markdown = "This is **bold** text\n";
    let html = parse_to_html(markdown).unwrap();
    assert_eq!(html, "<p>This is <strong>bold</strong> text</p>\n");
}

#[test]
fn test_parse_italic_text() {
    let markdown = "This is *italic* text\n";
    let html = parse_to_html(markdown).unwrap();
    assert_eq!(html, "<p>This is <em>italic</em> text</p>\n");
}

#[test]
fn test_parse_unordered_list() {
    let markdown = "- Point 1\n- Point 2\n";
    let html = parse_to_html(markdown).unwrap();
    assert!(html.contains("<ul>"));
    assert!(html.contains("</ul>"));
    assert!(html.contains("<li>Point 1</li>"));
    assert!(html.contains("<li>Point 2</li>"));
}

#[test]
fn test_parse_ordered_list() {
    let markdown = "1. First point\n2. Second point\n";
    let html = parse_to_html(markdown).unwrap();
    assert!(html.contains("<ol>"));
    assert!(html.contains("</ol>"));
    assert!(html.contains("<li>First point</li>"));
    assert!(html.contains("<li>Second point</li>"));
}

#[test]
fn test_parse_bold_italic_combined() {
    let markdown = "This is ***bold and italic*** text\n";
    let html = parse_to_html(markdown).unwrap();
    assert!(html.contains("<strong><em>bold and italic</em></strong>"));
}

#[test]
fn unordered_list_exact_output() {
    let out = html("- Point 1\n- Point 2\n");
    assert_eq!(out, "<ul>\n<li>Point 1</li>\n<li>Point 2</li>\n</ul>\n");
    let a = out.find("<ul>\n").unwrap();
    let b = out.find("<li>Point 1</li>\n").unwrap();
    let c = out.find("<li>Point 2</li>\n").unwrap();
    let d = out.find("</ul>\n").unwrap();
    assert!(a < b && b < c && c < d);
}

#[test]
fn ordered_list_exact_output() {
    assert_eq!(
        html("1. First point\n2. Second point\n"),
        "<ol>\n<li>First point</li>\n<li>Second point</li>\n</ol>\n"
    );
}

#[test]
fn star_bullets_make_a_list() {
    assert_eq!(html("* a\n* b"), "<ul>\n<li>a</li>\n<li>b</li>\n</ul>\n");
}

#[test]
fn mixed_list_families_are_separate_lists() {
    assert_eq!(
        html("- a\n1. b\n"),
        "<ul>\n<li>a</li>\n</ul>\n<ol>\n<li>b</li>\n</ol>\n"
    );
}

#[test]
fn header_levels_one_to_six() {
    assert_eq!(html("## Two\n"), "<h2>Two</h2>\n");
    assert_eq!(html("###### Six\n"), "<h6>Six</h6>\n");
    assert_eq!(html("###\tTabbed"), "<h3>Tabbed</h3>\n");
}

#[test]
fn header_with_formatting() {
    assert_eq!(html("# A **b**\n"), "<h1>A <strong>b</strong></h1>\n");
}

#[test]
fn seven_hashes_fall_through_to_paragraph() {
    assert_eq!(html("####### Not a h1-h6\n"), "<p>####### Not a h1-h6</p>\n");
}

#[test]
fn hashes_without_separator_are_text() {
    assert_eq!(html("#tag\n"), "<p>#tag</p>\n");
}

#[test]
fn bold_italic_is_one_element() {
    assert_eq!(html("***x***"), "<p><strong><em>x</em></strong></p>\n");
    let blocks = MarkdownParser::parse("***x***").unwrap();
    assert_eq!(blocks.len(), 1);
    assert_eq!(blocks[0].lines.len(), 1);
    assert_eq!(
        blocks[0].lines[0],
        vec![Inline { kind: InlineKind::BoldItalic, start: 0, end: 7 }]
    );
}

#[test]
fn literal_asterisk_and_hash() {
    assert_eq!(html("a * b and c#"), "<p>a * b and c#</p>\n");
    let blocks = MarkdownParser::parse("a * b and c#").unwrap();
    assert!(blocks[0].lines[0].iter().all(|i| i.kind == InlineKind::Text));
}

#[test]
fn unclosed_triple_marker_is_literal() {
    assert_eq!(html("***x"), "<p>***x</p>\n");
}

#[test]
fn unclosed_double_marker_fails() {
    match parse_to_html("**no close") {
        Err(MarkdownError::ParseError { line, column, attempted }) => {
            assert_eq!((line, column), (1, 1));
            assert_eq!(attempted, vec![Rule::BoldItalic, Rule::Bold]);
        }
        _ => panic!("expected a parse error"),
    }
}

#[test]
fn parse_error_position_counts_lines_and_columns() {
    match parse_to_html("ok\n\nsome **text") {
        Err(MarkdownError::ParseError { line, column, .. }) => assert_eq!((line, column), (3, 6)),
        _ => panic!("expected a parse error"),
    }
    assert!(MarkdownParser::parse("a **b").is_err());
}

#[test]
fn empty_input_renders_empty() {
    assert_eq!(html(""), "");
    assert!(MarkdownParser::parse("").unwrap().is_empty());
    assert_eq!(html("\n\n  \n"), "");
}

#[test]
fn paragraph_lines_are_joined_and_trimmed() {
    assert_eq!(
        html("This is a paragraph\nSecond line\n"),
        "<p>This is a paragraph\nSecond line</p>\n"
    );
    assert_eq!(html("   padded   \n"), "<p>padded</p>\n");
    assert_eq!(html("- \u{a0}spaced\u{3000}\n"), "<ul>\n<li>spaced</li>\n</ul>\n");
}

#[test]
fn blank_lines_separate_blocks() {
    assert_eq!(html("one\n\ntwo\n"), "<p>one</p>\n<p>two</p>\n");
    assert_eq!(
        html("# Hello World\n* List point\n"),
        "<h1>Hello World</h1>\n<ul>\n<li>List point</li>\n</ul>\n"
    );
    assert_eq!(html("para\n# Head\n"), "<p>para</p>\n<h1>Head</h1>\n");
}

#[test]
fn no_entity_escaping() {
    assert_eq!(html("a < b & c\n"), "<p>a < b & c</p>\n");
}

#[test]
fn non_ascii_text_passes_through() {
    assert_eq!(html("# Grüße *schön*\n"), "<h1>Grüße <em>schön</em></h1>\n");
}

#[test]
fn render_of_parsed_blocks() {
    let src = "- *a*\n";
    let blocks = MarkdownParser::parse(src).unwrap();
    assert_eq!(blocks[0].kind, BlockKind::UnorderedList);
    assert_eq!(render(&blocks, src).unwrap(), "<ul>\n<li><em>a</em></li>\n</ul>\n");
}

#[test]
fn render_rejects_bad_header_level() {
    let blocks = vec![Block { kind: BlockKind::Header, level: 7, start: 0, end: 1, lines: vec![vec![]] }];
    match render(&blocks, "x") {
        Err(MarkdownError::InvalidStructure { rule, expected, actual }) => {
            assert_eq!(rule, "header");
            assert_eq!(expected, "one line and a level from 1 to 6");
            assert_eq!(actual, "1 lines and level 7");
        }
        _ => panic!("expected an invalid structure"),
    }
}

#[test]
fn render_rejects_span_outside_source() {
    let blocks = vec![Block {
        kind: BlockKind::Paragraph,
        level: 0,
        start: 0,
        end: 2,
        lines: vec![vec![Inline { kind: InlineKind::Text, start: 0, end: 5 }]],
    }];
    match render(&blocks, "ab") {
        Err(MarkdownError::InvalidStructure { rule, expected, actual }) => {
            assert_eq!(rule, "char");
            assert_eq!(expected, "a span inside the source that holds both markers");
            assert_eq!(actual, "span 0..5 in a source of 2 characters");
        }
        _ => panic!("expected an invalid structure"),
    }
}

#[test]
fn render_rejects_bold_without_room_for_markers() {
    let blocks = vec![Block {
        kind: BlockKind::Paragraph,
        level: 0,
        start: 0,
        end: 3,
        lines: vec![vec![Inline { kind: InlineKind::Bold, start: 0, end: 3 }]],
    }];
    assert!(matches!(render(&blocks, "***"), Err(MarkdownError::InvalidStructure { .. })));
}

#[test]
fn blocks_carry_their_source_spans() {
    let blocks = MarkdownParser::parse("# A\n\n- b\n- c\n").unwrap();
    assert_eq!(blocks.len(), 2);
    assert_eq!((blocks[0].start, blocks[0].end), (0, 4));
    assert_eq!(blocks[0].level, 1);
    assert_eq!((blocks[1].start, blocks[1].end), (5, 13));
    assert_eq!(blocks[1].lines.len(), 2);
}

#[test]
fn render_reports_the_first_fault_in_order() {
    let blocks = vec![
        Block {
            kind: BlockKind::Paragraph,
            level: 0,
            start: 0,
            end: 3,
            lines: vec![vec![
                Inline { kind: InlineKind::Text, start: 0, end: 1 },
                Inline { kind: InlineKind::Italic, start: 1, end: 2 },
            ]],
        },
        Block { kind: BlockKind::Header, level: 0, start: 0, end: 3, lines: vec![] },
    ];
    match render(&blocks, "abc") {
        Err(MarkdownError::InvalidStructure { rule, actual, .. }) => {
            assert_eq!(rule, "italic");
            assert_eq!(actual, "span 1..2 in a source of 3 characters");
        }
        _ => panic!("expected an invalid structure"),
    }
}

#[test]
fn header_content_is_trimmed() {
    assert_eq!(html("# x \n"), "<h1>x</h1>\n");
    assert_eq!(html("##  Title\u{a0}\t\n"), "<h2>Title</h2>\n");
}

#[test]
fn seven_or_more_hashes_exact_output() {
    assert_eq!(html("######## deep  \n"), "<p>######## deep</p>\n");
}

#[test]
fn decimal_positions_in_structure_errors() {
    let blocks = vec![Block {
        kind: BlockKind::Paragraph,
        level: 0,
        start: 0,
        end: 0,
        lines: vec![vec![Inline { kind: InlineKind::BoldItalic, start: 120, end: 125 }]],
    }];
    match render(&blocks, "") {
        Err(MarkdownError::InvalidStructure { rule, actual, .. }) => {
            assert_eq!(rule, "bold_italic");
            assert_eq!(actual, "span 120..125 in a source of 0 characters");
        }
        _ => panic!("expected an invalid structure"),
    }
}
