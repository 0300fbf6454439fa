//! Converts a small subset of Markdown into HTML: headers, bullet and numbered
//! lists, paragraphs, and bold, italic and bold-italic text.
//!
//! The grammar is stated in [`grammar`], the HTML in [`render`]; the executable
//! parser and renderer are proved to follow them.
pub mod grammar;
pub mod laws;
pub mod parser;
pub mod render;
pub mod rules;
pub mod structure;
pub mod text;

use crate::grammar::{blocks_view, document, Block};
use crate::parser::parse_blocks;
use crate::rules::{match_rule, rule_match};
use crate::render::{doc_html, lemma_blocks_ok, render_blocks};
use crate::structure::{blocks_fault, check_structure, fault_error};
use crate::text::{chars_of, string_of};
use vstd::prelude::*;

verus! {

/// The rules of the grammar, as named in diagnostics.
#[derive(Clone, Copy, Debug, PartialEq, Eq)]
pub enum Rule {
    Document,
    Block,
    Header,
    HeaderStart,
    UnorderedList,
    OrderedList,
    UnorderedListPoint,
    OrderedListPoint,
    ListStart,
    ListPoint,
    Unordered,
    Ordered,
    Paragraph,
    ParagraphLine,
    LineContent,
    BoldItalic,
    Bold,
    Italic,
    Char,
    Digit,
}

/// Why a conversion failed.
#[derive(Clone, Debug)]
pub enum MarkdownError {
    /// The text does not follow the grammar: the 1-based line and column where it
    /// stops doing so, and the rules that were tried there.
    ParseError { line: usize, column: usize, attempted: Vec<Rule> },
    /// A tree handed to the renderer breaks its shape: the rule at fault, what it
    /// should hold and what it holds.
    InvalidStructure { rule: String, expected: String, actual: String },
}

/// The 1-based line of position `p` of `s`.
pub open spec fn line_of(s: Seq<char>, p: int) -> int
    decreases p,
{
    if p <= 0 {
        1
    } else {
        line_of(s, p - 1) + if s[p - 1] == '\n' {
            1int
        } else {
            0int
        }
    }
}

/// The 1-based column of position `p` of `s`.
pub open spec fn column_of(s: Seq<char>, p: int) -> int
    decreases p,
{
    if p <= 0 {
        1
    } else if s[p - 1] == '\n' {
        1
    } else {
        column_of(s, p - 1) + 1
    }
}

/// The 1-based line and column of position `p` of `s`.
#[verifier::loop_isolation(false)]
pub fn line_col(s: &Vec<char>, p: usize) -> (r: (usize, usize))
    requires
        p < s.len(),
    ensures
        r.0 as int == line_of(s@, p as int),
        r.1 as int == column_of(s@, p as int),
{
    let mut line: usize = 1;
    let mut col: usize = 1;
    let mut k: usize = 0;
    while k < p
        invariant
            k <= p < s@.len(),
            line as int == line_of(s@, k as int) <= k + 1,
            col as int == column_of(s@, k as int) <= k + 1,
        decreases p - k,
    {
        if s[k] == '\n' {
            line = line + 1;
            col = 1;
        } else {
            col = col + 1;
        }
        k = k + 1;
    }
    (line, col)
}

/// `r` is the parse error at position `p` of `s`.
pub open spec fn is_parse_error_at(r: MarkdownError, s: Seq<char>, p: int) -> bool {
    match r {
        MarkdownError::ParseError { line, column, attempted } => line == line_of(s, p) && column
            == column_of(s, p) && attempted@ == seq![Rule::BoldItalic, Rule::Bold],
        _ => false,
    }
}

fn parse_error(s: &Vec<char>, p: usize) -> (r: MarkdownError)
    requires
        p < s@.len(),
    ensures
        is_parse_error_at(r, s@, p as int),
{
    let (line, column) = line_col(s, p);
    let mut attempted: Vec<Rule> = Vec::new();
    attempted.push(Rule::BoldItalic);
    attempted.push(Rule::Bold);
    assert(attempted@ =~= seq![Rule::BoldItalic, Rule::Bold]);
    MarkdownError::ParseError { line, column, attempted }
}

/// The parser of the Markdown subset.
pub struct MarkdownParser;

impl MarkdownParser {
    /// The blocks of `markdown`, or a parse error at the first unclosed `**`.
    pub fn parse(markdown: &str) -> (r: Result<Vec<Block>, MarkdownError>)
        ensures
            match document(markdown@) {
                Ok(bs) => r is Ok && blocks_view(r->Ok_0@) == bs,
                Err(p) => r is Err && is_parse_error_at(r->Err_0, markdown@, p),
            },
    {
        let s = chars_of(markdown);
        match parse_blocks(&s) {
            Ok(bs) => Ok(bs),
            Err(p) => {
                Err(parse_error(&s, p))
            },
        }
    }

    /// The text that `rule` matches at the start of `input`: a parse error at line 1,
    /// column 1 naming `rule` when it does not match there, and the parse error at an
    /// unclosed `**` when one stops it.
    pub fn parse_rule(rule: Rule, input: &str) -> (r: Result<String, MarkdownError>)
        ensures
            match rule_match(rule, input@) {
                Ok(Some(e)) => r is Ok && r->Ok_0@ == input@.subrange(0, e),
                Ok(None) => r is Err && r->Err_0 == (MarkdownError::ParseError {
                    line: 1,
                    column: 1,
                    attempted: r->Err_0->attempted,
                }) && r->Err_0->attempted@ == seq![rule],
                Err(p) => r is Err && is_parse_error_at(r->Err_0, input@, p),
            },
    {
        let s = chars_of(input);
        match match_rule(rule, &s) {
            Ok(Some(e)) => {
                let mut t: Vec<char> = Vec::new();
                let mut k: usize = 0;
                while k < e
                    invariant
                        k <= e <= s@.len(),
                        t@ == s@.subrange(0, k as int),
                    decreases e - k,
                {
                    t.push(s[k]);
                    k = k + 1;
                    assert(t@ =~= s@.subrange(0, k as int));
                }
                Ok(string_of(t))
            },
            Ok(None) => {
                let mut attempted: Vec<Rule> = Vec::new();
                attempted.push(rule);
                assert(attempted@ =~= seq![rule]);
                Err(MarkdownError::ParseError { line: 1, column: 1, attempted })
            },
            Err(p) => Err(parse_error(&s, p)),
        }
    }
}

/// The HTML of `blocks`, whose spans point into `markdown`; when the blocks break the
/// shape the renderer needs, the `InvalidStructure` error of the first fault in
/// document order.
pub fn render(blocks: &Vec<Block>, markdown: &str) -> (r: Result<String, MarkdownError>)
    ensures
        match blocks_fault(blocks_view(blocks@), markdown@.len() as int, 0) {
            None => r is Ok && r->Ok_0@ == doc_html(markdown@, blocks_view(blocks@)),
            Some(f) => r is Err && fault_error(r->Err_0, f),
        },
{
    let s = chars_of(markdown);
    match check_structure(blocks, s.len()) {
        Err(e) => Err(e),
        Ok(()) => Ok(string_of(render_blocks(&s, blocks))),
    }
}

/// The HTML of `markdown`, or the parse error at its first unclosed `**`.
pub fn parse_to_html(markdown: &str) -> (r: Result<String, MarkdownError>)
    ensures
        match document(markdown@) {
            Ok(bs) => r is Ok && r->Ok_0@ == doc_html(markdown@, bs),
            Err(p) => r is Err && is_parse_error_at(r->Err_0, markdown@, p),
        },
{
    let s = chars_of(markdown);
    match parse_blocks(&s) {
        Ok(bs) => {
            proof {
                lemma_blocks_ok(s@, 0);
            }
            Ok(string_of(render_blocks(&s, &bs)))
        },
        Err(p) => {
            Err(parse_error(&s, p))
        },
    }
}

} // verus!
