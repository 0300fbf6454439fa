//! Matching a single grammar rule at the start of a text.
use crate::grammar::{
    delim, digit_end, document, hash_end, line_end, line_items, line_kind, next_line, run_lines,
    sep_end, LineKind, RunKind,
};
use crate::parser::{
    delim_exec, digit_end_exec, hash_end_exec, line_end_exec, line_kind_exec, next_line_exec,
    parse_blocks, parse_line, parse_run, sep_end_exec,
};
use crate::Rule;
use vstd::prelude::*;

verus! {

/// `Ok(Some(e))` when the rule matches `s[..e]` at the start of `s` after the items
/// of a line; the line's own result otherwise.
pub open spec fn after_line(s: Seq<char>, c: int, e: int) -> Result<Option<int>, int> {
    match line_items(s, c) {
        Ok(_) => Ok(Some(e)),
        Err(p) => Err(p),
    }
}

pub open spec fn after_run(s: Seq<char>, k: RunKind) -> Result<Option<int>, int> {
    match run_lines(s, 0, k) {
        Ok((_, e)) => Ok(Some(e)),
        Err(p) => Err(p),
    }
}

pub open spec fn unordered_end(s: Seq<char>) -> Option<int> {
    if s.len() > 0 && (s[0] == '-' || s[0] == '*') && sep_end(s, 1) > 1 {
        Some(sep_end(s, 1))
    } else {
        None
    }
}

pub open spec fn ordered_end(s: Seq<char>) -> Option<int> {
    let d = digit_end(s, 0);
    if d > 0 && d < s.len() && s[d] == '.' && sep_end(s, d + 1) > d + 1 {
        Some(sep_end(s, d + 1))
    } else {
        None
    }
}

/// What rule `r` matches at the start of `s`: `Ok(Some(e))` when it matches `s[..e]`,
/// `Ok(None)` when it does not match, `Err(p)` at an unclosed `**` at `p`.
pub open spec fn rule_match(r: Rule, s: Seq<char>) -> Result<Option<int>, int> {
    let kind = if s.len() > 0 {
        line_kind(s, 0)
    } else {
        LineKind::Blank
    };
    match r {
        Rule::Digit => Ok(
            if s.len() > 0 && '0' <= s[0] && s[0] <= '9' {
                Some(1)
            } else {
                None
            },
        ),
        Rule::Char => Ok(
            if s.len() > 0 && s[0] != '\n' {
                Some(1)
            } else {
                None
            },
        ),
        Rule::BoldItalic => Ok(delim(s, 0, 3)),
        Rule::Bold => Ok(delim(s, 0, 2)),
        Rule::Italic => Ok(delim(s, 0, 1)),
        Rule::HeaderStart => {
            let h = hash_end(s, 0);
            Ok(
                if 1 <= h <= 6 && sep_end(s, h) > h {
                    Some(sep_end(s, h))
                } else {
                    None
                },
            )
        },
        Rule::Unordered => Ok(unordered_end(s)),
        Rule::Ordered => Ok(ordered_end(s)),
        Rule::ListStart => Ok(
            if unordered_end(s) is Some {
                unordered_end(s)
            } else {
                ordered_end(s)
            },
        ),
        Rule::LineContent => if s.len() > 0 && s[0] != '\n' {
            after_line(s, 0, line_end(s, 0))
        } else {
            Ok(None)
        },
        Rule::ParagraphLine => match kind {
            LineKind::Text => after_line(s, 0, next_line(s, 0)),
            _ => Ok(None),
        },
        Rule::Header => match kind {
            LineKind::Header { content, .. } => after_line(s, content as int, next_line(s, 0)),
            _ => Ok(None),
        },
        Rule::UnorderedListPoint => match kind {
            LineKind::Bullet { content } => after_line(s, content as int, next_line(s, 0)),
            _ => Ok(None),
        },
        Rule::OrderedListPoint => match kind {
            LineKind::Numbered { content } => after_line(s, content as int, next_line(s, 0)),
            _ => Ok(None),
        },
        Rule::ListPoint => match kind {
            LineKind::Bullet { content } => after_line(s, content as int, next_line(s, 0)),
            LineKind::Numbered { content } => after_line(s, content as int, next_line(s, 0)),
            _ => Ok(None),
        },
        Rule::UnorderedList => match kind {
            LineKind::Bullet { .. } => after_run(s, RunKind::Bullet),
            _ => Ok(None),
        },
        Rule::OrderedList => match kind {
            LineKind::Numbered { .. } => after_run(s, RunKind::Numbered),
            _ => Ok(None),
        },
        Rule::Paragraph => match kind {
            LineKind::Text => after_run(s, RunKind::Plain),
            _ => Ok(None),
        },
        Rule::Block => match kind {
            LineKind::Blank => Ok(None),
            LineKind::Header { content, .. } => after_line(s, content as int, next_line(s, 0)),
            LineKind::Bullet { .. } => after_run(s, RunKind::Bullet),
            LineKind::Numbered { .. } => after_run(s, RunKind::Numbered),
            LineKind::Text => after_run(s, RunKind::Plain),
        },
        Rule::Document => match document(s) {
            Ok(_) => Ok(Some(s.len() as int)),
            Err(p) => Err(p),
        },
    }
}

pub open spec fn lift_match(r: Result<Option<usize>, usize>) -> Result<Option<int>, int> {
    match r {
        Ok(Some(e)) => Ok(Some(e as int)),
        Ok(None) => Ok(None),
        Err(p) => Err(p as int),
    }
}

fn line_then(s: &Vec<char>, c: usize, e: usize) -> (r: Result<Option<usize>, usize>)
    requires
        c <= s@.len(),
        e <= s@.len(),
    ensures
        lift_match(r) == after_line(s@, c as int, e as int),
        r matches Ok(Some(x)) ==> x <= s@.len(),
        r matches Err(p) ==> p < s@.len(),
{
    match parse_line(s, c) {
        Ok(_) => Ok(Some(e)),
        Err(p) => Err(p),
    }
}

fn run_then(s: &Vec<char>, k: RunKind) -> (r: Result<Option<usize>, usize>)
    ensures
        lift_match(r) == after_run(s@, k),
        r matches Ok(Some(x)) ==> x <= s@.len(),
        r matches Err(p) ==> p < s@.len(),
{
    match parse_run(s, 0, k) {
        Ok((_, e)) => Ok(Some(e)),
        Err(p) => Err(p),
    }
}

fn unordered_exec(s: &Vec<char>) -> (r: Option<usize>)
    ensures
        match r {
            Some(e) => unordered_end(s@) == Some(e as int) && e <= s@.len(),
            None => unordered_end(s@) is None,
        },
{
    if s.len() > 0 && (s[0] == '-' || s[0] == '*') {
        let b = sep_end_exec(s, 1);
        if b > 1 {
            return Some(b);
        }
    }
    None
}

fn ordered_exec(s: &Vec<char>) -> (r: Option<usize>)
    ensures
        match r {
            Some(e) => ordered_end(s@) == Some(e as int) && e <= s@.len(),
            None => ordered_end(s@) is None,
        },
{
    let d = digit_end_exec(s, 0);
    if d > 0 && d < s.len() && s[d] == '.' {
        let b = sep_end_exec(s, d + 1);
        if b > d + 1 {
            return Some(b);
        }
    }
    None
}

fn opt(r: Option<usize>) -> (o: Result<Option<usize>, usize>)
    ensures
        o == Ok::<Option<usize>, usize>(r),
{
    Ok(r)
}

/// What `rule` matches at the start of `s`.
pub fn match_rule(rule: Rule, s: &Vec<char>) -> (r: Result<Option<usize>, usize>)
    ensures
        lift_match(r) == rule_match(rule, s@),
        r matches Ok(Some(x)) ==> x <= s@.len(),
        r matches Err(p) ==> p < s@.len(),
{
    let kind = if s.len() > 0 {
        line_kind_exec(s, 0)
    } else {
        LineKind::Blank
    };
    match rule {
        Rule::Digit => opt(
            if s.len() > 0 && '0' <= s[0] && s[0] <= '9' {
                Some(1)
            } else {
                None
            },
        ),
        Rule::Char => opt(
            if s.len() > 0 && s[0] != '\n' {
                Some(1)
            } else {
                None
            },
        ),
        Rule::BoldItalic => opt(delim_exec(s, 0, 3)),
        Rule::Bold => opt(delim_exec(s, 0, 2)),
        Rule::Italic => opt(delim_exec(s, 0, 1)),
        Rule::HeaderStart => {
            let h = hash_end_exec(s, 0);
            let e = sep_end_exec(s, h);
            opt(
                if 1 <= h && h <= 6 && e > h {
                    Some(e)
                } else {
                    None
                },
            )
        },
        Rule::Unordered => opt(unordered_exec(s)),
        Rule::Ordered => opt(ordered_exec(s)),
        Rule::ListStart => {
            let u = unordered_exec(s);
            if u.is_some() {
                opt(u)
            } else {
                opt(ordered_exec(s))
            }
        },
        Rule::LineContent => if s.len() > 0 && s[0] != '\n' {
            let e = line_end_exec(s, 0);
            line_then(s, 0, e)
        } else {
            opt(None)
        },
        Rule::ParagraphLine => match kind {
            LineKind::Text => line_then(s, 0, next_line_exec(s, 0)),
            _ => opt(None),
        },
        Rule::Header => match kind {
            LineKind::Header { content, .. } => line_then(s, content, next_line_exec(s, 0)),
            _ => opt(None),
        },
        Rule::UnorderedListPoint => match kind {
            LineKind::Bullet { content } => line_then(s, content, next_line_exec(s, 0)),
            _ => opt(None),
        },
        Rule::OrderedListPoint => match kind {
            LineKind::Numbered { content } => line_then(s, content, next_line_exec(s, 0)),
            _ => opt(None),
        },
        Rule::ListPoint => match kind {
            LineKind::Bullet { content } => line_then(s, content, next_line_exec(s, 0)),
            LineKind::Numbered { content } => line_then(s, content, next_line_exec(s, 0)),
            _ => opt(None),
        },
        Rule::UnorderedList => match kind {
            LineKind::Bullet { .. } => run_then(s, RunKind::Bullet),
            _ => opt(None),
        },
        Rule::OrderedList => match kind {
            LineKind::Numbered { .. } => run_then(s, RunKind::Numbered),
            _ => opt(None),
        },
        Rule::Paragraph => match kind {
            LineKind::Text => run_then(s, RunKind::Plain),
            _ => opt(None),
        },
        Rule::Block => match kind {
            LineKind::Blank => opt(None),
            LineKind::Header { content, .. } => line_then(s, content, next_line_exec(s, 0)),
            LineKind::Bullet { .. } => run_then(s, RunKind::Bullet),
            LineKind::Numbered { .. } => run_then(s, RunKind::Numbered),
            LineKind::Text => run_then(s, RunKind::Plain),
        },
        Rule::Document => match parse_blocks(s) {
            Ok(_) => Ok(Some(s.len())),
            Err(p) => Err(p),
        },
    }
}

} // verus!
