//! The grammar of the supported Markdown subset, stated as spec functions
//! over the input's characters, and the parser proved to follow it.
//!
//! Positions are character offsets into the input.
use vstd::prelude::*;

verus! {

/// What an inline element is.
#[derive(Clone, Copy, Debug, PartialEq, Eq)]
pub enum InlineKind {
    /// One literal character.
    Text,
    /// `**...**`
    Bold,
    /// `*...*`
    Italic,
    /// `***...***`
    BoldItalic,
}

/// An inline element of a line and the span `start..end` of the source it matched,
/// markers included.
#[derive(Clone, Copy, Debug, PartialEq, Eq)]
pub struct Inline {
    pub kind: InlineKind,
    pub start: usize,
    pub end: usize,
}

// ----------------------------------------------------------------------------
// Lexical rules
// ----------------------------------------------------------------------------

pub open spec fn star_at(s: Seq<char>, i: int) -> bool {
    0 <= i < s.len() && s[i] == '*'
}

/// `m` asterisks (1 to 3) start at `i`.
pub open spec fn stars(s: Seq<char>, i: int, m: int) -> bool {
    &&& star_at(s, i)
    &&& (m >= 2 ==> star_at(s, i + 1))
    &&& (m >= 3 ==> star_at(s, i + 2))
}

/// The first position at or after `j` where the line ends or a marker of `m` asterisks starts.
pub open spec fn scan(s: Seq<char>, j: int, m: int) -> int
    decreases s.len() - j,
{
    if j < 0 || j >= s.len() || s[j] == '\n' || stars(s, j, m) {
        j
    } else {
        scan(s, j + 1, m)
    }
}

/// A span delimited by markers of `m` asterisks, with at least one character
/// between them and no line break: its end.
pub open spec fn delim(s: Seq<char>, i: int, m: int) -> Option<int> {
    if stars(s, i, m) {
        let j = scan(s, i + m, m);
        if j > i + m && stars(s, j, m) {
            Some(j + m)
        } else {
            None
        }
    } else {
        None
    }
}

/// A marker of exactly two asterisks (the run of `*` it belongs to is two long) starts at `i`.
pub open spec fn double_marker(s: Seq<char>, i: int) -> bool {
    stars(s, i, 2) && !star_at(s, i + 2) && !star_at(s, i - 1)
}

/// The inline element that starts at `i`, or the position of an unclosed `**`.
/// Triple markers are tried first, then double, then single; failing all, one literal
/// character is taken.
pub open spec fn inline_at(s: Seq<char>, i: int) -> Result<Inline, int> {
    if let Some(e) = delim(s, i, 3) {
        Ok(Inline { kind: InlineKind::BoldItalic, start: i as usize, end: e as usize })
    } else if let Some(e) = delim(s, i, 2) {
        Ok(Inline { kind: InlineKind::Bold, start: i as usize, end: e as usize })
    } else if double_marker(s, i) {
        Err(i)
    } else if let Some(e) = delim(s, i, 1) {
        Ok(Inline { kind: InlineKind::Italic, start: i as usize, end: e as usize })
    } else {
        Ok(Inline { kind: InlineKind::Text, start: i as usize, end: (i + 1) as usize })
    }
}

pub open spec fn prepend<T>(x: T, r: Result<Seq<T>, int>) -> Result<Seq<T>, int> {
    match r {
        Ok(rest) => Ok(seq![x] + rest),
        Err(p) => Err(p),
    }
}

/// The inline elements from `i` to the end of the line, or the position of an unclosed `**`.
pub open spec fn line_items(s: Seq<char>, i: int) -> Result<Seq<Inline>, int>
    decreases s.len() - i,
{
    if i < 0 || i >= s.len() || s[i] == '\n' {
        Ok(Seq::empty())
    } else {
        match inline_at(s, i) {
            Err(p) => Err(p),
            Ok(it) => if it.end <= i {
                Ok(Seq::empty())
            } else {
                prepend(it, line_items(s, it.end as int))
            },
        }
    }
}

// ----------------------------------------------------------------------------
// Block rules
// ----------------------------------------------------------------------------

/// The first position at or after `i` where the line ends.
pub open spec fn line_end(s: Seq<char>, i: int) -> int
    decreases s.len() - i,
{
    if i < 0 || i >= s.len() || s[i] == '\n' {
        i
    } else {
        line_end(s, i + 1)
    }
}

/// Where the line after the one that holds `i` starts.
pub open spec fn next_line(s: Seq<char>, i: int) -> int {
    let e = line_end(s, i);
    if e < s.len() {
        e + 1
    } else {
        e
    }
}

pub open spec fn is_sep(c: char) -> bool {
    c == ' ' || c == '\t'
}

/// The first position at or after `i` that is not a space or a tab.
pub open spec fn sep_end(s: Seq<char>, i: int) -> int
    decreases s.len() - i,
{
    if 0 <= i < s.len() && is_sep(s[i]) {
        sep_end(s, i + 1)
    } else {
        i
    }
}

/// The first position at or after `i` that is not a `#`.
pub open spec fn hash_end(s: Seq<char>, i: int) -> int
    decreases s.len() - i,
{
    if 0 <= i < s.len() && s[i] == '#' {
        hash_end(s, i + 1)
    } else {
        i
    }
}

/// The first position at or after `i` that is not an ASCII digit.
pub open spec fn digit_end(s: Seq<char>, i: int) -> int
    decreases s.len() - i,
{
    if 0 <= i < s.len() && '0' <= s[i] && s[i] <= '9' {
        digit_end(s, i + 1)
    } else {
        i
    }
}

/// How a line is read, with where its content starts.
#[derive(Clone, Copy, Debug, PartialEq, Eq)]
pub enum LineKind {
    Blank,
    Header { level: usize, content: usize },
    Bullet { content: usize },
    Numbered { content: usize },
    Text,
}

/// The kind of the line that starts at `i`: blank, else a header (1 to 6 `#`, then
/// spaces or tabs, then content), else a list point (`-` or `*`, or digits and `.`,
/// then spaces or tabs, then content), else a paragraph line.
pub open spec fn line_kind(s: Seq<char>, i: int) -> LineKind {
    let le = line_end(s, i);
    let h = hash_end(s, i);
    let hc = sep_end(s, h);
    let bc = sep_end(s, i + 1);
    let d = digit_end(s, i);
    let dc = sep_end(s, d + 1);
    if sep_end(s, i) == le {
        LineKind::Blank
    } else if 1 <= h - i <= 6 && hc > h && hc < le {
        LineKind::Header { level: (h - i) as usize, content: hc as usize }
    } else if (s[i] == '-' || s[i] == '*') && bc > i + 1 && bc < le {
        LineKind::Bullet { content: bc as usize }
    } else if d > i && d < s.len() && s[d] == '.' && dc > d + 1 && dc < le {
        LineKind::Numbered { content: dc as usize }
    } else {
        LineKind::Text
    }
}

/// The kinds of block that gather consecutive lines.
#[derive(Clone, Copy, Debug, PartialEq, Eq)]
pub enum RunKind {
    Bullet,
    Numbered,
    Plain,
}

/// Where the content of the line at `i` starts, if that line continues a run of kind `k`.
pub open spec fn run_content(s: Seq<char>, i: int, k: RunKind) -> Option<int> {
    if 0 <= i < s.len() {
        match (line_kind(s, i), k) {
            (LineKind::Bullet { content }, RunKind::Bullet) => Some(content as int),
            (LineKind::Numbered { content }, RunKind::Numbered) => Some(content as int),
            (LineKind::Text, RunKind::Plain) => Some(i),
            _ => None,
        }
    } else {
        None
    }
}

/// The lines of the run of kind `k` that starts at `i`, each as its inline elements,
/// and where the run ends; or the position of an unclosed `**`.
pub open spec fn run_lines(s: Seq<char>, i: int, k: RunKind) -> Result<(Seq<Seq<Inline>>, int), int>
    decreases s.len() - i,
{
    match run_content(s, i, k) {
        None => Ok((Seq::empty(), i)),
        Some(c) => match line_items(s, c) {
            Err(p) => Err(p),
            Ok(items) => if !(i < next_line(s, i) <= s.len()) {
                Ok((Seq::empty(), i))
            } else {
                match run_lines(s, next_line(s, i), k) {
                    Ok((rest, e)) => Ok((seq![items] + rest, e)),
                    Err(p) => Err(p),
                }
            },
        },
    }
}

/// What a block is.
#[derive(Clone, Copy, Debug, PartialEq, Eq)]
pub enum BlockKind {
    Header,
    UnorderedList,
    OrderedList,
    Paragraph,
}

/// A block of the document: a header (one line, with its level), a list (one line per
/// point) or a paragraph (one entry per line), and the span `start..end` of the source
/// lines it was read from.
pub struct Block {
    pub kind: BlockKind,
    pub level: usize,
    pub start: usize,
    pub end: usize,
    pub lines: Vec<Vec<Inline>>,
}

/// The mathematical value of a [`Block`].
pub struct BlockView {
    pub kind: BlockKind,
    pub level: usize,
    pub start: usize,
    pub end: usize,
    pub lines: Seq<Seq<Inline>>,
}

pub open spec fn lines_view(v: Seq<Vec<Inline>>) -> Seq<Seq<Inline>> {
    v.map_values(|l: Vec<Inline>| l@)
}

impl View for Block {
    type V = BlockView;

    open spec fn view(&self) -> BlockView {
        BlockView {
            kind: self.kind,
            level: self.level,
            start: self.start,
            end: self.end,
            lines: lines_view(self.lines@),
        }
    }
}

pub open spec fn blocks_view(v: Seq<Block>) -> Seq<BlockView> {
    v.map_values(|b: Block| b@)
}

pub open spec fn block_of_run(k: RunKind, start: int, end: int, lines: Seq<Seq<Inline>>) -> BlockView {
    BlockView {
        kind: match k {
            RunKind::Bullet => BlockKind::UnorderedList,
            RunKind::Numbered => BlockKind::OrderedList,
            RunKind::Plain => BlockKind::Paragraph,
        },
        level: 0,
        start: start as usize,
        end: end as usize,
        lines,
    }
}

pub open spec fn run_of(kind: LineKind) -> RunKind {
    match kind {
        LineKind::Bullet { .. } => RunKind::Bullet,
        LineKind::Numbered { .. } => RunKind::Numbered,
        _ => RunKind::Plain,
    }
}

/// The blocks of the document from the line that starts at `i` on, or the position of
/// an unclosed `**`. Blank lines separate blocks and belong to none.
pub open spec fn blocks(s: Seq<char>, i: int) -> Result<Seq<BlockView>, int>
    decreases s.len() - i,
{
    if i < 0 || i >= s.len() {
        Ok(Seq::empty())
    } else if !(i < next_line(s, i) <= s.len()) {
        Ok(Seq::empty())
    } else {
        match line_kind(s, i) {
            LineKind::Blank => blocks(s, next_line(s, i)),
            LineKind::Header { level, content } => match line_items(s, content as int) {
                Err(p) => Err(p),
                Ok(items) => prepend(
                    BlockView {
                        kind: BlockKind::Header,
                        level,
                        start: i as usize,
                        end: next_line(s, i) as usize,
                        lines: seq![items],
                    },
                    blocks(s, next_line(s, i)),
                ),
            },
            kind => match run_lines(s, i, run_of(kind)) {
                Err(p) => Err(p),
                Ok((lines, e)) => if !(i < e <= s.len()) {
                    Ok(Seq::empty())
                } else {
                    prepend(block_of_run(run_of(kind), i, e, lines), blocks(s, e))
                },
            },
        }
    }
}

/// The blocks of the whole document, or the position of an unclosed `**`.
pub open spec fn document(s: Seq<char>) -> Result<Seq<BlockView>, int> {
    blocks(s, 0)
}

} // verus!

verus! {

pub open spec fn prepend_all<T>(a: Seq<T>, r: Result<Seq<T>, int>) -> Result<Seq<T>, int> {
    match r {
        Ok(rest) => Ok(a + rest),
        Err(p) => Err(p),
    }
}

pub open spec fn prepend_run(
    a: Seq<Seq<Inline>>,
    r: Result<(Seq<Seq<Inline>>, int), int>,
) -> Result<(Seq<Seq<Inline>>, int), int> {
    match r {
        Ok((rest, e)) => Ok((a + rest, e)),
        Err(p) => Err(p),
    }
}

pub proof fn lemma_prepend_all<T>(a: Seq<T>, x: T, r: Result<Seq<T>, int>)
    ensures
        prepend_all(a, prepend(x, r)) == prepend_all(a.push(x), r),
{
    if let Ok(rest) = r {
        assert(a + (seq![x] + rest) =~= a.push(x) + rest);
    }
}

pub proof fn lemma_prepend_none<T>(r: Result<Seq<T>, int>)
    ensures
        prepend_all(Seq::<T>::empty(), r) == r,
{
    if let Ok(rest) = r {
        assert(Seq::<T>::empty() + rest =~= rest);
    }
}

} // verus!
