//! The renderer: HTML for each block and inline element, stated as spec functions,
//! and the executable renderer proved to produce it.
use crate::grammar::{
    block_of_run, blocks, blocks_view, inline_at, line_items, line_kind, lines_view, next_line, run_content,
    run_lines, run_of, Block, BlockKind, BlockView, Inline, InlineKind, LineKind, RunKind,
};
use crate::text::{push_str, push_all, trim, trim_chars};
use vstd::prelude::*;

verus! {

/// How many asterisks mark each side of an inline element.
pub open spec fn marker_len(k: InlineKind) -> int {
    match k {
        InlineKind::Text => 0,
        InlineKind::Italic => 1,
        InlineKind::Bold => 2,
        InlineKind::BoldItalic => 3,
    }
}

/// The element's span lies in a source of length `n` and holds its two markers.
pub open spec fn inline_ok(it: Inline, n: int) -> bool {
    it.start < it.end <= n && it.start + 2 * marker_len(it.kind) <= it.end
}

pub open spec fn items_ok(items: Seq<Inline>, n: int) -> bool {
    forall|k: int| 0 <= k < items.len() ==> inline_ok(#[trigger] items[k], n)
}

pub open spec fn lines_ok(lines: Seq<Seq<Inline>>, n: int) -> bool {
    forall|k: int| 0 <= k < lines.len() ==> items_ok(#[trigger] lines[k], n)
}

/// A block the renderer accepts: a header has one line and a level from 1 to 6.
pub open spec fn block_ok(b: BlockView, n: int) -> bool {
    &&& lines_ok(b.lines, n)
    &&& (b.kind == BlockKind::Header ==> b.lines.len() == 1 && 1 <= b.level <= 6)
}

pub open spec fn blocks_ok(bs: Seq<BlockView>, n: int) -> bool {
    forall|k: int| 0 <= k < bs.len() ==> block_ok(#[trigger] bs[k], n)
}

/// The text between the markers of an element.
pub open spec fn inner(s: Seq<char>, it: Inline) -> Seq<char> {
    s.subrange(it.start + marker_len(it.kind), it.end - marker_len(it.kind))
}

/// The HTML of one inline element: its source text, or its inner text in tags.
pub open spec fn inline_html(s: Seq<char>, it: Inline) -> Seq<char> {
    match it.kind {
        InlineKind::Text => s.subrange(it.start as int, it.end as int),
        InlineKind::Bold => "<strong>"@ + inner(s, it) + "</strong>"@,
        InlineKind::Italic => "<em>"@ + inner(s, it) + "</em>"@,
        InlineKind::BoldItalic => "<strong><em>"@ + inner(s, it) + "</em></strong>"@,
    }
}

/// The HTML of a line: its elements' HTML, concatenated.
pub open spec fn line_html(s: Seq<char>, items: Seq<Inline>) -> Seq<char>
    decreases items.len(),
{
    if items.len() == 0 {
        Seq::empty()
    } else {
        line_html(s, items.drop_last()) + inline_html(s, items.last())
    }
}

/// The list points, each trimmed and wrapped in `<li>`.
pub open spec fn points_html(s: Seq<char>, lines: Seq<Seq<Inline>>) -> Seq<char>
    decreases lines.len(),
{
    if lines.len() == 0 {
        Seq::empty()
    } else {
        points_html(s, lines.drop_last()) + "<li>"@ + trim(line_html(s, lines.last())) + "</li>\n"@
    }
}

/// The lines of a paragraph, each followed by a line break.
pub open spec fn para_text(s: Seq<char>, lines: Seq<Seq<Inline>>) -> Seq<char>
    decreases lines.len(),
{
    if lines.len() == 0 {
        Seq::empty()
    } else {
        para_text(s, lines.drop_last()) + line_html(s, lines.last()) + "\n"@
    }
}

pub open spec fn digit_char(n: usize) -> char {
    if n == 1 {
        '1'
    } else if n == 2 {
        '2'
    } else if n == 3 {
        '3'
    } else if n == 4 {
        '4'
    } else if n == 5 {
        '5'
    } else {
        '6'
    }
}

/// The HTML of a block.
pub open spec fn block_html(s: Seq<char>, b: BlockView) -> Seq<char> {
    match b.kind {
        BlockKind::Header => "<h"@ + seq![digit_char(b.level)] + ">"@ + trim(line_html(s, b.lines[0]))
            + "</h"@ + seq![digit_char(b.level)] + ">\n"@,
        BlockKind::UnorderedList => "<ul>\n"@ + trim(points_html(s, b.lines)) + "\n</ul>\n"@,
        BlockKind::OrderedList => "<ol>\n"@ + trim(points_html(s, b.lines)) + "\n</ol>\n"@,
        BlockKind::Paragraph => "<p>"@ + trim(para_text(s, b.lines)) + "</p>\n"@,
    }
}

/// The HTML of a document: its blocks' HTML, concatenated.
pub open spec fn doc_html(s: Seq<char>, bs: Seq<BlockView>) -> Seq<char>
    decreases bs.len(),
{
    if bs.len() == 0 {
        Seq::empty()
    } else {
        doc_html(s, bs.drop_last()) + block_html(s, bs.last())
    }
}

/// Appends `s[a..b]` to `out`.
fn push_range(out: &mut Vec<char>, s: &Vec<char>, a: usize, b: usize)
    requires
        a <= b <= s@.len(),
    ensures
        final(out)@ == old(out)@ + s@.subrange(a as int, b as int),
{
    let mut k = a;
    while k < b
        invariant
            a <= k <= b <= s@.len(),
            out@ == old(out)@ + s@.subrange(a as int, k as int),
        decreases b - k,
    {
        out.push(s[k]);
        k = k + 1;
        assert(out@ =~= old(out)@ + s@.subrange(a as int, k as int));
    }
}

fn push_inline(out: &mut Vec<char>, s: &Vec<char>, it: Inline)
    requires
        inline_ok(it, s@.len() as int),
    ensures
        final(out)@ == old(out)@ + inline_html(s@, it),
{
    let ghost o = out@;
    match it.kind {
        InlineKind::Text => {
            push_range(out, s, it.start, it.end);
        },
        InlineKind::Bold => {
            push_str(out, "<strong>");
            push_range(out, s, it.start + 2, it.end - 2);
            push_str(out, "</strong>");
        },
        InlineKind::Italic => {
            push_str(out, "<em>");
            push_range(out, s, it.start + 1, it.end - 1);
            push_str(out, "</em>");
        },
        InlineKind::BoldItalic => {
            push_str(out, "<strong><em>");
            push_range(out, s, it.start + 3, it.end - 3);
            push_str(out, "</em></strong>");
        },
    }
    assert(out@ =~= o + inline_html(s@, it));
}

fn line_html_exec(s: &Vec<char>, items: &Vec<Inline>) -> (r: Vec<char>)
    requires
        items_ok(items@, s@.len() as int),
    ensures
        r@ == line_html(s@, items@),
{
    let mut r: Vec<char> = Vec::new();
    let mut k: usize = 0;
    while k < items.len()
        invariant
            k <= items@.len(),
            items_ok(items@, s@.len() as int),
            r@ == line_html(s@, items@.subrange(0, k as int)),
        decreases items@.len() - k,
    {
        push_inline(&mut r, s, items[k]);
        k = k + 1;
        assert(items@.subrange(0, k as int).drop_last() =~= items@.subrange(0, k - 1 as int));
    }
    assert(items@.subrange(0, k as int) =~= items@);
    r
}

fn digit_char_exec(n: usize) -> (c: char)
    ensures
        c == digit_char(n),
{
    if n == 1 {
        '1'
    } else if n == 2 {
        '2'
    } else if n == 3 {
        '3'
    } else if n == 4 {
        '4'
    } else if n == 5 {
        '5'
    } else {
        '6'
    }
}

/// Appends the HTML of `b` to `out`.
fn push_block(out: &mut Vec<char>, s: &Vec<char>, b: &Block)
    requires
        block_ok(b@, s@.len() as int),
    ensures
        final(out)@ == old(out)@ + block_html(s@, b@),
{
    let ghost o = out@;
    let ghost lv = b@.lines;
    assert(forall|k: int| 0 <= k < b.lines@.len() ==> lv[k] == #[trigger] b.lines@[k]@);
    match b.kind {
        BlockKind::Header => {
            let d = digit_char_exec(b.level);
            assert(items_ok(lv[0], s@.len() as int));
            let content = trim_chars(&line_html_exec(s, &b.lines[0]));
            push_str(out, "<h");
            out.push(d);
            push_str(out, ">");
            push_all(out, &content);
            push_str(out, "</h");
            out.push(d);
            push_str(out, ">\n");
            assert(out@ =~= o + block_html(s@, b@));
        },
        BlockKind::Paragraph => {
            let mut text: Vec<char> = Vec::new();
            let mut k: usize = 0;
            while k < b.lines.len()
                invariant
                    k <= b.lines@.len(),
                    lv == lines_view(b.lines@),
                    lines_ok(lv, s@.len() as int),
                    text@ == para_text(s@, lv.subrange(0, k as int)),
                decreases b.lines@.len() - k,
            {
                assert(items_ok(lv[k as int], s@.len() as int));
                let l = line_html_exec(s, &b.lines[k]);
                push_all(&mut text, &l);
                push_str(&mut text, "\n");
                k = k + 1;
                assert(lv.subrange(0, k as int).drop_last() =~= lv.subrange(0, k - 1 as int));
            }
            assert(lv.subrange(0, k as int) =~= lv);
            let t = trim_chars(&text);
            push_str(out, "<p>");
            push_all(out, &t);
            push_str(out, "</p>\n");
            assert(out@ =~= o + block_html(s@, b@));
        },
        _ => {
            let mut items: Vec<char> = Vec::new();
            let mut k: usize = 0;
            while k < b.lines.len()
                invariant
                    k <= b.lines@.len(),
                    lv == lines_view(b.lines@),
                    lines_ok(lv, s@.len() as int),
                    items@ == points_html(s@, lv.subrange(0, k as int)),
                decreases b.lines@.len() - k,
            {
                assert(items_ok(lv[k as int], s@.len() as int));
                let l = line_html_exec(s, &b.lines[k]);
                let t = trim_chars(&l);
                push_str(&mut items, "<li>");
                push_all(&mut items, &t);
                push_str(&mut items, "</li>\n");
                k = k + 1;
                assert(lv.subrange(0, k as int).drop_last() =~= lv.subrange(0, k - 1 as int));
            }
            assert(lv.subrange(0, k as int) =~= lv);
            let t = trim_chars(&items);
            if matches!(b.kind, BlockKind::UnorderedList) {
                push_str(out, "<ul>\n");
                push_all(out, &t);
                push_str(out, "\n</ul>\n");
            } else {
                push_str(out, "<ol>\n");
                push_all(out, &t);
                push_str(out, "\n</ol>\n");
            }
            assert(out@ =~= o + block_html(s@, b@));
        },
    }
}

/// The HTML of the blocks `bs` of the source `s`.
pub fn render_blocks(s: &Vec<char>, bs: &Vec<Block>) -> (r: Vec<char>)
    requires
        blocks_ok(blocks_view(bs@), s@.len() as int),
    ensures
        r@ == doc_html(s@, blocks_view(bs@)),
{
    let ghost v = blocks_view(bs@);
    let mut r: Vec<char> = Vec::new();
    let mut k: usize = 0;
    while k < bs.len()
        invariant
            k <= bs@.len(),
            v == blocks_view(bs@),
            blocks_ok(v, s@.len() as int),
            r@ == doc_html(s@, v.subrange(0, k as int)),
        decreases bs@.len() - k,
    {
        assert(block_ok(v[k as int], s@.len() as int));
        push_block(&mut r, s, &bs[k]);
        k = k + 1;
        assert(v.subrange(0, k as int).drop_last() =~= v.subrange(0, k - 1 as int));
    }
    assert(v.subrange(0, k as int) =~= v);
    r
}

} // verus!

verus! {

proof fn lemma_inline_ok(s: Seq<char>, i: int)
    requires
        0 <= i < s.len() <= usize::MAX,
        inline_at(s, i) is Ok,
    ensures
        inline_ok(inline_at(s, i)->Ok_0, s.len() as int),
        inline_at(s, i)->Ok_0.start == i,
{
}

proof fn lemma_line_items_ok(s: Seq<char>, i: int)
    requires
        0 <= i,
        s.len() <= usize::MAX,
        line_items(s, i) is Ok,
    ensures
        items_ok(line_items(s, i)->Ok_0, s.len() as int),
    decreases s.len() - i,
{
    if i < s.len() && s[i] != '\n' {
        lemma_inline_ok(s, i);
        let it = inline_at(s, i)->Ok_0;
        if it.end > i {
            lemma_line_items_ok(s, it.end as int);
            let rest = line_items(s, it.end as int)->Ok_0;
            assert(line_items(s, i)->Ok_0 == seq![it] + rest);
            assert forall|k: int| 0 <= k < (seq![it] + rest).len() implies inline_ok(
                #[trigger] (seq![it] + rest)[k],
                s.len() as int,
            ) by {
                if k > 0 {
                    assert((seq![it] + rest)[k] == rest[k - 1]);
                }
            }
        }
    }
}

proof fn lemma_run_ok(s: Seq<char>, i: int, k: RunKind)
    requires
        0 <= i,
        s.len() <= usize::MAX,
        run_lines(s, i, k) is Ok,
    ensures
        lines_ok(run_lines(s, i, k)->Ok_0.0, s.len() as int),
        run_lines(s, i, k)->Ok_0.1 <= s.len() || run_lines(s, i, k)->Ok_0.1 == i,
    decreases s.len() - i,
{
    if let Some(c) = run_content(s, i, k) {
        if c >= 0 {
            lemma_line_items_ok(s, c);
        }
        if line_items(s, c) is Ok && i < next_line(s, i) <= s.len() {
            lemma_run_ok(s, next_line(s, i), k);
            let items = line_items(s, c)->Ok_0;
            let rest = run_lines(s, next_line(s, i), k)->Ok_0.0;
            assert forall|j: int| 0 <= j < (seq![items] + rest).len() implies items_ok(
                #[trigger] (seq![items] + rest)[j],
                s.len() as int,
            ) by {
                if j > 0 {
                    assert((seq![items] + rest)[j] == rest[j - 1]);
                }
            }
        }
    }
}


proof fn lemma_prepend_ok(b: BlockView, rest: Seq<BlockView>, n: int)
    requires
        block_ok(b, n),
        blocks_ok(rest, n),
    ensures
        blocks_ok(seq![b] + rest, n),
{
    assert forall|j: int| 0 <= j < (seq![b] + rest).len() implies block_ok(
        #[trigger] (seq![b] + rest)[j],
        n,
    ) by {
        if j > 0 {
            assert((seq![b] + rest)[j] == rest[j - 1]);
        }
    }
}

/// Every block the grammar yields is one the renderer accepts.
pub proof fn lemma_blocks_ok(s: Seq<char>, i: int)
    requires
        0 <= i,
        s.len() <= usize::MAX,
        blocks(s, i) is Ok,
    ensures
        blocks_ok(blocks(s, i)->Ok_0, s.len() as int),
    decreases s.len() - i,
{
    if i < s.len() && i < next_line(s, i) <= s.len() {
        match line_kind(s, i) {
            LineKind::Blank => {
                lemma_blocks_ok(s, next_line(s, i));
            },
            LineKind::Header { level, content } => {
                lemma_line_items_ok(s, content as int);
                lemma_blocks_ok(s, next_line(s, i));
                let items = line_items(s, content as int)->Ok_0;
                let b = BlockView {
                    kind: BlockKind::Header,
                    level,
                    start: i as usize,
                    end: next_line(s, i) as usize,
                    lines: seq![items],
                };
                assert(lines_ok(b.lines, s.len() as int));
                lemma_prepend_ok(b, blocks(s, next_line(s, i))->Ok_0, s.len() as int);
            },
            kind => {
                lemma_run_ok(s, i, run_of(kind));
                let (lines, e) = run_lines(s, i, run_of(kind))->Ok_0;
                if i < e <= s.len() {
                    lemma_blocks_ok(s, e);
                    lemma_prepend_ok(
                        block_of_run(run_of(kind), i, e, lines),
                        blocks(s, e)->Ok_0,
                        s.len() as int,
                    );
                }
            },
        }
    }
}

} // verus!
