//! Properties of the grammar and the renderer, proved over their spec functions.
use crate::grammar::{
    block_of_run, blocks, delim, digit_end, document, double_marker, hash_end, inline_at, is_sep, line_end, line_items,
    line_kind, next_line, run_content, run_lines, scan, sep_end, star_at, stars, BlockKind, BlockView,
    Inline, InlineKind, LineKind, RunKind,
};
use crate::render::{block_html, digit_char, doc_html, inline_html, line_html, para_text, points_html};
use crate::text::{is_ws, lemma_trim_edges, lemma_trim_idempotent, lemma_trim_push_ws, trim};
use vstd::prelude::*;

verus! {

/// No two asterisks in `s[a..b]`.
pub open spec fn at_most_one_star(s: Seq<char>, a: int, b: int) -> bool {
    forall|p: int, q: int|
        #![trigger s[p], s[q]]
        a <= p < q < b && s[p] == '*' ==> s[q] != '*'
}

/// No asterisk and no line break in `s`.
pub open spec fn plain(s: Seq<char>) -> bool {
    forall|k: int| 0 <= k < s.len() ==> #[trigger] s[k] != '*' && s[k] != '\n'
}

proof fn lemma_line_end(s: Seq<char>, i: int)
    requires
        0 <= i <= s.len(),
    ensures
        i <= line_end(s, i) <= s.len(),
        forall|q: int| i <= q < line_end(s, i) ==> #[trigger] s[q] != '\n',
        line_end(s, i) < s.len() ==> s[line_end(s, i)] == '\n',
    decreases s.len() - i,
{
    if i < s.len() && s[i] != '\n' {
        lemma_line_end(s, i + 1);
    }
}

proof fn lemma_line_end_at(s: Seq<char>, i: int, e: int)
    requires
        0 <= i <= e <= s.len(),
        forall|q: int| i <= q < e ==> #[trigger] s[q] != '\n',
        e == s.len() || s[e] == '\n',
    ensures
        line_end(s, i) == e,
    decreases e - i,
{
    if i < e {
        lemma_line_end_at(s, i + 1, e);
    }
}

proof fn lemma_scan_to(s: Seq<char>, j: int, k: int, m: int)
    requires
        0 <= j <= k <= s.len(),
        forall|q: int| j <= q < k ==> #[trigger] s[q] != '*' && s[q] != '\n',
        k == s.len() || s[k] == '\n' || stars(s, k, m),
    ensures
        scan(s, j, m) == k,
    decreases k - j,
{
    if j < k {
        lemma_scan_to(s, j + 1, k, m);
    }
}

proof fn lemma_line_html_cons(s: Seq<char>, x: Inline, rest: Seq<Inline>)
    ensures
        line_html(s, seq![x] + rest) == inline_html(s, x) + line_html(s, rest),
    decreases rest.len(),
{
    if rest.len() == 0 {
        assert(seq![x] + rest =~= seq![x]);
        assert(seq![x].drop_last() =~= Seq::<Inline>::empty());
        assert(Seq::<char>::empty() + inline_html(s, x) =~= inline_html(s, x));
        assert(inline_html(s, x) + Seq::<char>::empty() =~= inline_html(s, x));
        assert(line_html(s, seq![x]) == line_html(s, seq![x].drop_last()) + inline_html(s, x));
    } else {
        assert((seq![x] + rest).last() == rest.last());
        lemma_line_html_cons(s, x, rest.drop_last());
        assert((seq![x] + rest).drop_last() =~= seq![x] + rest.drop_last());
        assert(inline_html(s, x) + line_html(s, rest.drop_last()) + inline_html(s, rest.last())
            =~= inline_html(s, x) + (line_html(s, rest.drop_last()) + inline_html(s, rest.last())));
    }
}

/// A line with at most one asterisk is literal text: it parses, and its HTML is the
/// line itself (a lone `*` and a `#` inside a line are plain characters).
pub proof fn lemma_literal_line(s: Seq<char>, i: int)
    requires
        0 <= i <= s.len() <= usize::MAX,
        at_most_one_star(s, i, line_end(s, i)),
    ensures
        line_items(s, i) is Ok,
        line_html(s, line_items(s, i)->Ok_0) == s.subrange(i, line_end(s, i)),
        forall|k: int|
            0 <= k < line_items(s, i)->Ok_0.len() ==> (#[trigger] line_items(s, i)->Ok_0[k]).kind
                == InlineKind::Text,
    decreases s.len() - i,
{
    lemma_line_end(s, i);
    let e = line_end(s, i);
    if i >= s.len() || s[i] == '\n' {
        assert(s.subrange(i, e) =~= Seq::<char>::empty());
    } else {
        lemma_line_end(s, i + 1);
        assert(line_end(s, i + 1) == e);
        if s[i] == '*' {
            if i + 1 < e {
                assert(s[i + 1] != '*');
            }
            assert(!star_at(s, i + 1));
            assert forall|q: int| i + 1 <= q < e implies #[trigger] s[q] != '*' && s[q] != '\n' by {
                assert(s[i] == '*');
            }
            lemma_scan_to(s, i + 1, e, 1);
            assert(!stars(s, e, 1));
            assert(delim(s, i, 1) is None);
        }
        assert(delim(s, i, 3) is None);
        assert(delim(s, i, 2) is None);
        assert(!double_marker(s, i));
        let it = Inline { kind: InlineKind::Text, start: i as usize, end: (i + 1) as usize };
        assert(inline_at(s, i) == Ok::<Inline, int>(it));
        lemma_literal_line(s, i + 1);
        let rest = line_items(s, i + 1)->Ok_0;
        lemma_line_html_cons(s, it, rest);
        assert(s.subrange(i, i + 1) + s.subrange(i + 1, e) =~= s.subrange(i, e));
        assert forall|k: int| 0 <= k < (seq![it] + rest).len() implies (#[trigger] (seq![it]
            + rest)[k]).kind == InlineKind::Text by {
            if k > 0 {
                assert((seq![it] + rest)[k] == rest[k - 1]);
            }
        }
    }
}

/// `***x***` is one bold-italic element, not bold inside italic: the line parses to that
/// single element, rendered as `<strong><em>x</em></strong>`.
pub proof fn lemma_bold_italic_one_node(x: Seq<char>)
    requires
        x.len() > 0,
        plain(x),
        x.len() + 6 <= usize::MAX,
    ensures
        ({
            let s = seq!['*', '*', '*'] + x + seq!['*', '*', '*'];
            &&& line_items(s, 0) == Ok::<Seq<Inline>, int>(
                seq![Inline { kind: InlineKind::BoldItalic, start: 0, end: s.len() as usize }],
            )
            &&& line_html(s, line_items(s, 0)->Ok_0) == "<strong><em>"@ + x + "</em></strong>"@
        }),
{
    let s = seq!['*', '*', '*'] + x + seq!['*', '*', '*'];
    let n = x.len() as int;
    assert forall|q: int| 3 <= q < 3 + n implies #[trigger] s[q] != '*' && s[q] != '\n' by {
        assert(s[q] == x[q - 3]);
    }
    assert(stars(s, 3 + n, 3));
    lemma_scan_to(s, 3, 3 + n, 3);
    let it = Inline { kind: InlineKind::BoldItalic, start: 0, end: s.len() as usize };
    assert(inline_at(s, 0) == Ok::<Inline, int>(it));
    assert(line_items(s, s.len() as int) == Ok::<Seq<Inline>, int>(Seq::empty()));
    assert(seq![it] + Seq::<Inline>::empty() =~= seq![it]);
    lemma_line_html_cons(s, it, Seq::empty());
    assert(s.subrange(3, 3 + n) =~= x);
}

/// A `**` that no `**` closes on its line is a parse error, never literal text: for
/// `**` followed by text without asterisks, the document fails at its first character.
pub proof fn lemma_unclosed_bold_fails(x: Seq<char>)
    requires
        plain(x),
        x.len() + 2 <= usize::MAX,
    ensures
        line_items(seq!['*', '*'] + x, 0) == Err::<Seq<Inline>, int>(0),
        document(seq!['*', '*'] + x) == Err::<Seq<BlockView>, int>(0),
{
    let s = seq!['*', '*'] + x;
    let n = s.len() as int;
    assert forall|q: int| 2 <= q < n implies #[trigger] s[q] != '*' && s[q] != '\n' by {
        assert(s[q] == x[q - 2]);
    }
    lemma_scan_to(s, 2, n, 2);
    assert(delim(s, 0, 3) is None);
    assert(delim(s, 0, 2) is None);
    assert(double_marker(s, 0));
    assert(inline_at(s, 0) == Err::<Inline, int>(0));
    assert forall|q: int| 0 <= q < n implies #[trigger] s[q] != '\n' by {
        if q >= 2 {
            assert(s[q] == x[q - 2]);
        }
    }
    lemma_line_end_at(s, 0, n);
    assert(sep_end(s, 0) == 0);
    assert(hash_end(s, 0) == 0);
    assert(sep_end(s, 1) == 1);
    assert(digit_end(s, 0) == 0);
    assert(line_kind(s, 0) == LineKind::Text);
    assert(next_line(s, 0) == n);
    assert(run_content(s, 0, RunKind::Plain) == Some(0int));
    assert(run_lines(s, 0, RunKind::Plain) == Err::<(Seq<Seq<Inline>>, int), int>(0));
}


proof fn lemma_hash_end(s: Seq<char>, i: int)
    requires
        0 <= i <= s.len(),
    ensures
        i <= hash_end(s, i) <= s.len(),
        hash_end(s, i) < s.len() ==> s[hash_end(s, i)] != '#',
        forall|q: int| i <= q < hash_end(s, i) ==> #[trigger] s[q] == '#',
    decreases s.len() - i,
{
    if i < s.len() && s[i] == '#' {
        lemma_hash_end(s, i + 1);
    }
}

proof fn lemma_hash_end_at(s: Seq<char>, i: int, e: int)
    requires
        0 <= i <= e <= s.len(),
        forall|q: int| i <= q < e ==> #[trigger] s[q] == '#',
        e == s.len() || s[e] != '#',
    ensures
        hash_end(s, i) == e,
    decreases e - i,
{
    if i < e {
        lemma_hash_end_at(s, i + 1, e);
    }
}

proof fn lemma_sep_end_at(s: Seq<char>, i: int, e: int)
    requires
        0 <= i <= e <= s.len(),
        forall|q: int| i <= q < e ==> is_sep(#[trigger] s[q]),
        e == s.len() || !is_sep(s[e]),
    ensures
        sep_end(s, i) == e,
    decreases e - i,
{
    if i < e {
        lemma_sep_end_at(s, i + 1, e);
    }
}

proof fn lemma_run_end(s: Seq<char>, i: int, k: RunKind)
    requires
        0 <= i <= s.len(),
        run_lines(s, i, k) is Ok,
    ensures
        i <= run_lines(s, i, k)->Ok_0.1 <= s.len(),
        run_content(s, i, k) is Some && i < next_line(s, i) <= s.len() ==> run_lines(s, i, k)->Ok_0.1
            >= next_line(s, i),
    decreases s.len() - i,
{
    if let Some(c) = run_content(s, i, k) {
        if line_items(s, c) is Ok && i < next_line(s, i) <= s.len() {
            lemma_run_end(s, next_line(s, i), k);
        }
    }
}

/// A line of 1 to 6 `#`, spaces or tabs, then text is a header of that level whose
/// content is the trimmed text: `<hN>`, the text trimmed, `</hN>` and a line break.
pub proof fn lemma_header_line(n: nat, w: Seq<char>, t: Seq<char>)
    requires
        1 <= n <= 6,
        w.len() > 0,
        forall|k: int| 0 <= k < w.len() ==> is_sep(#[trigger] w[k]),
        t.len() > 0,
        plain(t),
        !is_sep(t[0]),
        n + w.len() + t.len() + 1 <= usize::MAX,
    ensures
        ({
            let s = Seq::new(n, |k: int| '#') + w + t + seq!['\n'];
            &&& document(s) is Ok
            &&& doc_html(s, document(s)->Ok_0) == "<h"@ + seq![digit_char(n as usize)] + ">"@ + trim(t)
                + "</h"@ + seq![digit_char(n as usize)] + ">\n"@
        }),
{
    let s = Seq::new(n, |k: int| '#') + w + t + seq!['\n'];
    let c = n + w.len();
    let le = c + t.len();
    assert(s.len() == le + 1);
    assert forall|q: int| 0 <= q < n implies #[trigger] s[q] == '#' by {}
    assert forall|q: int| n <= q < c implies is_sep(#[trigger] s[q]) by {
        assert(s[q] == w[q - n]);
    }
    assert forall|q: int| c <= q < le implies #[trigger] s[q] != '*' && s[q] != '\n' by {
        assert(s[q] == t[q - c]);
    }
    assert forall|q: int| 0 <= q < le implies #[trigger] s[q] != '\n' by {
        if q < n {
        } else if q < c {
            assert(s[q] == w[q - n]);
        } else {
            assert(s[q] == t[q - c]);
        }
    }
    assert(s[le as int] == '\n');
    assert(s[c as int] == t[0]);
    lemma_line_end_at(s, 0, le as int);
    lemma_line_end_at(s, c as int, le as int);
    assert(s[n as int] == w[0]);
    lemma_hash_end_at(s, 0, n as int);
    lemma_sep_end_at(s, n as int, c as int);
    assert(sep_end(s, 0) == 0);
    assert(line_kind(s, 0) == LineKind::Header { level: n as usize, content: c as usize });
    assert(at_most_one_star(s, c as int, le as int));
    lemma_literal_line(s, c as int);
    let items = line_items(s, c as int)->Ok_0;
    assert(s.subrange(c as int, le as int) =~= t);
    assert(next_line(s, 0) == s.len());
    assert(blocks(s, s.len() as int) == Ok::<Seq<BlockView>, int>(Seq::empty()));
    let hb = BlockView {
        kind: BlockKind::Header,
        level: n as usize,
        start: 0,
        end: s.len() as usize,
        lines: seq![items],
    };
    assert(seq![hb] + Seq::<BlockView>::empty() =~= seq![hb]);
    assert(document(s) == Ok::<Seq<BlockView>, int>(seq![hb]));
    assert(seq![hb].drop_last() =~= Seq::<BlockView>::empty());
    assert(doc_html(s, seq![hb]) == doc_html(s, seq![hb].drop_last()) + block_html(
        s,
        seq![hb].last(),
    ));
    assert(doc_html(s, Seq::<BlockView>::empty()) == Seq::<char>::empty());
    assert(Seq::<char>::empty() + block_html(s, hb) =~= block_html(s, hb));
}

/// A line that starts with seven or more `#` is no header: it is read as a paragraph
/// line, so a document that starts with it starts with a paragraph.
pub proof fn lemma_seven_hashes_not_header(s: Seq<char>)
    requires
        7 <= s.len() <= usize::MAX,
        forall|k: int| 0 <= k < 7 ==> #[trigger] s[k] == '#',
    ensures
        line_kind(s, 0) == LineKind::Text,
        document(s) is Ok ==> document(s)->Ok_0.len() > 0 && document(s)->Ok_0[0].kind
            == BlockKind::Paragraph,
{
    lemma_hash_end(s, 0);
    if hash_end(s, 0) < 7 {
        assert(s[hash_end(s, 0)] == '#');
    }
    lemma_line_end(s, 0);
    assert(line_end(s, 0) == line_end(s, 1));
    lemma_line_end(s, 1);
    assert(sep_end(s, 0) == 0);
    assert(digit_end(s, 0) == 0);
    assert(line_kind(s, 0) == LineKind::Text);
    if document(s) is Ok {
        assert(0 < next_line(s, 0) <= s.len());
        assert(run_content(s, 0, RunKind::Plain) == Some(0int));
        lemma_run_end(s, 0, RunKind::Plain);
    }
}

/// The tags that wrap a block's content.
pub open spec fn open_tag(b: BlockView) -> Seq<char> {
    match b.kind {
        BlockKind::Paragraph => "<p>"@,
        BlockKind::UnorderedList => "<ul>\n"@,
        BlockKind::OrderedList => "<ol>\n"@,
        BlockKind::Header => "<h"@ + seq![digit_char(b.level)] + ">"@,
    }
}

pub open spec fn close_tag(b: BlockView) -> Seq<char> {
    match b.kind {
        BlockKind::Paragraph => "</p>\n"@,
        BlockKind::UnorderedList => "\n</ul>\n"@,
        BlockKind::OrderedList => "\n</ol>\n"@,
        BlockKind::Header => "</h"@ + seq![digit_char(b.level)] + ">\n"@,
    }
}

/// What the wrapping tag of a block holds.
pub open spec fn wrapped(s: Seq<char>, b: BlockView) -> Seq<char> {
    match b.kind {
        BlockKind::Paragraph => trim(para_text(s, b.lines)),
        BlockKind::Header => trim(line_html(s, b.lines[0])),
        _ => trim(points_html(s, b.lines)),
    }
}

/// The content is trimmed: trimming leaves it as it is, and it neither starts nor
/// ends with whitespace.
pub open spec fn is_trimmed(c: Seq<char>) -> bool {
    &&& trim(c) == c
    &&& (c.len() > 0 ==> !is_ws(c[0]) && !is_ws(c.last()))
}

/// `<p>`, `<ul>`, `<ol>` and `<hN>` wrap trimmed content; so does each `<li>`, whose
/// content is a trimmed line.
pub proof fn lemma_wrapped_trimmed(s: Seq<char>, b: BlockView, items: Seq<Inline>)
    ensures
        block_html(s, b) == open_tag(b) + wrapped(s, b) + close_tag(b),
        is_trimmed(wrapped(s, b)),
        is_trimmed(trim(line_html(s, items))),
{
    if b.kind == BlockKind::Paragraph {
        lemma_trim_idempotent(para_text(s, b.lines));
        lemma_trim_edges(para_text(s, b.lines));
    } else if b.kind == BlockKind::Header {
        lemma_trim_idempotent(line_html(s, b.lines[0]));
        lemma_trim_edges(line_html(s, b.lines[0]));
    } else {
        lemma_trim_idempotent(points_html(s, b.lines));
        lemma_trim_edges(points_html(s, b.lines));
    }
    lemma_trim_idempotent(line_html(s, items));
    lemma_trim_edges(line_html(s, items));
}

/// In the HTML of a document, which is its blocks' HTML in order, every block's tags
/// wrap trimmed content.
pub proof fn lemma_document_tags_trimmed(s: Seq<char>)
    requires
        document(s) is Ok,
    ensures
        forall|k: int|
            0 <= k < document(s)->Ok_0.len() ==> {
                let b = #[trigger] document(s)->Ok_0[k];
                &&& block_html(s, b) == open_tag(b) + wrapped(s, b) + close_tag(b)
                &&& is_trimmed(wrapped(s, b))
            },
{
    let bs = document(s)->Ok_0;
    assert forall|k: int| 0 <= k < bs.len() implies {
        let b = #[trigger] bs[k];
        &&& block_html(s, b) == open_tag(b) + wrapped(s, b) + close_tag(b)
        &&& is_trimmed(wrapped(s, b))
    } by {
        lemma_wrapped_trimmed(s, bs[k], Seq::empty());
    }
}

/// A line of seven or more `#` followed by text without asterisks is a paragraph whose
/// content is the whole line, `#` included, trimmed: `<p>`, that text, `</p>` and a
/// line break.
pub proof fn lemma_seven_hashes_output(n: nat, t: Seq<char>)
    requires
        n >= 7,
        plain(t),
        n + t.len() + 1 <= usize::MAX,
    ensures
        ({
            let x = Seq::new(n, |k: int| '#') + t;
            let s = x.push('\n');
            &&& document(s) is Ok
            &&& doc_html(s, document(s)->Ok_0) == "<p>"@ + trim(x) + "</p>\n"@
        }),
{
    let x = Seq::new(n, |k: int| '#') + t;
    let s = x.push('\n');
    let le = x.len() as int;
    assert forall|q: int| 0 <= q < le implies #[trigger] s[q] != '*' && s[q] != '\n' by {
        if q >= n {
            assert(s[q] == t[q - n]);
        }
    }
    assert forall|q: int| 0 <= q < 7 implies #[trigger] s[q] == '#' by {}
    lemma_seven_hashes_not_header(s);
    lemma_line_end_at(s, 0, le);
    assert(at_most_one_star(s, 0, le));
    lemma_literal_line(s, 0);
    let items = line_items(s, 0)->Ok_0;
    assert(s.subrange(0, le) =~= x);
    assert(next_line(s, 0) == s.len());
    assert(run_content(s, 0, RunKind::Plain) == Some(0int));
    assert(run_content(s, s.len() as int, RunKind::Plain) is None);
    assert(seq![items] + Seq::<Seq<Inline>>::empty() =~= seq![items]);
    assert(run_lines(s, 0, RunKind::Plain) == Ok::<(Seq<Seq<Inline>>, int), int>(
        (seq![items], s.len() as int),
    ));
    let pb = block_of_run(RunKind::Plain, 0, s.len() as int, seq![items]);
    assert(blocks(s, s.len() as int) == Ok::<Seq<BlockView>, int>(Seq::empty()));
    assert(seq![pb] + Seq::<BlockView>::empty() =~= seq![pb]);
    assert(document(s) == Ok::<Seq<BlockView>, int>(seq![pb]));
    assert(doc_html(s, seq![pb]) == doc_html(s, seq![pb].drop_last()) + block_html(
        s,
        seq![pb].last(),
    ));
    assert(seq![pb].drop_last() =~= Seq::<BlockView>::empty());
    assert(Seq::<char>::empty() + block_html(s, pb) =~= block_html(s, pb));
    assert(seq![items].drop_last() =~= Seq::<Seq<Inline>>::empty());
    assert(para_text(s, seq![items]) == para_text(s, Seq::empty()) + line_html(s, items) + "\n"@);
    assert(para_text(s, seq![items]) =~= x.push('\n')) by {
        reveal_strlit("\n");
    }
    lemma_trim_push_ws(x, '\n');
}

} // verus!
