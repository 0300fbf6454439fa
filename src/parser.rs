//! The parser: executable functions, each proved to compute its grammar rule.
use crate::grammar::{
    block_of_run, blocks, blocks_view, delim, digit_end, document, hash_end, inline_at, lemma_prepend_all, lemma_prepend_none,
    line_end, line_items, line_kind, lines_view, next_line, prepend_all, prepend_run, run_content,
    run_lines, run_of, scan, sep_end, star_at, stars, Block, BlockKind, BlockView, Inline, InlineKind, LineKind,
    RunKind,
};
use vstd::prelude::*;

verus! {

pub open spec fn lift<T>(r: Result<T, usize>) -> Result<T, int> {
    match r {
        Ok(x) => Ok(x),
        Err(p) => Err(p as int),
    }
}

pub open spec fn lift_items(r: Result<Vec<Inline>, usize>) -> Result<Seq<Inline>, int> {
    match r {
        Ok(v) => Ok(v@),
        Err(p) => Err(p as int),
    }
}

pub open spec fn lift_run(r: Result<(Vec<Vec<Inline>>, usize), usize>) -> Result<
    (Seq<Seq<Inline>>, int),
    int,
> {
    match r {
        Ok((v, e)) => Ok((lines_view(v@), e as int)),
        Err(p) => Err(p as int),
    }
}

pub open spec fn lift_blocks(r: Result<Vec<Block>, usize>) -> Result<Seq<BlockView>, int> {
    match r {
        Ok(v) => Ok(blocks_view(v@)),
        Err(p) => Err(p as int),
    }
}

fn star_at_exec(s: &Vec<char>, i: usize) -> (r: bool)
    ensures
        r == star_at(s@, i as int),
        r ==> i < s.len(),
{
    i < s.len() && s[i] == '*'
}

fn stars_exec(s: &Vec<char>, i: usize, m: usize) -> (r: bool)
    requires
        1 <= m <= 3,
    ensures
        r == stars(s@, i as int, m as int),
        r ==> i + m <= s.len(),
{
    if !star_at_exec(s, i) {
        return false;
    }
    if m >= 2 && !star_at_exec(s, i + 1) {
        return false;
    }
    if m >= 3 && !star_at_exec(s, i + 2) {
        return false;
    }
    true
}

fn scan_exec(s: &Vec<char>, j: usize, m: usize) -> (r: usize)
    requires
        1 <= m <= 3,
        j <= s@.len(),
    ensures
        r as int == scan(s@, j as int, m as int),
        j <= r <= s@.len(),
{
    let mut k = j;
    while k < s.len() && s[k] != '\n' && !stars_exec(s, k, m)
        invariant
            j <= k <= s@.len(),
            1 <= m <= 3,
            scan(s@, j as int, m as int) == scan(s@, k as int, m as int),
        decreases s@.len() - k,
    {
        k = k + 1;
    }
    k
}

pub(crate) fn delim_exec(s: &Vec<char>, i: usize, m: usize) -> (r: Option<usize>)
    requires
        1 <= m <= 3,
        i <= s@.len(),
    ensures
        match r {
            Some(e) => delim(s@, i as int, m as int) == Some(e as int) && i < e <= s@.len(),
            None => delim(s@, i as int, m as int) is None,
        },
{
    if !stars_exec(s, i, m) {
        return None;
    }
    let j = scan_exec(s, i + m, m);
    if j > i + m && stars_exec(s, j, m) {
        Some(j + m)
    } else {
        None
    }
}

fn inline_exec(s: &Vec<char>, i: usize) -> (r: Result<Inline, usize>)
    requires
        i < s.len(),
    ensures
        lift(r) == inline_at(s@, i as int),
        r is Ok ==> i < r->Ok_0.end <= s@.len(),
        r is Err ==> r->Err_0 < s@.len(),
{
    if let Some(e) = delim_exec(s, i, 3) {
        return Ok(Inline { kind: InlineKind::BoldItalic, start: i, end: e });
    }
    if let Some(e) = delim_exec(s, i, 2) {
        return Ok(Inline { kind: InlineKind::Bold, start: i, end: e });
    }
    if stars_exec(s, i, 2) && !star_at_exec(s, i + 2) && !(i > 0 && star_at_exec(s, i - 1)) {
        return Err(i);
    }
    if let Some(e) = delim_exec(s, i, 1) {
        return Ok(Inline { kind: InlineKind::Italic, start: i, end: e });
    }
    Ok(Inline { kind: InlineKind::Text, start: i, end: i + 1 })
}

/// The inline elements from `i` to the end of its line.
pub fn parse_line(s: &Vec<char>, i: usize) -> (r: Result<Vec<Inline>, usize>)
    requires
        i <= s@.len(),
    ensures
        lift_items(r) == line_items(s@, i as int),
        r is Err ==> r->Err_0 < s@.len(),
{
    let mut acc: Vec<Inline> = Vec::new();
    let mut j = i;
    proof {
        lemma_prepend_none(line_items(s@, i as int));
    }
    while j < s.len() && s[j] != '\n'
        invariant
            i <= j <= s@.len(),
            line_items(s@, i as int) == prepend_all(acc@, line_items(s@, j as int)),
        decreases s@.len() - j,
    {
        match inline_exec(s, j) {
            Err(p) => {
                return Err(p);
            },
            Ok(it) => {
                proof {
                    lemma_prepend_all(acc@, it, line_items(s@, it.end as int));
                }
                acc.push(it);
                j = it.end;
            },
        }
    }
    assert(acc@ + Seq::<Inline>::empty() =~= acc@);
    Ok(acc)
}


pub(crate) fn line_end_exec(s: &Vec<char>, i: usize) -> (r: usize)
    requires
        i <= s@.len(),
    ensures
        r as int == line_end(s@, i as int),
        i <= r <= s@.len(),
{
    let mut k = i;
    while k < s.len() && s[k] != '\n'
        invariant
            i <= k <= s@.len(),
            line_end(s@, i as int) == line_end(s@, k as int),
        decreases s@.len() - k,
    {
        k = k + 1;
    }
    k
}

pub(crate) fn next_line_exec(s: &Vec<char>, i: usize) -> (r: usize)
    requires
        i <= s@.len(),
    ensures
        r as int == next_line(s@, i as int),
        r <= s@.len(),
{
    let e = line_end_exec(s, i);
    if e < s.len() {
        e + 1
    } else {
        e
    }
}

pub(crate) fn sep_end_exec(s: &Vec<char>, i: usize) -> (r: usize)
    requires
        i <= s@.len(),
    ensures
        r as int == sep_end(s@, i as int),
        i <= r <= s@.len(),
{
    let mut k = i;
    while k < s.len() && (s[k] == ' ' || s[k] == '\t')
        invariant
            i <= k <= s@.len(),
            sep_end(s@, i as int) == sep_end(s@, k as int),
        decreases s@.len() - k,
    {
        k = k + 1;
    }
    k
}

pub(crate) fn hash_end_exec(s: &Vec<char>, i: usize) -> (r: usize)
    requires
        i <= s@.len(),
    ensures
        r as int == hash_end(s@, i as int),
        i <= r <= s@.len(),
{
    let mut k = i;
    while k < s.len() && s[k] == '#'
        invariant
            i <= k <= s@.len(),
            hash_end(s@, i as int) == hash_end(s@, k as int),
        decreases s@.len() - k,
    {
        k = k + 1;
    }
    k
}

pub(crate) fn digit_end_exec(s: &Vec<char>, i: usize) -> (r: usize)
    requires
        i <= s@.len(),
    ensures
        r as int == digit_end(s@, i as int),
        i <= r <= s@.len(),
{
    let mut k = i;
    while k < s.len() && '0' <= s[k] && s[k] <= '9'
        invariant
            i <= k <= s@.len(),
            digit_end(s@, i as int) == digit_end(s@, k as int),
        decreases s@.len() - k,
    {
        k = k + 1;
    }
    k
}

pub open spec fn content_in(k: LineKind, n: int) -> bool {
    match k {
        LineKind::Header { level, content } => content <= n,
        LineKind::Bullet { content } => content <= n,
        LineKind::Numbered { content } => content <= n,
        _ => true,
    }
}

pub(crate) fn line_kind_exec(s: &Vec<char>, i: usize) -> (r: LineKind)
    requires
        i < s@.len(),
    ensures
        r == line_kind(s@, i as int),
        content_in(r, s@.len() as int),
{
    let le = line_end_exec(s, i);
    if sep_end_exec(s, i) == le {
        return LineKind::Blank;
    }
    let h = hash_end_exec(s, i);
    let hc = sep_end_exec(s, h);
    if h - i >= 1 && h - i <= 6 && hc > h && hc < le {
        return LineKind::Header { level: h - i, content: hc };
    }
    let bc = sep_end_exec(s, i + 1);
    if (s[i] == '-' || s[i] == '*') && bc > i + 1 && bc < le {
        return LineKind::Bullet { content: bc };
    }
    let d = digit_end_exec(s, i);
    if d > i && d < s.len() && s[d] == '.' {
        let dc = sep_end_exec(s, d + 1);
        if dc > d + 1 && dc < le {
            return LineKind::Numbered { content: dc };
        }
    }
    LineKind::Text
}

fn run_content_exec(s: &Vec<char>, i: usize, k: RunKind) -> (r: Option<usize>)
    requires
        i <= s@.len(),
    ensures
        match r {
            Some(c) => run_content(s@, i as int, k) == Some(c as int) && c <= s@.len(),
            None => run_content(s@, i as int, k) is None,
        },
{
    if i >= s.len() {
        return None;
    }
    match (line_kind_exec(s, i), k) {
        (LineKind::Bullet { content }, RunKind::Bullet) => Some(content),
        (LineKind::Numbered { content }, RunKind::Numbered) => Some(content),
        (LineKind::Text, RunKind::Plain) => Some(i),
        _ => None,
    }
}

/// The lines of the run of kind `k` that starts at `i`, and where the run ends.
pub(crate) fn parse_run(s: &Vec<char>, i: usize, k: RunKind) -> (r: Result<(Vec<Vec<Inline>>, usize), usize>)
    requires
        i <= s@.len(),
    ensures
        lift_run(r) == run_lines(s@, i as int, k),
        r is Ok ==> r->Ok_0.1 <= s@.len(),
        r is Err ==> r->Err_0 < s@.len(),
{
    let mut lines: Vec<Vec<Inline>> = Vec::new();
    let mut j = i;
    assert(lines_view(lines@) =~= Seq::<Seq<Inline>>::empty());
    proof {
        match run_lines(s@, i as int, k) {
            Ok((rest, e)) => {
                assert(Seq::<Seq<Inline>>::empty() + rest =~= rest);
            },
            Err(p) => {},
        }
    }
    loop
        invariant
            i <= j <= s@.len(),
            run_lines(s@, i as int, k) == prepend_run(lines_view(lines@), run_lines(s@, j as int, k)),
        ensures
            j <= s@.len(),
            run_lines(s@, i as int, k) == Ok::<(Seq<Seq<Inline>>, int), int>((lines_view(lines@), j as int)),
        decreases s@.len() - j,
    {
        assert(lines_view(lines@) + Seq::<Seq<Inline>>::empty() =~= lines_view(lines@));
        let c = match run_content_exec(s, j, k) {
            None => {
                break ;
            },
            Some(c) => c,
        };
        let items = match parse_line(s, c) {
            Err(p) => {
                return Err(p);
            },
            Ok(v) => v,
        };
        let nl = next_line_exec(s, j);
        if !(j < nl && nl <= s.len()) {
            break ;
        }
        proof {
            let a = lines_view(lines@);
            match run_lines(s@, nl as int, k) {
                Ok((rest, e)) => {
                    assert(a + (seq![items@] + rest) =~= a.push(items@) + rest);
                },
                Err(p) => {},
            }
        }
        let ghost before = lines@;
        lines.push(items);
        assert(lines_view(lines@) =~= lines_view(before).push(items@));
        j = nl;
    }
    Ok((lines, j))
}


pub(crate) fn run_kind_exec(kind: LineKind) -> (r: RunKind)
    ensures
        r == run_of(kind),
{
    match kind {
        LineKind::Bullet { .. } => RunKind::Bullet,
        LineKind::Numbered { .. } => RunKind::Numbered,
        _ => RunKind::Plain,
    }
}

/// The blocks of the document `s`, or the position of an unclosed `**`.
pub fn parse_blocks(s: &Vec<char>) -> (r: Result<Vec<Block>, usize>)
    ensures
        lift_blocks(r) == document(s@),
        r is Err ==> r->Err_0 < s@.len(),
{
    let mut out: Vec<Block> = Vec::new();
    let mut i: usize = 0;
    proof {
        lemma_prepend_none(blocks(s@, 0));
        assert(blocks_view(out@) =~= Seq::<BlockView>::empty());
    }
    loop
        invariant
            i <= s@.len(),
            document(s@) == prepend_all(blocks_view(out@), blocks(s@, i as int)),
        ensures
            document(s@) == Ok::<Seq<BlockView>, int>(blocks_view(out@)),
        decreases s@.len() - i,
    {
        assert(blocks_view(out@) + Seq::<BlockView>::empty() =~= blocks_view(out@));
        if i >= s.len() {
            break ;
        }
        let nl = next_line_exec(s, i);
        if !(i < nl && nl <= s.len()) {
            break ;
        }
        let ghost before = out@;
        match line_kind_exec(s, i) {
            LineKind::Blank => {
                i = nl;
            },
            LineKind::Header { level, content } => {
                match parse_line(s, content) {
                    Err(p) => {
                        return Err(p);
                    },
                    Ok(items) => {
                        let ghost iv = items@;
                        let mut ls: Vec<Vec<Inline>> = Vec::new();
                        ls.push(items);
                        assert(lines_view(ls@) =~= seq![iv]);
                        let b = Block { kind: BlockKind::Header, level, start: i, end: nl, lines: ls };
                        proof {
                            lemma_prepend_all(blocks_view(before), b@, blocks(s@, nl as int));
                        }
                        out.push(b);
                        assert(blocks_view(out@) =~= blocks_view(before).push(b@));
                        i = nl;
                    },
                }
            },
            kind => {
                let rk = run_kind_exec(kind);
                match parse_run(s, i, rk) {
                    Err(p) => {
                        return Err(p);
                    },
                    Ok((lines, e)) => {
                        if !(i < e && e <= s.len()) {
                            break ;
                        }
                        let bk = match rk {
                            RunKind::Bullet => BlockKind::UnorderedList,
                            RunKind::Numbered => BlockKind::OrderedList,
                            RunKind::Plain => BlockKind::Paragraph,
                        };
                        let b = Block { kind: bk, level: 0, start: i, end: e, lines };
                        assert(b@ == block_of_run(rk, i as int, e as int, b@.lines));
                        proof {
                            lemma_prepend_all(blocks_view(before), b@, blocks(s@, e as int));
                        }
                        out.push(b);
                        assert(blocks_view(out@) =~= blocks_view(before).push(b@));
                        i = e;
                    },
                }
            },
        }
    }
    Ok(out)
}

} // verus!
