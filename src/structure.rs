//! The shape a tree must have to be rendered, and the error that names the first
//! place where a tree breaks it.
use crate::grammar::{blocks_view, Block, BlockKind, BlockView, Inline, InlineKind};
use crate::render::{block_ok, blocks_ok, inline_ok, items_ok, marker_len};
use crate::text::{push_str, string_of};
use crate::MarkdownError;
use vstd::prelude::*;

verus! {

pub open spec fn digit_of(d: int) -> char {
    seq!['0', '1', '2', '3', '4', '5', '6', '7', '8', '9'][d]
}

/// `n` in decimal.
pub open spec fn decimal(n: nat) -> Seq<char>
    decreases n,
{
    if n < 10 {
        seq![digit_of(n as int)]
    } else {
        decimal(n / 10).push(digit_of((n % 10) as int))
    }
}

fn digit_exec(d: usize) -> (c: char)
    requires
        d < 10,
    ensures
        c == digit_of(d as int),
{
    let digits = ['0', '1', '2', '3', '4', '5', '6', '7', '8', '9'];
    assert(digits@ =~= seq!['0', '1', '2', '3', '4', '5', '6', '7', '8', '9']);
    digits[d]
}

/// Appends `n` in decimal to `out`.
fn push_decimal(out: &mut Vec<char>, n: usize)
    ensures
        final(out)@ == old(out)@ + decimal(n as nat),
    decreases n,
{
    if n < 10 {
        out.push(digit_exec(n));
    } else {
        push_decimal(out, n / 10);
        out.push(digit_exec(n % 10));
        assert(final(out)@ =~= old(out)@ + decimal(n as nat));
    }
}

/// The name of the rule an inline element comes from.
pub open spec fn kind_name(k: InlineKind) -> Seq<char> {
    match k {
        InlineKind::Text => "char"@,
        InlineKind::Italic => "italic"@,
        InlineKind::Bold => "bold"@,
        InlineKind::BoldItalic => "bold_italic"@,
    }
}

/// What a well-formed element holds.
pub open spec fn span_expected() -> Seq<char> {
    "a span inside the source that holds both markers"@
}

/// What a well-formed header holds.
pub open spec fn header_expected() -> Seq<char> {
    "one line and a level from 1 to 6"@
}

/// A fault of the tree: the rule at fault, what it should hold, what it holds.
pub open spec fn span_fault(it: Inline, n: int) -> Option<(Seq<char>, Seq<char>, Seq<char>)> {
    if inline_ok(it, n) {
        None
    } else {
        Some(
            (
                kind_name(it.kind),
                span_expected(),
                "span "@ + decimal(it.start as nat) + ".."@ + decimal(it.end as nat)
                    + " in a source of "@ + decimal(n as nat) + " characters"@,
            ),
        )
    }
}

/// The first fault among `items[k..]`.
pub open spec fn items_fault(items: Seq<Inline>, n: int, k: int) -> Option<
    (Seq<char>, Seq<char>, Seq<char>),
>
    decreases items.len() - k,
{
    if 0 <= k < items.len() {
        if span_fault(items[k], n) is Some {
            span_fault(items[k], n)
        } else {
            items_fault(items, n, k + 1)
        }
    } else {
        None
    }
}

/// The first fault among `lines[k..]`.
pub open spec fn lines_fault(lines: Seq<Seq<Inline>>, n: int, k: int) -> Option<
    (Seq<char>, Seq<char>, Seq<char>),
>
    decreases lines.len() - k,
{
    if 0 <= k < lines.len() {
        if items_fault(lines[k], n, 0) is Some {
            items_fault(lines[k], n, 0)
        } else {
            lines_fault(lines, n, k + 1)
        }
    } else {
        None
    }
}

/// The fault of a header that does not have one line and a level from 1 to 6.
pub open spec fn header_fault(b: BlockView) -> Option<(Seq<char>, Seq<char>, Seq<char>)> {
    if b.kind == BlockKind::Header && !(b.lines.len() == 1 && 1 <= b.level <= 6) {
        Some(
            (
                "header"@,
                header_expected(),
                decimal(b.lines.len()) + " lines and level "@ + decimal(b.level as nat),
            ),
        )
    } else {
        None
    }
}

/// The first fault of a block: its header shape, then its elements in order.
pub open spec fn block_fault(b: BlockView, n: int) -> Option<(Seq<char>, Seq<char>, Seq<char>)> {
    if header_fault(b) is Some {
        header_fault(b)
    } else {
        lines_fault(b.lines, n, 0)
    }
}

/// The first fault among `bs[k..]`, in document order.
pub open spec fn blocks_fault(bs: Seq<BlockView>, n: int, k: int) -> Option<
    (Seq<char>, Seq<char>, Seq<char>),
>
    decreases bs.len() - k,
{
    if 0 <= k < bs.len() {
        if block_fault(bs[k], n) is Some {
            block_fault(bs[k], n)
        } else {
            blocks_fault(bs, n, k + 1)
        }
    } else {
        None
    }
}

/// `e` is the `InvalidStructure` error that reports fault `f`.
pub open spec fn fault_error(e: MarkdownError, f: (Seq<char>, Seq<char>, Seq<char>)) -> bool {
    match e {
        MarkdownError::InvalidStructure { rule, expected, actual } => rule@ == f.0 && expected@
            == f.1 && actual@ == f.2,
        _ => false,
    }
}

fn owned(s: &str) -> (r: String)
    ensures
        r@ == s@,
{
    s.to_owned()
}

fn check_inline(it: Inline, n: usize) -> (r: Result<(), MarkdownError>)
    ensures
        r is Ok <==> inline_ok(it, n as int),
        r is Err ==> fault_error(r->Err_0, span_fault(it, n as int)->Some_0),
{
    let m: usize = match it.kind {
        InlineKind::Text => 0,
        InlineKind::Italic => 1,
        InlineKind::Bold => 2,
        InlineKind::BoldItalic => 3,
    };
    assert(m == marker_len(it.kind));
    if it.start < it.end && it.end <= n && it.end - it.start >= 2 * m {
        Ok(())
    } else {
        let rule = match it.kind {
            InlineKind::Text => "char",
            InlineKind::Italic => "italic",
            InlineKind::Bold => "bold",
            InlineKind::BoldItalic => "bold_italic",
        };
        let mut actual: Vec<char> = Vec::new();
        push_str(&mut actual, "span ");
        push_decimal(&mut actual, it.start);
        push_str(&mut actual, "..");
        push_decimal(&mut actual, it.end);
        push_str(&mut actual, " in a source of ");
        push_decimal(&mut actual, n);
        push_str(&mut actual, " characters");
        assert(actual@ =~= span_fault(it, n as int)->Some_0.2);
        Err(
            MarkdownError::InvalidStructure {
                rule: owned(rule),
                expected: owned("a span inside the source that holds both markers"),
                actual: string_of(actual),
            },
        )
    }
}

fn header_error(lines: usize, level: usize) -> (e: MarkdownError)
    ensures
        e matches MarkdownError::InvalidStructure { rule, expected, actual } && rule@ == "header"@
            && expected@ == header_expected() && actual@ == decimal(lines as nat)
            + " lines and level "@ + decimal(level as nat),
{
    let mut actual: Vec<char> = Vec::new();
    push_decimal(&mut actual, lines);
    push_str(&mut actual, " lines and level ");
    push_decimal(&mut actual, level);
    MarkdownError::InvalidStructure {
        rule: owned("header"),
        expected: owned("one line and a level from 1 to 6"),
        actual: string_of(actual),
    }
}

/// Checks that `blocks` can be rendered against a source of `n` characters: every
/// header has one line and a level from 1 to 6, and every span lies in the source and
/// holds its markers. The error reports the first fault in document order.
#[verifier::loop_isolation(false)]
pub fn check_structure(blocks: &Vec<Block>, n: usize) -> (r: Result<(), MarkdownError>)
    ensures
        match blocks_fault(blocks_view(blocks@), n as int, 0) {
            None => r is Ok,
            Some(f) => r is Err && fault_error(r->Err_0, f),
        },
        r is Ok ==> blocks_ok(blocks_view(blocks@), n as int),
{
    let ghost v = blocks_view(blocks@);
    let mut b: usize = 0;
    while b < blocks.len()
        invariant
            b <= blocks@.len(),
            v == blocks_view(blocks@),
            forall|j: int| 0 <= j < b ==> block_ok(#[trigger] v[j], n as int),
            blocks_fault(v, n as int, 0) == blocks_fault(v, n as int, b as int),
        decreases blocks@.len() - b,
    {
        let blk = &blocks[b];
        let ghost bv = v[b as int];
        assert(bv == blk@);
        if matches!(blk.kind, BlockKind::Header) && (blk.lines.len() != 1 || blk.level < 1
            || blk.level > 6) {
            return Err(header_error(blk.lines.len(), blk.level));
        }
        assert(header_fault(bv) is None);
        let mut l: usize = 0;
        while l < blk.lines.len()
            invariant
                l <= blk.lines@.len(),
                bv == blk@,
                forall|j: int| 0 <= j < l ==> items_ok(#[trigger] bv.lines[j], n as int),
                lines_fault(bv.lines, n as int, 0) == lines_fault(bv.lines, n as int, l as int),
            decreases blk.lines@.len() - l,
        {
            let line = &blk.lines[l];
            assert(bv.lines[l as int] == line@);
            let mut k: usize = 0;
            while k < line.len()
                invariant
                    k <= line@.len(),
                    forall|j: int| 0 <= j < k ==> inline_ok(#[trigger] line@[j], n as int),
                    items_fault(line@, n as int, 0) == items_fault(line@, n as int, k as int),
                decreases line@.len() - k,
            {
                match check_inline(line[k], n) {
                    Ok(()) => {},
                    Err(e) => {
                        assert(!items_ok(bv.lines[l as int], n as int));
                        assert(!block_ok(bv, n as int));
                        return Err(e);
                    },
                }
                k = k + 1;
            }
            l = l + 1;
        }
        b = b + 1;
    }
    Ok(())
}

} // verus!
