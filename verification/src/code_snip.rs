//! Code snippets for incidents: the lines around a location, with their numbers.

use crate::text::{concat3, decimal, show_number, texts};
use vstd::prelude::*;

verus! {

/// As many spaces as are missing to a width.
pub open spec fn padding(len: nat, width: nat) -> Seq<char> {
    Seq::new(
        if len < width {
            (width - len) as nat
        } else {
            0
        },
        |i: int| ' ',
    )
}

/// A line with its number, which is aligned to the right in so many columns.
pub open spec fn numbered(n: nat, line: Seq<char>, width: nat) -> Seq<char> {
    padding(decimal(n).len(), width) + decimal(n) + "  "@ + line + "\n"@
}

/// The numbered lines from index `from` up to `to`.
pub open spec fn numbered_lines(lines: Seq<Seq<char>>, from: int, to: int, width: nat) -> Seq<char>
    decreases to - from,
{
    if to <= from {
        Seq::empty()
    } else {
        numbered_lines(lines, from, to - 1, width) + numbered(to as nat, lines[to - 1], width)
    }
}

/// The first line of the snippet around a location.
pub open spec fn snip_start(start_line: int, context_lines: int) -> int {
    if start_line > context_lines {
        start_line - context_lines
    } else {
        0
    }
}

/// The snippet around a location: from so many lines before its first line on, as many lines as it
/// has and twice as many more. Where lines are missing at the beginning of the file, more of them
/// follow at the end.
pub open spec fn snip(
    lines: Seq<Seq<char>>,
    start_line: int,
    end_line: int,
    context_lines: int,
) -> Seq<char> {
    let from = snip_start(start_line, context_lines);
    let to = from + (end_line - start_line) + 2 * context_lines + 1;
    numbered_lines(
        lines,
        from,
        if to <= lines.len() {
            to
        } else {
            lines.len() as int
        },
        5,
    )
}

fn pad(n: usize) -> (r: String)
    ensures
        r@ == padding(n as nat, 5),
{
    let mut r = String::new();
    let mut i: usize = n;
    while i < 5
        invariant
            n <= i,
            n < 5 ==> i <= 5,
            n >= 5 ==> i == n,
            r@.len() == i - n,
            forall|k: int| 0 <= k < r@.len() ==> r@[k] == ' ',
        decreases 5 - i,
    {
        r.push(' ');
        i = i + 1;
    }
    assert(r@ =~= padding(n as nat, 5));
    r
}

fn number_line(n: usize, line: &str) -> (r: String)
    ensures
        r@ == numbered(n as nat, line@, 5),
{
    let shown = show_number(n as u64);
    let space = pad(crate::text::chars_of(shown.as_str()).len());
    let head = concat3(space.as_str(), shown.as_str(), "  ");
    let r = concat3(head.as_str(), line, "\n");
    assert(r@ =~= numbered(n as nat, line@, 5));
    r
}

/// The snippet of a file around the lines from `start_line` to `end_line`, both counted from zero.
pub fn get_code_snip(
    lines: &Vec<String>,
    start_line: usize,
    end_line: usize,
    context_lines: usize,
) -> (r: String)
    requires
        start_line <= end_line,
        (end_line - start_line) + 2 * context_lines + 1 <= usize::MAX,
    ensures
        r@ == snip(
            texts(lines@),
            start_line as int,
            end_line as int,
            context_lines as int,
        ),
{
    let ghost all = texts(lines@);
    let skip: usize = if start_line > context_lines {
        start_line - context_lines
    } else {
        0
    };
    let take: usize = (end_line - start_line) + 2 * context_lines + 1;
    let mut r = String::new();
    assert(r@ =~= Seq::<char>::empty());
    let mut i: usize = 0;
    while i < take && i < lines.len() && skip < lines.len() - i
        invariant
            all == texts(lines@),
            i <= take,
            i == 0 || skip + i <= lines@.len(),
            r@ == numbered_lines(all, skip as int, skip + i, 5),
        decreases take - i,
    {
        let n: usize = skip + i;
        assert(all[n as int] == lines@[n as int]@);
        let line = number_line(n + 1, lines[n].as_str());
        let ghost before = r@;
        r = crate::text::concat(r.as_str(), line.as_str());
        i = i + 1;
        assert(r@ =~= before + numbered((n + 1) as nat, all[n as int], 5));
        assert(numbered_lines(all, skip as int, skip + i, 5) == numbered_lines(
            all,
            skip as int,
            skip + i - 1,
            5,
        ) + numbered((skip + i) as nat, all[skip + i - 1], 5));
    }
    r
}

} // verus!
