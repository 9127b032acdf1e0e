//! Printed syntax trees, made fit for reading.
//!
//! A tree is printed as JSON for a reader of JavaScript, which takes a surrogate that stands alone
//! and a number beyond all bounds. What reads the tree here takes neither, so both are replaced
//! before it is read.

use crate::text::{chars_of, has_at, is_at, text_of};
use vstd::prelude::*;

verus! {

/// Whether a surrogate is escaped at an index of the inside of a string.
pub open spec fn surrogate_at(s: Seq<char>, i: int) -> bool {
    &&& 0 <= i
    &&& i + 6 <= s.len()
    &&& s[i] == '\\'
    &&& s[i + 1] == 'u'
    &&& (s[i + 2] == 'd' || s[i + 2] == 'D')
    &&& ('8' <= s[i + 3] <= '9' || 'a' <= s[i + 3] <= 'f' || 'A' <= s[i + 3] <= 'F')
}

/// What becomes of a printed tree from index `i` on, where `i` lies inside a string or not. A
/// surrogate becomes the replacement character, followed by the digits of the surrogate, and an
/// infinite number a large one.
pub open spec fn mended_from(s: Seq<char>, i: int, inside: bool) -> Seq<char>
    decreases s.len() - i,
{
    if i < 0 || i >= s.len() {
        Seq::empty()
    } else if inside && surrogate_at(s, i) {
        "\\ufffd"@ + s.subrange(i + 2, i + 6) + mended_from(s, i + 6, true)
    } else if inside && s[i] == '\\' && i + 1 < s.len() {
        seq![s[i], s[i + 1]] + mended_from(s, i + 2, true)
    } else if !inside && has_at(s, "1e+400"@, i) {
        proof {
            reveal_strlit("1e+400");
        }
        "1e308"@ + mended_from(s, i + 6, false)
    } else {
        seq![s[i]] + mended_from(s, i + 1, inside != (s[i] == '"'))
    }
}

/// A printed tree without lone surrogates and infinite numbers.
pub open spec fn mended(s: Seq<char>) -> Seq<char> {
    mended_from(s, 0, false)
}

fn check_surrogate(s: &Vec<char>, i: usize) -> (r: bool)
    requires
        i <= s@.len(),
    ensures
        r == surrogate_at(s@, i as int),
{
    s.len() - i >= 6 && s[i] == '\\' && s[i + 1] == 'u' && (s[i + 2] == 'd' || s[i + 2] == 'D') && (
    ('8' <= s[i + 3] && s[i + 3] <= '9') || ('a' <= s[i + 3] && s[i + 3] <= 'f') || ('A' <= s[i + 3]
        && s[i + 3] <= 'F'))
}

fn push_all(out: &mut Vec<char>, more: &str)
    ensures
        final(out)@ == old(out)@ + more@,
{
    let c = chars_of(more);
    let mut i: usize = 0;
    let ghost before = out@;
    assert(before + c@.take(0) =~= before);
    while i < c.len()
        invariant
            i <= c@.len(),
            out@ == before + c@.take(i as int),
        decreases c.len() - i,
    {
        out.push(c[i]);
        i = i + 1;
        assert(out@ =~= before + c@.take(i as int));
    }
    assert(c@.take(c@.len() as int) =~= c@);
}

/// Replaces the lone surrogates and the infinite numbers of a printed tree.
pub fn mend(printed: &str) -> (r: String)
    ensures
        r@ == mended(printed@),
{
    let s = chars_of(printed);
    let huge = chars_of("1e+400");
    proof {
        reveal_strlit("1e+400");
    }
    let mut out: Vec<char> = Vec::new();
    let mut i: usize = 0;
    let mut inside = false;
    assert(out@ + mended(s@) =~= mended(s@));
    while i < s.len()
        invariant
            i <= s@.len(),
            huge@ == "1e+400"@,
            huge@.len() == 6,
            mended(s@) == out@ + mended_from(s@, i as int, inside),
        decreases s.len() - i,
    {
        let ghost before = out@;
        let ghost rest = mended_from(s@, i as int, inside);
        if inside && check_surrogate(&s, i) {
            push_all(&mut out, "\\ufffd");
            out.push(s[i + 2]);
            out.push(s[i + 3]);
            out.push(s[i + 4]);
            out.push(s[i + 5]);
            assert(out@ =~= before + ("\\ufffd"@ + s@.subrange(i + 2, i + 6)));
            i = i + 6;
        } else if inside && s[i] == '\\' && s.len() - i > 1 {
            out.push(s[i]);
            out.push(s[i + 1]);
            assert(out@ =~= before + seq![s@[i as int], s@[i + 1]]);
            i = i + 2;
        } else if !inside && is_at(&s, &huge, i) {
            push_all(&mut out, "1e308");
            i = i + 6;
        } else {
            out.push(s[i]);
            assert(out@ =~= before + seq![s@[i as int]]);
            inside = inside != (s[i] == '"');
            i = i + 1;
        }
        assert(before + rest =~= out@ + mended_from(s@, i as int, inside));
    }
    assert(out@ + mended_from(s@, i as int, inside) =~= out@);
    assert(out@.subrange(0, out@.len() as int) =~= out@);
    text_of(&out, 0, out.len())
}

/// A printed tree with nothing to replace stays as it is.
pub proof fn law_mended_plain(s: Seq<char>)
    requires
        forall|i: int| !(#[trigger] surrogate_at(s, i)) && !has_at(s, "1e+400"@, i),
    ensures
        mended(s) == s,
{
    lemma_mended_plain(s, 0, false);
    assert(s.skip(0) =~= s);
}

proof fn lemma_mended_plain(s: Seq<char>, i: int, inside: bool)
    requires
        0 <= i <= s.len(),
        forall|k: int| !(#[trigger] surrogate_at(s, k)) && !has_at(s, "1e+400"@, k),
    ensures
        mended_from(s, i, inside) == s.skip(i),
    decreases s.len() - i,
{
    assert(!surrogate_at(s, i));
    if i == s.len() {
        assert(mended_from(s, i, inside) =~= s.skip(i));
    } else if inside && s[i] == '\\' && i + 1 < s.len() {
        lemma_mended_plain(s, i + 2, true);
        assert(seq![s[i], s[i + 1]] + s.skip(i + 2) =~= s.skip(i));
    } else {
        lemma_mended_plain(s, i + 1, inside != (s[i] == '"'));
        assert(seq![s[i]] + s.skip(i + 1) =~= s.skip(i));
    }
}

} // verus!
