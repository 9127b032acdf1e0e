//! Pieces of a text, given by the offsets of their bytes.

use crate::text::{chars_of, text_of};
use vstd::prelude::*;

verus! {

/// The number of bytes that a character takes in UTF-8.
pub open spec fn utf8_len(c: char) -> nat {
    if (c as u32) < 0x80 {
        1
    } else if (c as u32) < 0x800 {
        2
    } else if (c as u32) < 0x10000 {
        3
    } else {
        4
    }
}

/// Where an offset lies in a text.
pub ghost enum PlaceV {
    /// Before the character at an index, or at the end.
    At(int),
    /// In the middle of a character.
    Inside,
    /// Behind the end.
    Past,
}

/// Where an offset lies in what follows the first `k` characters, which take `at` bytes.
pub open spec fn place_from(s: Seq<char>, k: int, at: int, offset: int) -> PlaceV
    decreases s.len() - k,
{
    if at == offset {
        PlaceV::At(k)
    } else if at > offset {
        PlaceV::Inside
    } else if k < 0 || k >= s.len() {
        PlaceV::Past
    } else {
        place_from(s, k + 1, at + utf8_len(s[k]), offset)
    }
}

/// Where an offset lies in a text.
pub open spec fn place(s: Seq<char>, offset: int) -> PlaceV {
    place_from(s, 0, 0, offset)
}

/// The text between two offsets, where both lie between characters.
pub open spec fn text_between(s: Seq<char>, start: int, end: int) -> Option<Seq<char>> {
    match (place(s, start), place(s, end)) {
        (PlaceV::At(p), PlaceV::At(q)) => if p <= q {
            Some(s.subrange(p, q))
        } else {
            None
        },
        _ => None,
    }
}

/// The index of the character at an offset; the end, where the offset lies behind it.
pub open spec fn capped_index(s: Seq<char>, offset: int) -> Option<int> {
    match place(s, offset) {
        PlaceV::At(k) => Some(k),
        PlaceV::Past => Some(s.len() as int),
        PlaceV::Inside => None,
    }
}

/// The text between two offsets, as far as it reaches; nothing where one of them lies in the
/// middle of a character.
pub open spec fn text_within(s: Seq<char>, start: int, end: int) -> Seq<char> {
    match (capped_index(s, start), capped_index(s, end)) {
        (Some(p), Some(q)) => if p <= q {
            s.subrange(p, q)
        } else {
            Seq::empty()
        },
        _ => Seq::empty(),
    }
}

/// Where an offset lies in a text.
#[derive(Debug, Clone, Copy)]
enum Place {
    At(usize),
    Inside,
    Past,
}

fn char_bytes(c: char) -> (n: u64)
    ensures
        n == utf8_len(c),
{
    let v = c as u32;
    if v < 0x80 {
        1
    } else if v < 0x800 {
        2
    } else if v < 0x10000 {
        3
    } else {
        4
    }
}

fn locate(chars: &Vec<char>, offset: u32) -> (r: Place)
    ensures
        match (r, place(chars@, offset as int)) {
            (Place::At(k), PlaceV::At(j)) => k == j && k <= chars@.len(),
            (Place::Inside, PlaceV::Inside) => true,
            (Place::Past, PlaceV::Past) => true,
            _ => false,
        },
{
    let target = offset as u64;
    let mut k: usize = 0;
    let mut at: u64 = 0;
    while k < chars.len() && at < target
        invariant
            target == offset,
            k <= chars@.len(),
            at <= target + 3,
            place(chars@, offset as int) == place_from(chars@, k as int, at as int, offset as int),
        decreases chars.len() - k,
    {
        at = at + char_bytes(chars[k]);
        k = k + 1;
    }
    if at == target {
        Place::At(k)
    } else if at > target {
        Place::Inside
    } else {
        Place::Past
    }
}

/// The text between two offsets, where both lie between characters.
pub fn slice_between(source: &str, start: u32, end: u32) -> (r: Option<String>)
    ensures
        (match r {
            Some(t) => Some(t@),
            None => None,
        }) == text_between(source@, start as int, end as int),
{
    let chars = chars_of(source);
    match (locate(&chars, start), locate(&chars, end)) {
        (Place::At(p), Place::At(q)) => if p <= q {
            Some(text_of(&chars, p, q))
        } else {
            None
        },
        _ => None,
    }
}

fn capped(chars: &Vec<char>, offset: u32) -> (r: Option<usize>)
    ensures
        match (r, capped_index(chars@, offset as int)) {
            (Some(k), Some(j)) => k == j && k <= chars@.len(),
            (None, None) => true,
            _ => false,
        },
{
    match locate(chars, offset) {
        Place::At(k) => Some(k),
        Place::Past => Some(chars.len()),
        Place::Inside => None,
    }
}

/// The text between two offsets, as far as it reaches.
pub fn slice_within(source: &str, start: u32, end: u32) -> (r: String)
    ensures
        r@ == text_within(source@, start as int, end as int),
{
    let chars = chars_of(source);
    match (capped(&chars, start), capped(&chars, end)) {
        (Some(p), Some(q)) => if p <= q {
            text_of(&chars, p, q)
        } else {
            String::new()
        },
        _ => String::new(),
    }
}

} // verus!
