//! Lists of named values, in which a later entry stands for an earlier one of the same name.

use crate::text::same;
use vstd::prelude::*;

verus! {

/// The index of the last of the first `n` names that is the given one.
pub open spec fn last_index_of(names: Seq<Seq<char>>, name: Seq<char>, n: int) -> Option<int>
    decreases n,
{
    if n <= 0 || n > names.len() {
        None
    } else if names[n - 1] == name {
        Some(n - 1)
    } else {
        last_index_of(names, name, n - 1)
    }
}

/// The names in a list of named values.
pub open spec fn names_of<T>(s: Seq<(Seq<char>, T)>) -> Seq<Seq<char>> {
    Seq::new(s.len(), |i: int| s[i].0)
}

/// The value that a name has in a list.
pub open spec fn named<T>(s: Seq<(Seq<char>, T)>, name: Seq<char>) -> Option<T> {
    match last_index_of(names_of(s), name, s.len() as int) {
        Some(i) => Some(s[i].1),
        None => None,
    }
}

/// The names in a list.
pub open spec fn list_names<T>(s: Seq<(String, T)>) -> Seq<Seq<char>> {
    Seq::new(s.len(), |i: int| s[i].0@)
}

/// A name that is found is at the index where it is found.
pub proof fn lemma_last_index(names: Seq<Seq<char>>, name: Seq<char>, n: int)
    requires
        last_index_of(names, name, n) is Some,
    ensures
        0 <= last_index_of(names, name, n)->0 < n <= names.len(),
        names[last_index_of(names, name, n)->0] == name,
    decreases n,
{
    if names[n - 1] != name {
        lemma_last_index(names, name, n - 1);
    }
}

/// The index of the entry that gives a name its value.
pub fn find_named<T>(list: &Vec<(String, T)>, name: &str) -> (r: Option<usize>)
    ensures
        match r {
            Some(i) => i < list@.len() && last_index_of(
                list_names(list@),
                name@,
                list@.len() as int,
            ) == Some(i as int),
            None => last_index_of(list_names(list@), name@, list@.len() as int) is None,
        },
{
    let ghost names = list_names(list@);
    let mut n: usize = list.len();
    while n > 0
        invariant
            n <= list@.len(),
            names == list_names(list@),
            last_index_of(names, name@, list@.len() as int) == last_index_of(
                names,
                name@,
                n as int,
            ),
        decreases n,
    {
        assert(names[n - 1] == list@[n - 1].0@);
        if same(list[n - 1].0.as_str(), name) {
            return Some(n - 1);
        }
        n = n - 1;
    }
    None
}

/// How many of the first `n` names are not among some others.
pub open spec fn fresh(names: Seq<Seq<char>>, seen: Seq<Seq<char>>, n: int) -> nat
    decreases n,
{
    if n <= 0 || n > names.len() {
        0
    } else {
        fresh(names, seen, n - 1) + (if seen.contains(names[n - 1]) {
            0nat
        } else {
            1nat
        })
    }
}

/// How many of the names in a list are not among some others.
pub open spec fn fresh_names<T>(s: Seq<(Seq<char>, T)>, seen: Seq<Seq<char>>) -> nat {
    fresh(names_of(s), seen, s.len() as int)
}

proof fn lemma_fresh_less(names: Seq<Seq<char>>, seen: Seq<Seq<char>>, name: Seq<char>, n: int)
    ensures
        fresh(names, seen.push(name), n) <= fresh(names, seen, n),
        !seen.contains(name) && last_index_of(names, name, n) is Some ==> fresh(
            names,
            seen.push(name),
            n,
        ) < fresh(names, seen, n),
    decreases n,
{
    if 0 < n <= names.len() {
        lemma_fresh_less(names, seen, name, n - 1);
        let e = names[n - 1];
        let more = seen.push(name);
        assert(more[seen.len() as int] == name);
        if seen.contains(e) {
            let k = choose|k: int| 0 <= k < seen.len() && seen[k] == e;
            assert(more[k] == e);
        }
    }
}

/// Once a name of a list is marked as seen, fewer are left.
pub proof fn lemma_name_seen<T>(s: Seq<(Seq<char>, T)>, seen: Seq<Seq<char>>, name: Seq<char>)
    requires
        named(s, name) is Some,
        !seen.contains(name),
    ensures
        fresh_names(s, seen.push(name)) < fresh_names(s, seen),
{
    lemma_fresh_less(names_of(s), seen, name, s.len() as int);
}

} // verus!
