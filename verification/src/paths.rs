//! The components of a path, and the order of paths.

use crate::text::{chars_of, join, join_texts, text_of,
    is_idle_segment, law_text_rank, law_text_rank_transitive, rank_texts, same, split, split_on,
    text_rank, texts, Rank,
};
use vstd::prelude::*;

verus! {

/// A component of a path.
#[derive(Debug, Clone, Copy, PartialEq, Eq, Structural)]
pub enum Part {
    /// The root directory.
    Root,
    /// The current directory, at the beginning of a path.
    Current,
    /// The parent directory.
    Parent,
    /// A directory or a file.
    Name,
}

/// What one segment of a path adds to its components.
pub open spec fn segment_part(s: Seq<char>) -> Seq<(Part, Seq<char>)> {
    if is_idle_segment(s) {
        Seq::empty()
    } else if s == ".."@ {
        seq![(Part::Parent, Seq::empty())]
    } else {
        seq![(Part::Name, s)]
    }
}

/// The components of the first `n` segments of a path.
pub open spec fn segment_parts(segments: Seq<Seq<char>>, n: int) -> Seq<(Part, Seq<char>)>
    decreases n,
{
    if n <= 0 || n > segments.len() {
        Seq::empty()
    } else {
        segment_parts(segments, n - 1) + segment_part(segments[n - 1])
    }
}

/// What a path begins with, before its names.
pub open spec fn leading_part(path: Seq<char>) -> Seq<(Part, Seq<char>)> {
    if path.len() > 0 && path[0] == '/' {
        seq![(Part::Root, Seq::empty())]
    } else if split(path, '/')[0] == "."@ {
        seq![(Part::Current, Seq::empty())]
    } else {
        Seq::empty()
    }
}

/// The components of a path. Repeated separators and inner dots stand for nothing.
pub open spec fn components(path: Seq<char>) -> Seq<(Part, Seq<char>)> {
    leading_part(path) + segment_parts(split(path, '/'), split(path, '/').len() as int)
}

/// The components of a path, in executable form.
pub open spec fn part_models(s: Seq<(Part, String)>) -> Seq<(Part, Seq<char>)> {
    s.map_values(|p: (Part, String)| (p.0, p.1@))
}

fn push_part(out: &mut Vec<(Part, String)>, part: Part, name: String)
    ensures
        part_models(final(out)@) == part_models(old(out)@).push((part, name@)),
{
    out.push((part, name));
    assert(part_models(out@) =~= part_models(old(out)@).push((part, name@)));
}

/// The components of a path.
pub fn parts_of(path: &str) -> (out: Vec<(Part, String)>)
    ensures
        part_models(out@) == components(path@),
{
    proof {
        reveal_strlit(".");
        reveal_strlit("..");
        reveal_strlit("/");
        assert("."@ =~= seq!['.']);
        assert(".."@ =~= seq!['.', '.']);
        assert("/"@ =~= seq!['/']);
    }
    let segments = split_on(path, '/');
    let ghost ss = split(path@, '/');
    proof {
        crate::text::lemma_split_len(path@, '/');
    }
    let mut out: Vec<(Part, String)> = Vec::new();
    assert(part_models(out@) =~= Seq::<(Part, Seq<char>)>::empty());
    assert(ss[0] == segments@[0]@);
    if crate::text::starts_with(path, "/") {
        assert(path@[0] == "/"@[0]);
        push_part(&mut out, Part::Root, String::new());
        assert(part_models(out@) =~= leading_part(path@));
    } else {
        assert(!(path@.len() > 0 && path@[0] == '/')) by {
            if path@.len() > 0 && path@[0] == '/' {
                assert("/"@.is_prefix_of(path@));
            }
        }
        if same(segments[0].as_str(), ".") {
            push_part(&mut out, Part::Current, String::new());
        }
        assert(part_models(out@) =~= leading_part(path@));
    }
    let ghost lead = leading_part(path@);
    let mut i: usize = 0;
    assert(part_models(out@) =~= lead + segment_parts(ss, 0));
    while i < segments.len()
        invariant
            ss == texts(segments@),
            i <= segments@.len(),
            "."@ == seq!['.'],
            ".."@ == seq!['.', '.'],
            part_models(out@) == lead + segment_parts(ss, i as int),
        decreases segments.len() - i,
    {
        let s = segments[i].as_str();
        assert(ss[i as int] == s@);
        let ghost before = part_models(out@);
        if !(s.is_empty() || same(s, ".")) {
            if same(s, "..") {
                push_part(&mut out, Part::Parent, String::new());
                assert(part_models(out@) =~= before + segment_part(s@));
            } else {
                push_part(&mut out, Part::Name, segments[i].clone());
                assert(part_models(out@) =~= before + segment_part(s@));
            }
        } else {
            assert(before =~= before + segment_part(s@));
        }
        i = i + 1;
        assert(part_models(out@) =~= lead + segment_parts(ss, i as int));
    }
    out
}

/// The place of a kind of component.
pub open spec fn part_place(p: Part) -> int {
    match p {
        Part::Root => 0,
        Part::Current => 1,
        Part::Parent => 2,
        Part::Name => 3,
    }
}

/// The order of two components: by their kind, then by their name.
pub open spec fn part_rank(a: (Part, Seq<char>), b: (Part, Seq<char>)) -> Rank {
    if part_place(a.0) < part_place(b.0) {
        Rank::Less
    } else if part_place(b.0) < part_place(a.0) {
        Rank::More
    } else {
        text_rank(a.1, b.1)
    }
}

/// The order of two lists of components: by the first that differ, the shorter one first.
pub open spec fn parts_rank(a: Seq<(Part, Seq<char>)>, b: Seq<(Part, Seq<char>)>) -> Rank
    decreases a.len(),
{
    if a.len() == 0 {
        if b.len() == 0 {
            Rank::Same
        } else {
            Rank::Less
        }
    } else if b.len() == 0 {
        Rank::More
    } else if part_rank(a[0], b[0]) is Same {
        parts_rank(a.skip(1), b.skip(1))
    } else {
        part_rank(a[0], b[0])
    }
}

/// The order of two paths.
pub open spec fn path_rank(a: Seq<char>, b: Seq<char>) -> Rank {
    parts_rank(components(a), components(b))
}

fn place_of(p: Part) -> (n: u8)
    ensures
        n == part_place(p),
{
    match p {
        Part::Root => 0,
        Part::Current => 1,
        Part::Parent => 2,
        Part::Name => 3,
    }
}

/// The order of two paths.
pub fn rank_paths(a: &str, b: &str) -> (r: Rank)
    ensures
        r == path_rank(a@, b@),
{
    let x = parts_of(a);
    let y = parts_of(b);
    let ghost p = components(a@);
    let ghost q = components(b@);
    let mut i: usize = 0;
    assert(p.skip(0) =~= p);
    assert(q.skip(0) =~= q);
    while i < x.len() && i < y.len()
        invariant
            p == components(a@),
            q == components(b@),
            p == part_models(x@),
            q == part_models(y@),
            i <= x@.len(),
            i <= y@.len(),
            parts_rank(p, q) == parts_rank(p.skip(i as int), q.skip(i as int)),
        decreases x.len() - i,
    {
        assert(p.skip(i as int)[0] == p[i as int]);
        assert(q.skip(i as int)[0] == q[i as int]);
        assert(p[i as int] == (x@[i as int].0, x@[i as int].1@));
        assert(q[i as int] == (y@[i as int].0, y@[i as int].1@));
        let m = place_of(x[i].0);
        let n = place_of(y[i].0);
        if m < n {
            return Rank::Less;
        }
        if n < m {
            return Rank::More;
        }
        match rank_texts(x[i].1.as_str(), y[i].1.as_str()) {
            Rank::Same => {},
            other => return other,
        }
        assert(p.skip(i as int).skip(1) =~= p.skip(i + 1));
        assert(q.skip(i as int).skip(1) =~= q.skip(i + 1));
        i = i + 1;
    }
    if i < y.len() {
        Rank::Less
    } else if i < x.len() {
        Rank::More
    } else {
        Rank::Same
    }
}

proof fn lemma_parts_rank(a: Seq<(Part, Seq<char>)>, b: Seq<(Part, Seq<char>)>)
    ensures
        parts_rank(a, b) is Same <==> a == b,
        parts_rank(a, b) is Less <==> parts_rank(b, a) is More,
    decreases a.len(),
{
    if a.len() > 0 && b.len() > 0 {
        law_text_rank(a[0].1, b[0].1);
        lemma_parts_rank(a.skip(1), b.skip(1));
        if a.skip(1) == b.skip(1) && a[0] == b[0] {
            assert(a =~= seq![a[0]] + a.skip(1));
            assert(b =~= seq![b[0]] + b.skip(1));
        }
    } else if a.len() == 0 && b.len() == 0 {
        assert(a =~= b);
    }
}

proof fn lemma_parts_rank_transitive(
    a: Seq<(Part, Seq<char>)>,
    b: Seq<(Part, Seq<char>)>,
    c: Seq<(Part, Seq<char>)>,
)
    requires
        parts_rank(a, b) is Less,
        parts_rank(b, c) is Less,
    ensures
        parts_rank(a, c) is Less,
    decreases a.len(),
{
    if a.len() > 0 && b.len() > 0 && c.len() > 0 {
        law_text_rank(a[0].1, b[0].1);
        law_text_rank(b[0].1, c[0].1);
        law_text_rank(a[0].1, c[0].1);
        let x = part_rank(a[0], b[0]);
        let y = part_rank(b[0], c[0]);
        if x is Same && y is Same {
            lemma_parts_rank_transitive(a.skip(1), b.skip(1), c.skip(1));
        } else if x is Less && y is Less && a[0].0 == b[0].0 && b[0].0 == c[0].0 {
            law_text_rank_transitive(a[0].1, b[0].1, c[0].1);
        }
    }
}

/// Two paths are of the same rank exactly where they have the same components, and exchanging
/// them mirrors their rank.
pub proof fn law_path_rank(a: Seq<char>, b: Seq<char>)
    ensures
        path_rank(a, b) is Same <==> components(a) == components(b),
        path_rank(a, b) is Less <==> path_rank(b, a) is More,
{
    lemma_parts_rank(components(a), components(b));
}

/// Whether two paths have the same components.
pub fn same_path(a: &str, b: &str) -> (r: bool)
    ensures
        r == (components(a@) == components(b@)),
{
    proof {
        law_path_rank(a@, b@);
    }
    matches!(rank_paths(a, b), Rank::Same)
}

/// What comes before a path comes before whatever that path comes before.
pub proof fn law_path_rank_transitive(a: Seq<char>, b: Seq<char>, c: Seq<char>)
    requires
        path_rank(a, b) is Less,
        path_rank(b, c) is Less,
    ensures
        path_rank(a, c) is Less,
{
    lemma_parts_rank_transitive(components(a), components(b), components(c));
}

/// Whether a name is one of a path's components.
pub open spec fn has_component(path: Seq<char>, name: Seq<char>) -> bool {
    components(path).contains((Part::Name, name))
}

/// Whether a name is one of a path's components.
pub fn path_has(path: &str, name: &str) -> (r: bool)
    ensures
        r == has_component(path@, name@),
{
    let parts = parts_of(path);
    let ghost p = components(path@);
    let mut i: usize = 0;
    while i < parts.len()
        invariant
            p == components(path@),
            p == part_models(parts@),
            i <= parts@.len(),
            forall|k: int| 0 <= k < i ==> (#[trigger] p[k]) != (Part::Name, name@),
        decreases parts.len() - i,
    {
        assert(p[i as int] == (parts@[i as int].0, parts@[i as int].1@));
        if parts[i].0 == Part::Name && same(parts[i].1.as_str(), name) {
            return true;
        }
        i = i + 1;
    }
    false
}

/// The index behind the first `k` segments, from index `i` on, that name something.
pub open spec fn behind_named(segments: Seq<Seq<char>>, i: int, k: int) -> int
    decreases segments.len() - i,
{
    if k <= 0 || i < 0 || i >= segments.len() {
        i
    } else if is_idle_segment(segments[i]) {
        behind_named(segments, i + 1, k)
    } else {
        behind_named(segments, i + 1, k - 1)
    }
}

/// The index of the first segment, from index `i` on, that names something; the end where none
/// does.
pub open spec fn next_named(segments: Seq<Seq<char>>, i: int) -> int
    decreases segments.len() - i,
{
    if i < 0 || i >= segments.len() || !is_idle_segment(segments[i]) {
        i
    } else {
        next_named(segments, i + 1)
    }
}

/// The index behind the last of the first `n` segments that names something.
pub open spec fn named_end(segments: Seq<Seq<char>>, n: int) -> int
    decreases n,
{
    if n <= 0 || n > segments.len() {
        0
    } else if is_idle_segment(segments[n - 1]) {
        named_end(segments, n - 1)
    } else {
        n
    }
}

/// The text of a path from one of its segments on, up to the last that names something.
pub open spec fn path_from(path: Seq<char>, start: int) -> Seq<char> {
    let segments = split(path, '/');
    let end = named_end(segments, segments.len() as int);
    if 0 <= start < end {
        join(segments.subrange(start, end), "/"@)
    } else {
        Seq::empty()
    }
}

/// What of a path stands below a directory; nothing where it does not lie there.
pub open spec fn below(path: Seq<char>, dir: Seq<char>) -> Option<Seq<char>> {
    let segments = split(path, '/');
    let lead = leading_part(path).len() as int;
    let taken = components(dir).len() as int;
    if !components(dir).is_prefix_of(components(path)) {
        None
    } else if taken > 0 {
        Some(path_from(path, next_named(segments, behind_named(segments, lead, taken - lead))))
    } else if named_end(segments, segments.len() as int) > 0 {
        Some(path_from(path, 0))
    } else {
        Some(path.take(lead))
    }
}

/// Whether a segment of a path names nothing.
fn check_idle(s: &str) -> (r: bool)
    ensures
        r == is_idle_segment(s@),
{
    proof {
        reveal_strlit(".");
        assert("."@ =~= seq!['.']);
    }
    s.is_empty() || same(s, ".")
}

fn text_from(segments: &Vec<String>, start: usize, Ghost(path): Ghost<Seq<char>>) -> (r: String)
    requires
        texts(segments@) == split(path, '/'),
    ensures
        r@ == path_from(path, start as int),
{
    let ghost ss = split(path, '/');
    let mut end: usize = segments.len();
    while end > 0 && check_idle(segments[end - 1].as_str())
        invariant
            end <= segments@.len(),
            ss == texts(segments@),
            named_end(ss, ss.len() as int) == named_end(ss, end as int),
        decreases end,
    {
        assert(ss[end - 1] == segments@[end - 1]@);
        end = end - 1;
    }
    assert(end > 0 ==> ss[end - 1] == segments@[end - 1]@);
    assert(named_end(ss, ss.len() as int) == end);
    let mut list: Vec<String> = Vec::new();
    let mut i: usize = start;
    while i < end
        invariant
            end <= segments@.len(),
            ss == texts(segments@),
            start <= i,
            start < end ==> i <= end,
            list@.len() == i - start,
            forall|k: int| 0 <= k < list@.len() ==> (#[trigger] list@[k])@ == ss[start + k],
        decreases end - i,
    {
        assert(ss[i as int] == segments@[i as int]@);
        list.push(segments[i].clone());
        i = i + 1;
    }
    if start < end {
        assert(texts(list@) =~= ss.subrange(start as int, end as int));
        join_texts(&list, "/")
    } else {
        let r = String::new();
        assert(r@ =~= Seq::<char>::empty());
        r
    }
}

/// Whether the components of a path begin with those of another.
fn has_prefix(parts: &Vec<(Part, String)>, prefix: &Vec<(Part, String)>) -> (r: bool)
    ensures
        r == part_models(prefix@).is_prefix_of(part_models(parts@)),
{
    let ghost a = part_models(parts@);
    let ghost b = part_models(prefix@);
    if prefix.len() > parts.len() {
        return false;
    }
    let mut i: usize = 0;
    while i < prefix.len()
        invariant
            a == part_models(parts@),
            b == part_models(prefix@),
            i <= prefix@.len() <= parts@.len(),
            forall|k: int| 0 <= k < i ==> a[k] == b[k],
        decreases prefix.len() - i,
    {
        assert(a[i as int] == (parts@[i as int].0, parts@[i as int].1@));
        assert(b[i as int] == (prefix@[i as int].0, prefix@[i as int].1@));
        if parts[i].0 != prefix[i].0 || !same(parts[i].1.as_str(), prefix[i].1.as_str()) {
            assert(a[i as int] != b[i as int]);
            assert(!b.is_prefix_of(a)) by {
                if b.is_prefix_of(a) {
                    assert(a.subrange(0, b.len() as int)[i as int] == a[i as int]);
                }
            }
            return false;
        }
        i = i + 1;
    }
    assert(a.subrange(0, b.len() as int) =~= b);
    true
}

/// What of a path stands below a directory; nothing where it does not lie there.
pub fn strip_dir(path: &str, dir: &str) -> (r: Option<String>)
    ensures
        (match r {
            Some(t) => Some(t@),
            None => None,
        }) == below(path@, dir@),
{
    let parts = parts_of(path);
    let taken = parts_of(dir);
    if !has_prefix(&parts, &taken) {
        return None;
    }
    let segments = split_on(path, '/');
    let ghost ss = split(path@, '/');
    proof {
        crate::text::lemma_split_len(path@, '/');
        reveal_strlit("/");
        reveal_strlit(".");
        assert("/"@ =~= seq!['/']);
        assert("."@ =~= seq!['.']);
    }
    assert(ss[0] == segments@[0]@);
    let chars = chars_of(path);
    let rooted = chars.len() > 0 && chars[0] == '/';
    let lead: usize = if rooted || same(segments[0].as_str(), ".") {
        1
    } else {
        0
    };
    assert(lead == leading_part(path@).len());
    let count: usize = taken.len();
    assert(count == components(dir@).len());
    if count > 0 {
        assert(lead <= count) by {
            if lead == 1 {
                assert(components(path@)[0] == leading_part(path@)[0]);
            }
        }
        let mut i: usize = lead;
        let mut k: usize = count - lead;
        while k > 0 && i < segments.len()
            invariant
                ss == texts(segments@),
                lead <= i,
                segments@.len() >= 1,
                i <= segments@.len(),
                behind_named(ss, lead as int, count - lead) == behind_named(ss, i as int, k as int),
            decreases segments.len() - i,
        {
            assert(ss[i as int] == segments@[i as int]@);
            if !check_idle(segments[i].as_str()) {
                k = k - 1;
            }
            i = i + 1;
        }
        assert(behind_named(ss, lead as int, count - lead) == i);
        while i < segments.len() && check_idle(segments[i].as_str())
            invariant
                ss == texts(segments@),
                i <= segments@.len(),
                next_named(ss, behind_named(ss, lead as int, count - lead)) == next_named(
                    ss,
                    i as int,
                ),
            decreases segments.len() - i,
        {
            assert(ss[i as int] == segments@[i as int]@);
            i = i + 1;
        }
        assert(i < segments@.len() ==> ss[i as int] == segments@[i as int]@);
        return Some(text_from(&segments, i, Ghost(path@)));
    }
    let mut end: usize = segments.len();
    while end > 0 && check_idle(segments[end - 1].as_str())
        invariant
            end <= segments@.len(),
            ss == texts(segments@),
            named_end(ss, ss.len() as int) == named_end(ss, end as int),
        decreases end,
    {
        assert(ss[end - 1] == segments@[end - 1]@);
        end = end - 1;
    }
    assert(end > 0 ==> ss[end - 1] == segments@[end - 1]@);
    if end > 0 {
        Some(text_from(&segments, 0, Ghost(path@)))
    } else {
        assert(lead <= chars@.len()) by {
            if !rooted && lead == 1 {
                crate::text::law_join_split(path@, '/');
            }
        }
        Some(text_of(&chars, 0, lead))
    }
}

} // verus!
