//! Text as sequences of characters: searching, splitting, joining.

use vstd::prelude::*;

verus! {

/// `String::push` appends one character.
pub assume_specification[ String::push ](s: &mut String, ch: char)
    ensures
        final(s)@ == old(s)@.push(ch),
;

/// `==` on texts compares their characters.
pub assume_specification[ <str as PartialEq>::eq ](s: &str, other: &str) -> (res: bool)
    ensures
        res == (s@ == other@),
;

/// Whether `p` stands in `s` at index `i`.
pub open spec fn has_at(s: Seq<char>, p: Seq<char>, i: int) -> bool {
    0 <= i && i + p.len() <= s.len() && s.subrange(i, i + p.len()) == p
}

/// The first index, at or after `from`, at which `p` stands in `s`.
pub open spec fn find_from(s: Seq<char>, p: Seq<char>, from: int) -> Option<int>
    decreases s.len() + 1 - from,
{
    if from < 0 || from + p.len() > s.len() {
        None
    } else if has_at(s, p, from) {
        Some(from)
    } else {
        find_from(s, p, from + 1)
    }
}

/// Whether `p` stands somewhere in `s`.
pub open spec fn contains(s: Seq<char>, p: Seq<char>) -> bool {
    exists|i: int| has_at(s, p, i)
}

/// A search finds the first place, and finds one where there is one.
pub proof fn lemma_find_from(s: Seq<char>, p: Seq<char>, from: int)
    requires
        0 <= from,
    ensures
        match find_from(s, p, from) {
            Some(i) => from <= i && has_at(s, p, i) && forall|k: int|
                from <= k < i ==> !has_at(s, p, k),
            None => forall|k: int| from <= k ==> !has_at(s, p, k),
        },
    decreases s.len() + 1 - from,
{
    if from + p.len() <= s.len() && !has_at(s, p, from) {
        lemma_find_from(s, p, from + 1);
    }
}

/// The parts of `s` between the separators `c`: one more than there are separators.
pub open spec fn split(s: Seq<char>, c: char) -> Seq<Seq<char>>
    decreases s.len(),
{
    if s.len() == 0 {
        seq![Seq::empty()]
    } else {
        let before = split(s.drop_last(), c);
        if s.last() == c {
            before.push(Seq::empty())
        } else {
            before.update(before.len() - 1, before.last().push(s.last()))
        }
    }
}

pub proof fn lemma_split_len(s: Seq<char>, c: char)
    ensures
        split(s, c).len() >= 1,
    decreases s.len(),
{
    if s.len() > 0 {
        lemma_split_len(s.drop_last(), c);
    }
}

/// The contents of a list of texts.
pub open spec fn texts(v: Seq<String>) -> Seq<Seq<char>> {
    v.map_values(|s: String| s@)
}

/// The texts with a separator between each two.
pub open spec fn join(parts: Seq<Seq<char>>, sep: Seq<char>) -> Seq<char>
    decreases parts.len(),
{
    if parts.len() == 0 {
        Seq::empty()
    } else if parts.len() == 1 {
        parts[0]
    } else {
        join(parts.drop_last(), sep) + sep + parts.last()
    }
}

/// Splitting a text and joining the parts gives the text back.
pub proof fn law_join_split(s: Seq<char>, c: char)
    ensures
        join(split(s, c), seq![c]) == s,
    decreases s.len(),
{
    lemma_split_len(s, c);
    if s.len() > 0 {
        let before = split(s.drop_last(), c);
        let now = split(s, c);
        law_join_split(s.drop_last(), c);
        lemma_split_len(s.drop_last(), c);
        if s.last() == c {
            assert(now.drop_last() =~= before);
            assert(join(now, seq![c]) =~= s);
        } else {
            assert(now.drop_last() =~= before.drop_last());
            assert(now.last() == before.last().push(s.last()));
            assert(s =~= s.drop_last().push(s.last()));
            if before.len() == 1 {
                assert(join(now, seq![c]) == now[0]);
            } else {
                let head = join(before.drop_last(), seq![c]) + seq![c];
                assert(join(now, seq![c]) == head + now.last());
                assert(head + before.last().push(s.last()) =~= (head + before.last()).push(
                    s.last(),
                ));
            }
        }
    }
}

/// The characters of a text.
pub fn chars_of(s: &str) -> (out: Vec<char>)
    ensures
        out@ == s@,
{
    let mut out: Vec<char> = Vec::new();
    for c in it: s.chars()
        invariant
            it.seq() == s@,
            out@ == s@.take(it.index()),
    {
        out.push(c);
        assert(out@ =~= s@.take(it.index() + 1));
    }
    assert(s@.take(s@.len() as int) =~= s@);
    out
}

/// The text made of the characters from `from` up to `to`.
pub fn text_of(chars: &[char], from: usize, to: usize) -> (out: String)
    requires
        from <= to <= chars@.len(),
    ensures
        out@ == chars@.subrange(from as int, to as int),
{
    let mut out = String::new();
    let mut i: usize = from;
    while i < to
        invariant
            from <= i <= to <= chars@.len(),
            out@ == chars@.subrange(from as int, i as int),
        decreases to - i,
    {
        out.push(chars[i]);
        i = i + 1;
        assert(out@ =~= chars@.subrange(from as int, i as int));
    }
    out
}

/// Whether two texts have the same characters.
pub fn same(a: &str, b: &str) -> (r: bool)
    ensures
        r == (a@ == b@),
{
    *a == *b
}

/// Whether `p` stands in `s` at index `i`.
pub fn is_at(s: &[char], p: &[char], i: usize) -> (r: bool)
    ensures
        r == has_at(s@, p@, i as int),
{
    if i > s.len() || s.len() - i < p.len() {
        return false;
    }
    let n: usize = s.len();
    let mut k: usize = 0;
    while k < p.len()
        invariant
            n == s@.len(),
            i + p@.len() <= n,
            k <= p@.len(),
            s@.subrange(i as int, i + k) == p@.take(k as int),
        decreases p.len() - k,
    {
        if s[i + k] != p[k] {
            assert(s@.subrange(i as int, i + p@.len())[k as int] != p@[k as int]);
            return false;
        }
        k = k + 1;
        assert(s@.subrange(i as int, i + k) =~= p@.take(k as int));
    }
    assert(p@.take(p@.len() as int) =~= p@);
    true
}

/// The first index, at or after `from`, at which `p` stands in `s`.
pub fn find(s: &[char], p: &[char], from: usize) -> (r: Option<usize>)
    ensures
        match r {
            Some(i) => find_from(s@, p@, from as int) == Some(i as int),
            None => find_from(s@, p@, from as int) is None,
        },
{
    let mut i: usize = from;
    while i <= s.len() && s.len() - i >= p.len()
        invariant
            from <= i,
            find_from(s@, p@, from as int) == find_from(s@, p@, i as int),
        decreases s.len() + 1 - i,
    {
        if is_at(s, p, i) {
            return Some(i);
        }
        if i == s.len() {
            assert(find_from(s@, p@, i + 1) is None);
            return None;
        }
        i = i + 1;
    }
    None
}

/// Whether `p` stands somewhere in `s`.
pub fn has_text(s: &str, p: &str) -> (r: bool)
    ensures
        r == contains(s@, p@),
{
    let a = chars_of(s);
    let b = chars_of(p);
    proof {
        lemma_find_from(s@, p@, 0);
    }
    let r = find(&a, &b, 0);
    match r {
        Some(_) => true,
        None => {
            assert forall|k: int| !has_at(s@, p@, k) by {}
            false
        },
    }
}

/// Whether `s` begins with `p`.
pub fn starts_with(s: &str, p: &str) -> (r: bool)
    ensures
        r == p@.is_prefix_of(s@),
{
    let a = chars_of(s);
    let b = chars_of(p);
    is_at(&a, &b, 0)
}

/// Whether `s` ends with `p`.
pub fn ends_with(s: &str, p: &str) -> (r: bool)
    ensures
        r == p@.is_suffix_of(s@),
{
    let a = chars_of(s);
    let b = chars_of(p);
    if b.len() > a.len() {
        return false;
    }
    is_at(&a, &b, a.len() - b.len())
}

/// The parts of `s` between the separators `c`.
pub fn split_on(s: &str, c: char) -> (out: Vec<String>)
    ensures
        texts(out@) == split(s@, c),
{
    let a = chars_of(s);
    let mut done: Vec<String> = Vec::new();
    let mut part = String::new();
    let mut i: usize = 0;
    assert(split(s@.take(0), c) =~= seq![Seq::<char>::empty()]);
    assert(texts(done@).push(part@) =~= seq![Seq::<char>::empty()]);
    while i < a.len()
        invariant
            a@ == s@,
            i <= a@.len(),
            texts(done@).push(part@) == split(s@.take(i as int), c),
        decreases a.len() - i,
    {
        let ghost before = split(s@.take(i as int), c);
        assert(s@.take(i + 1).drop_last() =~= s@.take(i as int));
        let ch = a[i];
        if ch == c {
            let ghost old_done = texts(done@);
            done.push(part);
            part = String::new();
            assert(texts(done@) =~= before);
            assert(texts(done@).push(part@) =~= split(s@.take(i + 1), c));
        } else {
            part.push(ch);
            assert(texts(done@).push(part@) =~= split(s@.take(i + 1), c));
        }
        i = i + 1;
    }
    assert(s@.take(s@.len() as int) =~= s@);
    let ghost old_done = texts(done@);
    done.push(part);
    assert(texts(done@) =~= old_done.push(part@));
    done
}

/// A text followed by another.
pub fn concat(a: &str, b: &str) -> (out: String)
    ensures
        out@ == a@ + b@,
{
    let mut out = a.to_owned();
    out.append(b);
    out
}

/// Three texts in a row.
pub fn concat3(a: &str, b: &str, c: &str) -> (out: String)
    ensures
        out@ == a@ + b@ + c@,
{
    let mut out = a.to_owned();
    out.append(b);
    out.append(c);
    out
}

/// Whether a character is one of the ten ASCII digits.
pub open spec fn is_digit(c: char) -> bool {
    '0' <= c && c <= '9'
}

/// Whether a text is one or more digits.
pub open spec fn is_decimal(s: Seq<char>) -> bool {
    s.len() > 0 && forall|i: int| 0 <= i < s.len() ==> is_digit(#[trigger] s[i])
}

/// The number that digits stand for.
pub open spec fn decimal_value(s: Seq<char>) -> nat
    decreases s.len(),
{
    if s.len() == 0 {
        0
    } else {
        decimal_value(s.drop_last()) * 10 + (s.last() as nat - '0' as nat) as nat
    }
}

/// The number that a text stands for, where it is made of digits and fits into 64 bits.
pub open spec fn decimal_u64(s: Seq<char>) -> Option<u64> {
    if is_decimal(s) && decimal_value(s) <= u64::MAX {
        Some(decimal_value(s) as u64)
    } else {
        None
    }
}

proof fn lemma_decimal_prefix(s: Seq<char>, n: int)
    requires
        0 <= n <= s.len(),
        forall|i: int| 0 <= i < s.len() ==> is_digit(#[trigger] s[i]),
    ensures
        decimal_value(s.take(n)) <= decimal_value(s),
    decreases s.len(),
{
    if n == s.len() {
        assert(s.take(n) =~= s);
    } else {
        lemma_decimal_prefix(s.drop_last(), n);
        assert(s.drop_last().take(n) =~= s.take(n));
    }
}

/// The number that the characters stand for, where they are digits and it fits into 64 bits.
pub fn parse_u64(s: &[char]) -> (r: Option<u64>)
    ensures
        r == decimal_u64(s@),
{
    if s.len() == 0 {
        return None;
    }
    let mut i: usize = 0;
    while i < s.len()
        invariant
            i <= s@.len(),
            forall|k: int| 0 <= k < i ==> is_digit(#[trigger] s@[k]),
        decreases s.len() - i,
    {
        if !(s[i] >= '0' && s[i] <= '9') {
            assert(!is_digit(s@[i as int]));
            return None;
        }
        i = i + 1;
    }
    let mut value: u64 = 0;
    let mut n: usize = 0;
    while n < s.len()
        invariant
            n <= s@.len(),
            is_decimal(s@),
            value == decimal_value(s@.take(n as int)),
        decreases s.len() - n,
    {
        let c = s[n];
        assert(is_digit(s@[n as int]));
        let d: u64 = c as u64 - '0' as u64;
        proof {
            assert(s@.take(n + 1).drop_last() =~= s@.take(n as int));
            lemma_decimal_prefix(s@, n + 1);
        }
        if value > (u64::MAX - d) / 10 {
            return None;
        }
        value = value * 10 + d;
        n = n + 1;
    }
    assert(s@.take(s@.len() as int) =~= s@);
    Some(value)
}

/// A path segment that names nothing.
pub open spec fn is_idle_segment(s: Seq<char>) -> bool {
    s.len() == 0 || s == seq!['.']
}

/// The last of the first `n` segments that names something.
pub open spec fn last_segment(parts: Seq<Seq<char>>, n: int) -> Option<Seq<char>>
    decreases n,
{
    if n <= 0 || n > parts.len() {
        None
    } else if is_idle_segment(parts[n - 1]) {
        last_segment(parts, n - 1)
    } else {
        Some(parts[n - 1])
    }
}

/// The final component of a path, where it names a file or a directory.
pub open spec fn file_name_of(path: Seq<char>) -> Option<Seq<char>> {
    let parts = split(path, '/');
    match last_segment(parts, parts.len() as int) {
        Some(s) => if s == seq!['.', '.'] {
            None
        } else {
            Some(s)
        },
        None => None,
    }
}

/// The index of the last `c` among the first `n` characters.
pub open spec fn last_index(s: Seq<char>, c: char, n: int) -> Option<int>
    decreases n,
{
    if n <= 0 || n > s.len() {
        None
    } else if s[n - 1] == c {
        Some(n - 1)
    } else {
        last_index(s, c, n - 1)
    }
}

/// What follows the last dot of a path's file name. A name whose only dot is its first
/// character has no extension.
pub open spec fn extension_of(path: Seq<char>) -> Option<Seq<char>> {
    match file_name_of(path) {
        Some(name) => match last_index(name, '.', name.len() as int) {
            Some(i) => if i == 0 {
                None
            } else {
                Some(name.skip(i + 1))
            },
            None => None,
        },
        None => None,
    }
}

/// The index of the last `c`.
pub fn rfind_char(s: &[char], c: char) -> (r: Option<usize>)
    ensures
        match r {
            Some(i) => last_index(s@, c, s@.len() as int) == Some(i as int) && i < s@.len(),
            None => last_index(s@, c, s@.len() as int) is None,
        },
{
    let mut n: usize = s.len();
    while n > 0
        invariant
            n <= s@.len(),
            last_index(s@, c, s@.len() as int) == last_index(s@, c, n as int),
        decreases n,
    {
        if s[n - 1] == c {
            return Some(n - 1);
        }
        n = n - 1;
    }
    None
}

/// The final component of a path, where it names a file or a directory.
pub fn file_name(path: &str) -> (r: Option<String>)
    ensures
        match r {
            Some(s) => file_name_of(path@) == Some(s@),
            None => file_name_of(path@) is None,
        },
{
    proof {
        reveal_strlit("");
        reveal_strlit(".");
        reveal_strlit("..");
        assert("."@ =~= seq!['.']);
        assert(".."@ =~= seq!['.', '.']);
    }
    let parts = split_on(path, '/');
    let ghost p = split(path@, '/');
    let mut n: usize = parts.len();
    while n > 0
        invariant
            n <= parts@.len(),
            texts(parts@) == p,
            p == split(path@, '/'),
            "."@ == seq!['.'],
            ".."@ == seq!['.', '.'],
            last_segment(p, p.len() as int) == last_segment(p, n as int),
        decreases n,
    {
        let s = parts[n - 1].as_str();
        assert(p[n - 1] == s@);
        if s.is_empty() || same(s, ".") {
            n = n - 1;
        } else if same(s, "..") {
            return None;
        } else {
            return Some(parts[n - 1].clone());
        }
    }
    None
}

/// What follows the last dot of a path's file name.
pub fn extension(path: &str) -> (r: Option<String>)
    ensures
        match r {
            Some(s) => extension_of(path@) == Some(s@),
            None => extension_of(path@) is None,
        },
{
    match file_name(path) {
        Some(name) => {
            let a = chars_of(name.as_str());
            let n: usize = a.len();
            match rfind_char(&a, '.') {
                Some(i) => if i == 0 {
                    None
                } else {
                    assert(a@.subrange(i + 1, a@.len() as int) =~= a@.skip(i + 1));
                    Some(text_of(&a, i + 1, n))
                },
                None => None,
            }
        },
        None => None,
    }
}

/// A path below a directory; an absolute path stands for itself.
pub open spec fn joined(dir: Seq<char>, path: Seq<char>) -> Seq<char> {
    if path.len() > 0 && path[0] == '/' {
        path
    } else if dir.len() > 0 && dir.last() != '/' {
        dir.push('/') + path
    } else {
        dir + path
    }
}

/// A path below a directory; an absolute path stands for itself.
pub fn join_path(dir: &str, path: &str) -> (out: String)
    ensures
        out@ == joined(dir@, path@),
{
    let p = chars_of(path);
    if p.len() > 0 && p[0] == '/' {
        return path.to_owned();
    }
    let d = chars_of(dir);
    let mut out = dir.to_owned();
    if d.len() > 0 && d[d.len() - 1] != '/' {
        out.push('/');
    }
    out.append(path);
    out
}

/// A line without the carriage return at its end.
pub open spec fn strip_cr(s: Seq<char>) -> Seq<char> {
    if s.len() > 0 && s.last() == '\r' {
        s.drop_last()
    } else {
        s
    }
}

/// The lines of a text. A line ends at a line feed, with or without a carriage return before
/// it; what follows the last line feed is a line of its own unless it is empty.
pub open spec fn lines_of(s: Seq<char>) -> Seq<Seq<char>> {
    let parts = split(s, '\n');
    let ended = parts.drop_last().map_values(|p: Seq<char>| strip_cr(p));
    if parts.last().len() == 0 {
        ended
    } else {
        ended.push(parts.last())
    }
}

/// The lines of a text.
pub fn lines(s: &str) -> (out: Vec<String>)
    ensures
        texts(out@) == lines_of(s@),
{
    let parts = split_on(s, '\n');
    let ghost p = split(s@, '\n');
    proof {
        lemma_split_len(s@, '\n');
    }
    let n: usize = parts.len();
    assert(n == p.len());
    let ghost ended = p.drop_last().map_values(|x: Seq<char>| strip_cr(x));
    let mut out: Vec<String> = Vec::new();
    let mut i: usize = 0;
    assert(texts(out@) =~= ended.take(0));
    while i < n - 1
        invariant
            n == parts@.len(),
            n >= 1,
            i <= n - 1,
            texts(parts@) == p,
            ended == p.drop_last().map_values(|x: Seq<char>| strip_cr(x)),
            texts(out@) == ended.take(i as int),
        decreases n - i,
    {
        let c = chars_of(parts[i].as_str());
        assert(p[i as int] == parts@[i as int]@);
        assert(p.drop_last()[i as int] == c@);
        let m: usize = c.len();
        let line = if m > 0 && c[m - 1] == '\r' {
            assert(c@.subrange(0, m - 1) =~= c@.drop_last());
            text_of(&c, 0, m - 1)
        } else {
            parts[i].clone()
        };
        let ghost before = texts(out@);
        out.push(line);
        assert(texts(out@) =~= before.push(ended[i as int]));
        i = i + 1;
        assert(texts(out@) =~= ended.take(i as int));
    }
    assert(ended.take(n - 1) =~= ended);
    assert(p.last() == parts@[n - 1]@);
    if !parts[n - 1].as_str().is_empty() {
        let ghost before = texts(out@);
        out.push(parts[n - 1].clone());
        assert(texts(out@) =~= before.push(p.last()));
    }
    out
}

/// The number of characters of texts.
pub open spec fn total_len(parts: Seq<Seq<char>>) -> nat
    decreases parts.len(),
{
    if parts.len() == 0 {
        0
    } else {
        total_len(parts.drop_last()) + parts.last().len()
    }
}

proof fn lemma_split_total(s: Seq<char>, c: char)
    ensures
        total_len(split(s, c)) <= s.len(),
    decreases s.len(),
{
    lemma_split_len(s, c);
    if s.len() > 0 {
        let before = split(s.drop_last(), c);
        let now = split(s, c);
        lemma_split_len(s.drop_last(), c);
        lemma_split_total(s.drop_last(), c);
        if s.last() == c {
            assert(now.drop_last() =~= before);
        } else {
            assert(now.drop_last() =~= before.drop_last());
            assert(now.last() == before.last().push(s.last()));
        }
    } else {
        assert(split(s, c).drop_last() =~= Seq::empty());
        assert(total_len(Seq::<Seq<char>>::empty()) == 0);
    }
}

proof fn lemma_total_shorter(a: Seq<Seq<char>>, b: Seq<Seq<char>>)
    requires
        a.len() <= b.len(),
        forall|i: int| 0 <= i < a.len() ==> (#[trigger] a[i]).len() <= b[i].len(),
    ensures
        total_len(a) <= total_len(b),
    decreases b.len(),
{
    if b.len() > 0 {
        if a.len() == b.len() {
            lemma_total_shorter(a.drop_last(), b.drop_last());
            assert(a[a.len() - 1].len() <= b[a.len() - 1].len());
        } else {
            lemma_total_shorter(a, b.drop_last());
        }
    }
}

/// The lines of a text have no more characters than the text.
pub proof fn lemma_lines_total(s: Seq<char>)
    ensures
        total_len(lines_of(s)) <= s.len(),
{
    lemma_split_total(s, '\n');
    lemma_split_len(s, '\n');
    lemma_total_shorter(lines_of(s), split(s, '\n'));
}

/// Whether a character has the Unicode property `White_Space`.
pub open spec fn is_space(c: char) -> bool {
    ('\u{9}' <= c && c <= '\u{d}') || c == ' ' || c == '\u{85}' || c == '\u{a0}' || c == '\u{1680}'
        || ('\u{2000}' <= c && c <= '\u{200a}') || c == '\u{2028}' || c == '\u{2029}' || c
        == '\u{202f}' || c == '\u{205f}' || c == '\u{3000}'
}

fn check_space(c: char) -> (r: bool)
    ensures
        r == is_space(c),
{
    (c >= '\u{9}' && c <= '\u{d}') || c == ' ' || c == '\u{85}' || c == '\u{a0}' || c == '\u{1680}'
        || (c >= '\u{2000}' && c <= '\u{200a}') || c == '\u{2028}' || c == '\u{2029}' || c
        == '\u{202f}' || c == '\u{205f}' || c == '\u{3000}'
}

/// A text without the white space at its beginning.
pub open spec fn trim_start(s: Seq<char>) -> Seq<char>
    decreases s.len(),
{
    if s.len() > 0 && is_space(s[0]) {
        trim_start(s.skip(1))
    } else {
        s
    }
}

/// A text without the white space at its end.
pub open spec fn trim_end(s: Seq<char>) -> Seq<char>
    decreases s.len(),
{
    if s.len() > 0 && is_space(s.last()) {
        trim_end(s.drop_last())
    } else {
        s
    }
}

/// A text without the white space at its beginning and its end.
pub open spec fn trimmed(s: Seq<char>) -> Seq<char> {
    trim_end(trim_start(s))
}

/// A text without the white space at its beginning and its end.
pub fn trim(s: &str) -> (out: String)
    ensures
        out@ == trimmed(s@),
{
    let c = chars_of(s);
    let n: usize = c.len();
    let mut i: usize = 0;
    assert(s@.skip(0) =~= s@);
    while i < n && check_space(c[i])
        invariant
            n == c@.len(),
            c@ == s@,
            i <= n,
            trim_start(s@) == trim_start(s@.skip(i as int)),
        decreases n - i,
    {
        assert(s@.skip(i as int).skip(1) =~= s@.skip(i + 1));
        i = i + 1;
    }
    let ghost head = s@.skip(i as int);
    assert(trim_start(s@) == head);
    let mut j: usize = n;
    assert(s@.subrange(i as int, n as int) =~= head);
    while j > i && check_space(c[j - 1])
        invariant
            n == c@.len(),
            c@ == s@,
            i <= j <= n,
            trim_end(head) == trim_end(s@.subrange(i as int, j as int)),
        decreases j,
    {
        assert(s@.subrange(i as int, j as int).drop_last() =~= s@.subrange(i as int, j - 1));
        j = j - 1;
    }
    text_of(&c, i, j)
}

/// The text with the first occurrence of `old` replaced by `new`.
pub open spec fn replaced_first(s: Seq<char>, old_text: Seq<char>, new_text: Seq<char>) -> Seq<
    char,
> {
    match find_from(s, old_text, 0) {
        Some(i) => s.take(i) + new_text + s.skip(i + old_text.len()),
        None => s,
    }
}

/// The text with the first occurrence of `old_text` replaced; `None` where there is none.
pub fn replace_first(s: &str, old_text: &str, new_text: &str) -> (r: Option<String>)
    ensures
        match r {
            Some(t) => contains(s@, old_text@) && t@ == replaced_first(s@, old_text@, new_text@),
            None => !contains(s@, old_text@),
        },
{
    let a = chars_of(s);
    let b = chars_of(old_text);
    proof {
        lemma_find_from(s@, old_text@, 0);
    }
    match find(&a, &b, 0) {
        Some(i) => {
            let n: usize = a.len();
            let mut out = text_of(&a, 0, i);
            out.append(new_text);
            let tail = text_of(&a, i + b.len(), n);
            out.append(tail.as_str());
            assert(s@.subrange(0, i as int) =~= s@.take(i as int));
            assert(s@.subrange(i + old_text@.len(), n as int) =~= s@.skip(i + old_text@.len()));
            Some(out)
        },
        None => {
            assert forall|k: int| !has_at(s@, old_text@, k) by {}
            None
        },
    }
}

/// How two values compare.
#[derive(Debug, Clone, Copy, PartialEq, Eq, Structural)]
pub enum Rank {
    Less,
    Same,
    More,
}

/// The order of two texts: by their first differing character, the shorter one first.
pub open spec fn text_rank(a: Seq<char>, b: Seq<char>) -> Rank
    decreases a.len(),
{
    if a.len() == 0 {
        if b.len() == 0 {
            Rank::Same
        } else {
            Rank::Less
        }
    } else if b.len() == 0 {
        Rank::More
    } else if a[0] < b[0] {
        Rank::Less
    } else if b[0] < a[0] {
        Rank::More
    } else {
        text_rank(a.skip(1), b.skip(1))
    }
}

/// The order of two texts.
pub fn rank_texts(a: &str, b: &str) -> (r: Rank)
    ensures
        r == text_rank(a@, b@),
{
    let x = chars_of(a);
    let y = chars_of(b);
    let mut i: usize = 0;
    assert(a@.skip(0) =~= a@);
    assert(b@.skip(0) =~= b@);
    while i < x.len() && i < y.len()
        invariant
            x@ == a@,
            y@ == b@,
            i <= x@.len(),
            i <= y@.len(),
            text_rank(a@, b@) == text_rank(a@.skip(i as int), b@.skip(i as int)),
        decreases x.len() - i,
    {
        assert(a@.skip(i as int)[0] == x@[i as int]);
        assert(b@.skip(i as int)[0] == y@[i as int]);
        if x[i] < y[i] {
            return Rank::Less;
        }
        if y[i] < x[i] {
            return Rank::More;
        }
        assert(a@.skip(i as int).skip(1) =~= a@.skip(i + 1));
        assert(b@.skip(i as int).skip(1) =~= b@.skip(i + 1));
        i = i + 1;
    }
    if i < y.len() {
        Rank::Less
    } else if i < x.len() {
        Rank::More
    } else {
        Rank::Same
    }
}

/// Two texts are of the same rank exactly where they are the same, and the rank of two texts
/// mirrors that of the texts exchanged.
pub proof fn law_text_rank(a: Seq<char>, b: Seq<char>)
    ensures
        text_rank(a, b) is Same <==> a == b,
        text_rank(a, b) is Less <==> text_rank(b, a) is More,
        text_rank(a, b) is More <==> text_rank(b, a) is Less,
    decreases a.len(),
{
    if a.len() > 0 && b.len() > 0 {
        law_text_rank(a.skip(1), b.skip(1));
        if a.skip(1) == b.skip(1) && a[0] == b[0] {
            assert(a =~= seq![a[0]] + a.skip(1));
            assert(b =~= seq![b[0]] + b.skip(1));
        }
    } else if a.len() == 0 && b.len() == 0 {
        assert(a =~= b);
    }
}

/// What comes before a text comes before whatever that text comes before.
pub proof fn law_text_rank_transitive(a: Seq<char>, b: Seq<char>, c: Seq<char>)
    requires
        text_rank(a, b) is Less,
        text_rank(b, c) is Less,
    ensures
        text_rank(a, c) is Less,
    decreases a.len(),
{
    if a.len() > 0 && b.len() > 0 && c.len() > 0 {
        if a[0] == b[0] && b[0] == c[0] {
            law_text_rank_transitive(a.skip(1), b.skip(1), c.skip(1));
        }
    }
}

/// The digit for a number below ten.
pub open spec fn digit(n: nat) -> char {
    if n == 0 {
        '0'
    } else if n == 1 {
        '1'
    } else if n == 2 {
        '2'
    } else if n == 3 {
        '3'
    } else if n == 4 {
        '4'
    } else if n == 5 {
        '5'
    } else if n == 6 {
        '6'
    } else if n == 7 {
        '7'
    } else if n == 8 {
        '8'
    } else {
        '9'
    }
}

/// A number in decimal notation.
pub open spec fn decimal(n: nat) -> Seq<char>
    decreases n,
{
    if n < 10 {
        seq![digit(n)]
    } else {
        decimal(n / 10).push(digit(n % 10))
    }
}

/// Reading the decimal notation of a number gives the number back.
pub proof fn law_decimal_value(n: nat)
    ensures
        is_decimal(decimal(n)),
        decimal_value(decimal(n)) == n,
    decreases n,
{
    if n < 10 {
        assert(decimal(n).drop_last() =~= Seq::empty());
        assert(decimal_value(Seq::empty()) == 0);
    } else {
        law_decimal_value(n / 10);
        assert(decimal(n).drop_last() =~= decimal(n / 10));
    }
}

fn digit_char(n: u64) -> (c: char)
    requires
        n < 10,
    ensures
        c == digit(n as nat),
{
    match n {
        0 => '0',
        1 => '1',
        2 => '2',
        3 => '3',
        4 => '4',
        5 => '5',
        6 => '6',
        7 => '7',
        8 => '8',
        _ => '9',
    }
}

/// A number in decimal notation.
pub fn show_number(n: u64) -> (out: String)
    ensures
        out@ == decimal(n as nat),
    decreases n,
{
    if n < 10 {
        let mut out = String::new();
        out.push(digit_char(n));
        assert(out@ =~= decimal(n as nat));
        out
    } else {
        let mut out = show_number(n / 10);
        out.push(digit_char(n % 10));
        out
    }
}

/// Joins texts with a separator.
pub fn join_texts(parts: &Vec<String>, sep: &str) -> (out: String)
    ensures
        out@ == join(texts(parts@), sep@),
{
    let ghost p = texts(parts@);
    let mut out = String::new();
    let mut i: usize = 0;
    assert(p.take(0) =~= Seq::empty());
    while i < parts.len()
        invariant
            p == texts(parts@),
            i <= parts@.len(),
            out@ == join(p.take(i as int), sep@),
        decreases parts.len() - i,
    {
        assert(p.take(i + 1).drop_last() =~= p.take(i as int));
        assert(p[i as int] == parts@[i as int]@);
        if i > 0 {
            out.append(sep);
        }
        out.append(parts[i].as_str());
        i = i + 1;
        assert(out@ =~= join(p.take(i as int), sep@));
    }
    assert(p.take(p.len() as int) =~= p);
    out
}

} // verus!
