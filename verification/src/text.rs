//! Text as sequences of characters: searching, splitting and comparing.

use vstd::prelude::*;

verus! {

/// The part of `s` in front of the first `c`, or all of `s` where `c` does not occur.
pub open spec fn before(s: Seq<char>, c: char) -> Seq<char> {
    match s.index_of_first(c) {
        Some(i) => s.take(i),
        None => s,
    }
}

/// The pieces of `s` between the occurrences of `c`: one more than there are occurrences.
pub open spec fn pieces(s: Seq<char>, c: char) -> Seq<Seq<char>>
    decreases s.len(),
{
    if !s.contains(c) {
        seq![s]
    } else {
        proof {
            lemma_before_is_prefix(s, c);
        }
        seq![before(s, c)] + pieces(s.skip(before(s, c).len() as int + 1), c)
    }
}

/// `c` with an upper-case ASCII letter lowered; every other character is itself.
pub open spec fn ascii_lower(c: char) -> char {
    if 'A' <= c <= 'Z' {
        (c as u32 + 32) as char
    } else {
        c
    }
}

/// Equality of texts up to the case of ASCII letters.
pub open spec fn same_ignoring_ascii_case(a: Seq<char>, b: Seq<char>) -> bool {
    &&& a.len() == b.len()
    &&& forall|i: int| 0 <= i < a.len() ==> ascii_lower(#[trigger] a[i]) == ascii_lower(b[i])
}

/// `before(s, c)` is a prefix of `s` without `c`, and `c` follows it where it is a proper one.
pub proof fn lemma_before_is_prefix(s: Seq<char>, c: char)
    ensures
        before(s, c).len() <= s.len(),
        before(s, c) == s.take(before(s, c).len() as int),
        !before(s, c).contains(c),
        s.contains(c) <==> before(s, c).len() < s.len(),
        before(s, c).len() < s.len() ==> s[before(s, c).len() as int] == c,
{
    s.index_of_first_ensures(c);
}

/// The first `c` is at `i`, or nowhere if `i` is the length.
pub proof fn lemma_before_at(s: Seq<char>, c: char, i: int)
    requires
        0 <= i <= s.len(),
        forall|j: int| 0 <= j < i ==> s[j] != c,
        i < s.len() ==> s[i] == c,
    ensures
        before(s, c) == s.take(i),
{
    lemma_before_is_prefix(s, c);
    let n = before(s, c).len();
    if i < n {
        assert(before(s, c)[i] == c);
    }
    assert(n == i);
}

/// Cutting at the first `c` takes off the first piece.
pub proof fn lemma_pieces_of_joined(first: Seq<char>, rest: Seq<char>, c: char)
    requires
        !first.contains(c),
    ensures
        pieces(first + seq![c] + rest, c) == seq![first] + pieces(rest, c),
{
    let s = first + seq![c] + rest;
    assert forall|j: int| 0 <= j < first.len() implies s[j] != c by {
        assert(s[j] == first[j]);
    }
    assert(s[first.len() as int] == c);
    lemma_before_at(s, c, first.len() as int);
    assert(s.take(first.len() as int) == first);
    assert(s.skip(first.len() as int + 1) == rest);
}

/// No piece holds the separator.
pub proof fn lemma_pieces_lack_separator(s: Seq<char>, c: char)
    ensures
        pieces(s, c).len() >= 1,
        forall|i: int| 0 <= i < pieces(s, c).len() ==> !(#[trigger] pieces(s, c)[i]).contains(c),
    decreases s.len(),
{
    if s.contains(c) {
        lemma_before_is_prefix(s, c);
        lemma_pieces_lack_separator(s.skip(before(s, c).len() as int + 1), c);
    }
}

/// The characters of `s`, in order.
pub fn chars_of(s: &str) -> (chars: Vec<char>)
    ensures
        chars@ == s@,
{
    let mut chars: Vec<char> = Vec::new();
    for c in it: s.chars()
        invariant
            it.seq() == s@,
            chars@ == s@.take(it.index() as int),
    {
        chars.push(c);
    }
    chars
}

/// Whether two texts hold the same characters.
pub fn same_text(a: &str, b: &str) -> (same: bool)
    ensures
        same == (a@ == b@),
{
    a.to_owned() == b.to_owned()
}

/// Whether `chars` begin with `prefix`.
pub fn has_prefix(chars: &Vec<char>, prefix: &str) -> (yes: bool)
    ensures
        yes == prefix@.is_prefix_of(chars@),
{
    let wanted = chars_of(prefix);
    if chars.len() < wanted.len() {
        return false;
    }
    for i in 0..wanted.len()
        invariant
            wanted@ == prefix@,
            wanted@.len() <= chars@.len(),
            wanted@.take(i as int) == chars@.take(i as int),
    {
        if chars[i] != wanted[i] {
            assert(chars@.subrange(0, wanted@.len() as int)[i as int] != wanted@[i as int]);
            return false;
        }
        assert(wanted@.take(i + 1) == wanted@.take(i as int).push(wanted@[i as int]));
        assert(chars@.take(i + 1) == chars@.take(i as int).push(chars@[i as int]));
    }
    assert(wanted@.take(wanted@.len() as int) == wanted@);
    true
}

/// Whether `chars` are the characters of `text`.
pub fn same_chars(chars: &Vec<char>, text: &str) -> (same: bool)
    ensures
        same == (chars@ == text@),
{
    assert(chars@.subrange(0, chars@.len() as int) == chars@);
    chars.len() == text.unicode_len() && has_prefix(chars, text)
}

/// The position of the first `c` at or after `from`, or the length where there is none.
pub fn find(chars: &Vec<char>, from: usize, c: char) -> (at: usize)
    requires
        from <= chars@.len(),
    ensures
        at == from + before(chars@.skip(from as int), c).len(),
        at <= chars@.len(),
{
    let mut at: usize = from;
    while at < chars.len() && chars[at] != c
        invariant
            from <= at <= chars@.len(),
            forall|j: int| from <= j < at ==> chars@[j] != c,
        decreases chars@.len() - at,
    {
        at = at + 1;
    }
    proof {
        lemma_before_at(chars@.skip(from as int), c, at - from);
    }
    at
}

/// The characters from `from` up to, and without, `to`.
pub fn slice_of(chars: &Vec<char>, from: usize, to: usize) -> (part: Vec<char>)
    requires
        from <= to <= chars@.len(),
    ensures
        part@ == chars@.subrange(from as int, to as int),
{
    let mut part: Vec<char> = Vec::new();
    for i in from..to
        invariant
            to <= chars@.len(),
            part@ == chars@.subrange(from as int, i as int),
    {
        part.push(chars[i]);
    }
    part
}

/// The text of the pieces of a split.
pub open spec fn views(parts: Seq<Vec<char>>) -> Seq<Seq<char>> {
    parts.map_values(|part: Vec<char>| part@)
}

/// Cuts `chars` at every `c`.
pub fn split(chars: &Vec<char>, c: char) -> (parts: Vec<Vec<char>>)
    ensures
        views(parts@) == pieces(chars@, c),
{
    let mut parts: Vec<Vec<char>> = Vec::new();
    let mut start: usize = 0;
    let mut end: usize = find(chars, 0, c);
    assert(chars@.skip(0) == chars@);
    while end < chars.len()
        invariant
            start <= end <= chars@.len(),
            end == start + before(chars@.skip(start as int), c).len(),
            views(parts@) + pieces(chars@.skip(start as int), c) == pieces(chars@, c),
        decreases chars@.len() - start,
    {
        let ghost rest = chars@.skip(start as int);
        let ghost done = views(parts@);
        proof {
            lemma_before_is_prefix(rest, c);
        }
        let part = slice_of(chars, start, end);
        parts.push(part);
        start = end + 1;
        end = find(chars, start, c);
        proof {
            assert(part@ == before(rest, c));
            assert(rest.skip(before(rest, c).len() as int + 1) == chars@.skip(start as int));
            assert(views(parts@) == done + seq![part@]);
            assert(views(parts@) + pieces(chars@.skip(start as int), c) == done + pieces(rest, c));
        }
    }
    proof {
        lemma_before_is_prefix(chars@.skip(start as int), c);
    }
    let ghost done = views(parts@);
    let part = slice_of(chars, start, end);
    parts.push(part);
    proof {
        assert(part@ == chars@.skip(start as int));
        assert(views(parts@) == done + seq![part@]);
    }
    parts
}

/// `c` with an upper-case ASCII letter lowered.
fn lower(c: char) -> (l: char)
    ensures
        l == ascii_lower(c),
{
    if 'A' <= c && c <= 'Z' {
        ((c as u8) + 32) as char
    } else {
        c
    }
}

/// Whether two texts are equal up to the case of ASCII letters.
pub fn equal_ignoring_ascii_case(a: &str, b: &str) -> (same: bool)
    ensures
        same == same_ignoring_ascii_case(a@, b@),
{
    let left = chars_of(a);
    let right = chars_of(b);
    if left.len() != right.len() {
        return false;
    }
    for i in 0..left.len()
        invariant
            left@ == a@,
            right@ == b@,
            left@.len() == right@.len(),
            forall|j: int| 0 <= j < i ==> ascii_lower(#[trigger] a@[j]) == ascii_lower(b@[j]),
    {
        if lower(left[i]) != lower(right[i]) {
            assert(ascii_lower(a@[i as int]) != ascii_lower(b@[i as int]));
            return false;
        }
    }
    true
}

/// Reading up to a character stops in front of its first occurrence, and nowhere else.
pub proof fn law_text_before_a_character(a: Seq<char>, c: char, b: Seq<char>)
    requires
        !a.contains(c),
    ensures
        before(a + seq![c] + b, c) == a,
        before(a, c) == a,
{
    let s = a + seq![c] + b;
    assert forall|j: int| 0 <= j < a.len() implies s[j] != c by {
        assert(s[j] == a[j]);
    }
    lemma_before_at(s, c, a.len() as int);
    assert(s.take(a.len() as int) == a);
    lemma_before_at(a, c, a.len() as int);
    assert(a.take(a.len() as int) == a);
}

/// A text is cut at every separator and only there: what precedes the first separator is the first
/// piece, and the rest is cut in the same way.
pub proof fn law_text_is_cut_at_separators(first: Seq<char>, c: char, rest: Seq<char>)
    requires
        !first.contains(c),
    ensures
        pieces(first, c) == seq![first],
        pieces(first + seq![c] + rest, c) == seq![first] + pieces(rest, c),
{
    lemma_pieces_of_joined(first, rest, c);
}

/// Two texts are equal up to case exactly where, position by position, they hold the same
/// character or the two forms of one ASCII letter.
pub proof fn law_case_of_ascii_letters_is_ignored(a: Seq<char>, b: Seq<char>)
    ensures
        same_ignoring_ascii_case(a, b) <==> {
            &&& a.len() == b.len()
            &&& forall|i: int|
                0 <= i < a.len() ==> {
                    ||| #[trigger] a[i] == b[i]
                    ||| 'A' <= a[i] <= 'Z' && b[i] as int == a[i] as int + 32
                    ||| 'A' <= b[i] <= 'Z' && a[i] as int == b[i] as int + 32
                }
        },
{
    if same_ignoring_ascii_case(a, b) {
        assert forall|i: int| 0 <= i < a.len() implies {
            ||| #[trigger] a[i] == b[i]
            ||| 'A' <= a[i] <= 'Z' && b[i] as int == a[i] as int + 32
            ||| 'A' <= b[i] <= 'Z' && a[i] as int == b[i] as int + 32
        } by {
            assert(ascii_lower(a[i]) == ascii_lower(b[i]));
        }
    }
}

} // verus!
