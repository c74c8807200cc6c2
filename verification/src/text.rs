//! Text as sequences of characters: the characters of a string, equality,
//! prefixes, suffixes and substrings.

use vstd::prelude::*;

verus! {

/// The characters of `s`, in order.
pub fn chars_of(s: &str) -> (r: Vec<char>)
    ensures
        r@ == s@,
{
    let mut r: Vec<char> = Vec::new();
    for c in it: s.chars()
        invariant
            it.seq() == s@,
            r@ == s@.take(it.index() as int),
    {
        r.push(c);
        assert(r@ =~= s@.take(it.index() + 1));
    }
    assert(r@ =~= s@);
    r
}

/// The texts of `parts`, one after the other.
pub open spec fn concat(parts: Seq<Seq<char>>) -> Seq<char>
    decreases parts.len(),
{
    if parts.len() == 0 {
        Seq::empty()
    } else {
        concat(parts.drop_last()) + parts.last()
    }
}

/// One more part adds its text at the end.
pub proof fn lemma_concat_step(parts: Seq<Seq<char>>, i: int)
    requires
        0 <= i < parts.len(),
    ensures
        concat(parts.take(i + 1)) == concat(parts.take(i)) + parts[i],
        concat(parts.take(0)) == Seq::<char>::empty(),
        concat(parts.take(parts.len() as int)) == concat(parts),
{
    assert(parts.take(i + 1).drop_last() =~= parts.take(i));
    assert(parts.take(0) =~= Seq::empty());
    assert(parts.take(parts.len() as int) =~= parts);
}

/// One text after another, where both are there; else what stands in place
/// of the first of them that is missing.
pub open spec fn followed_by<E>(first: Result<Seq<char>, E>, next: Result<Seq<char>, E>) -> Result<
    Seq<char>,
    E,
> {
    match first {
        Ok(before) => match next {
            Ok(after) => Ok(before + after),
            Err(e) => Err(e),
        },
        Err(e) => Err(e),
    }
}

/// The texts of `parts`, one after the other, where each of them is there;
/// else what stands in place of the first part that is missing.
pub open spec fn concat_all<E>(parts: Seq<Result<Seq<char>, E>>) -> Result<Seq<char>, E>
    decreases parts.len(),
{
    if parts.len() == 0 {
        Ok(Seq::empty())
    } else {
        followed_by(concat_all(parts.drop_last()), parts.last())
    }
}

/// One more part adds its text at the end, or makes the whole missing.
pub proof fn lemma_concat_all_step<E>(parts: Seq<Result<Seq<char>, E>>, i: int)
    requires
        0 <= i < parts.len(),
    ensures
        concat_all(parts.take(i + 1)) == followed_by(concat_all(parts.take(i)), parts[i]),
        concat_all(parts.take(0)) == Ok::<Seq<char>, E>(Seq::<char>::empty()),
        concat_all(parts.take(parts.len() as int)) == concat_all(parts),
{
    assert(parts.take(i + 1).drop_last() =~= parts.take(i));
    assert(parts.take(0) =~= Seq::empty());
    assert(parts.take(parts.len() as int) =~= parts);
}

/// Where a part is missing among the first `k`, the whole is missing what
/// they are.
pub proof fn lemma_concat_all_prefix<E>(parts: Seq<Result<Seq<char>, E>>, k: int)
    requires
        0 <= k <= parts.len(),
        concat_all(parts.take(k)) is Err,
    ensures
        concat_all(parts) == concat_all(parts.take(k)),
    decreases parts.len(),
{
    if k == parts.len() {
        assert(parts.take(k) =~= parts);
    } else {
        assert(parts.drop_last().take(k) =~= parts.take(k));
        lemma_concat_all_prefix(parts.drop_last(), k);
    }
}

/// Whether `s` begins with `p`.
pub open spec fn has_prefix(s: Seq<char>, p: Seq<char>) -> bool {
    p.len() <= s.len() && s.take(p.len() as int) == p
}

/// Whether `s` ends with `p`.
pub open spec fn has_suffix(s: Seq<char>, p: Seq<char>) -> bool {
    p.len() <= s.len() && s.skip(s.len() - p.len()) == p
}

/// Whether `needle` stands in `hay` at position `at`.
pub open spec fn occurs_at(hay: Seq<char>, needle: Seq<char>, at: int) -> bool {
    0 <= at && at + needle.len() <= hay.len() && hay.subrange(at, at + needle.len()) == needle
}

/// Whether `needle` stands somewhere in `hay`. The empty text stands in every text.
pub open spec fn contains_text(hay: Seq<char>, needle: Seq<char>) -> bool {
    exists|at: int| occurs_at(hay, needle, at)
}

/// The characters that count as white space: the Unicode property `White_Space`.
pub open spec fn is_space_char(c: char) -> bool {
    let code = c as u32;
    (9 <= code <= 13) || code == 32 || code == 0x85 || code == 0xa0 || code == 0x1680 || (0x2000
        <= code <= 0x200a) || code == 0x2028 || code == 0x2029 || code == 0x202f || code
        == 0x205f || code == 0x3000
}

/// How many characters of white space `s` begins with.
pub open spec fn leading_spaces(s: Seq<char>) -> nat
    decreases s.len(),
{
    if s.len() > 0 && is_space_char(s[0]) {
        1 + leading_spaces(s.drop_first())
    } else {
        0
    }
}

/// How many characters of white space `s` ends with.
pub open spec fn trailing_spaces(s: Seq<char>) -> nat
    decreases s.len(),
{
    if s.len() > 0 && is_space_char(s.last()) {
        1 + trailing_spaces(s.drop_last())
    } else {
        0
    }
}

/// How many characters stand in `s` before its first white space.
pub open spec fn word_len(s: Seq<char>) -> nat
    decreases s.len(),
{
    if s.len() > 0 && !is_space_char(s[0]) {
        1 + word_len(s.drop_first())
    } else {
        0
    }
}

/// `s` without the white space at its two ends.
pub open spec fn trim_text(s: Seq<char>) -> Seq<char> {
    let rest = s.skip(leading_spaces(s) as int);
    rest.take(rest.len() - trailing_spaces(rest))
}

/// The white space that `s` begins with is no longer than `s`, and made of
/// white space; the character after it, if any, is none.
pub proof fn lemma_leading_spaces(s: Seq<char>)
    ensures
        leading_spaces(s) <= s.len(),
        forall|i: int| 0 <= i < leading_spaces(s) ==> is_space_char(#[trigger] s[i]),
        leading_spaces(s) < s.len() ==> !is_space_char(s[leading_spaces(s) as int]),
    decreases s.len(),
{
    if s.len() > 0 && is_space_char(s[0]) {
        let t = s.drop_first();
        lemma_leading_spaces(t);
        assert forall|i: int| 0 <= i < leading_spaces(s) implies is_space_char(#[trigger] s[i]) by {
            if i > 0 {
                assert(s[i] == t[i - 1]);
            }
        }
        if leading_spaces(s) < s.len() {
            assert(s[leading_spaces(s) as int] == t[leading_spaces(t) as int]);
        }
    }
}

/// The mirror of `lemma_leading_spaces` for the end of `s`.
pub proof fn lemma_trailing_spaces(s: Seq<char>)
    ensures
        trailing_spaces(s) <= s.len(),
        forall|i: int| s.len() - trailing_spaces(s) <= i < s.len() ==> is_space_char(#[trigger] s[i]),
        trailing_spaces(s) < s.len() ==> !is_space_char(s[s.len() - trailing_spaces(s) - 1]),
    decreases s.len(),
{
    if s.len() > 0 && is_space_char(s.last()) {
        let t = s.drop_last();
        lemma_trailing_spaces(t);
        assert forall|i: int| s.len() - trailing_spaces(s) <= i < s.len() implies is_space_char(
            #[trigger] s[i],
        ) by {
            if i < s.len() - 1 {
                assert(s[i] == t[i]);
            }
        }
        if trailing_spaces(s) < s.len() {
            assert(s[s.len() - trailing_spaces(s) - 1] == t[t.len() - trailing_spaces(t) - 1]);
        }
    }
}

/// A run of white space at the start of `s` that ends before a character that
/// is none, or at the end of `s`, is all the white space `s` begins with.
pub proof fn lemma_leading_spaces_is(s: Seq<char>, n: int)
    requires
        0 <= n <= s.len(),
        forall|i: int| 0 <= i < n ==> is_space_char(#[trigger] s[i]),
        n < s.len() ==> !is_space_char(s[n]),
    ensures
        leading_spaces(s) == n,
{
    lemma_leading_spaces(s);
    let m = leading_spaces(s) as int;
    if m < n {
        assert(is_space_char(s[m]));
    } else if m > n {
        assert(is_space_char(s[n]));
    }
}

/// The mirror of `lemma_leading_spaces_is` for the end of `s`.
pub proof fn lemma_trailing_spaces_is(s: Seq<char>, n: int)
    requires
        0 <= n <= s.len(),
        forall|i: int| s.len() - n <= i < s.len() ==> is_space_char(#[trigger] s[i]),
        n < s.len() ==> !is_space_char(s[s.len() - n - 1]),
    ensures
        trailing_spaces(s) == n,
{
    lemma_trailing_spaces(s);
    let m = trailing_spaces(s) as int;
    if m < n {
        assert(is_space_char(s[s.len() - m - 1]));
    } else if m > n {
        assert(is_space_char(s[s.len() - n - 1]));
    }
}

/// The first word of `s` is no longer than `s` and holds no white space;
/// the character after it, if any, is white space.
pub proof fn lemma_word_len(s: Seq<char>)
    ensures
        word_len(s) <= s.len(),
        forall|i: int| 0 <= i < word_len(s) ==> !is_space_char(#[trigger] s[i]),
        word_len(s) < s.len() ==> is_space_char(s[word_len(s) as int]),
    decreases s.len(),
{
    if s.len() > 0 && !is_space_char(s[0]) {
        let t = s.drop_first();
        lemma_word_len(t);
        assert forall|i: int| 0 <= i < word_len(s) implies !is_space_char(#[trigger] s[i]) by {
            if i > 0 {
                assert(s[i] == t[i - 1]);
            }
        }
        if word_len(s) < s.len() {
            assert(s[word_len(s) as int] == t[word_len(t) as int]);
        }
    }
}

/// A run without white space at the start of `s` that ends before white
/// space, or at the end of `s`, is the first word of `s`.
pub proof fn lemma_word_len_is(s: Seq<char>, n: int)
    requires
        0 <= n <= s.len(),
        forall|i: int| 0 <= i < n ==> !is_space_char(#[trigger] s[i]),
        n < s.len() ==> is_space_char(s[n]),
    ensures
        word_len(s) == n,
{
    lemma_word_len(s);
    let m = word_len(s) as int;
    if m < n {
        assert(!is_space_char(s[m]));
    } else if m > n {
        assert(!is_space_char(s[n]));
    }
}

/// Whether `c` counts as white space.
pub fn is_space(c: char) -> (r: bool)
    ensures
        r == is_space_char(c),
{
    let code: u32 = c as u32;
    (9 <= code && code <= 13) || code == 32 || code == 0x85 || code == 0xa0 || code == 0x1680 || (
    0x2000 <= code && code <= 0x200a) || code == 0x2028 || code == 0x2029 || code == 0x202f
        || code == 0x205f || code == 0x3000
}

/// `s` without the white space at its two ends.
pub fn trim(s: &str) -> (r: &str)
    ensures
        r@ == trim_text(s@),
{
    let v = chars_of(s);
    let n = v.len();
    let mut from: usize = 0;
    while from < n && is_space(v[from])
        invariant
            from <= n,
            n == v@.len(),
            forall|i: int| 0 <= i < from ==> is_space_char(#[trigger] v@[i]),
        decreases n - from,
    {
        from = from + 1;
    }
    let mut to: usize = n;
    while to > from && is_space(v[to - 1])
        invariant
            from <= to <= n,
            n == v@.len(),
            forall|i: int| to <= i < n ==> is_space_char(#[trigger] v@[i]),
        decreases to,
    {
        to = to - 1;
    }
    proof {
        lemma_leading_spaces_is(v@, from as int);
        let rest = v@.skip(from as int);
        assert forall|i: int| rest.len() - (n - to) <= i < rest.len() implies is_space_char(
            #[trigger] rest[i],
        ) by {
            assert(rest[i] == v@[i + from]);
        }
        if n - to < rest.len() {
            assert(rest[rest.len() - (n - to) - 1] == v@[to - 1]);
        }
        lemma_trailing_spaces_is(rest, n - to);
        assert(s@.subrange(from as int, to as int) =~= trim_text(s@));
    }
    s.substring_char(from, to)
}

/// Whether `s` begins with `p`.
pub fn starts_with(s: &Vec<char>, p: &Vec<char>) -> (r: bool)
    ensures
        r == has_prefix(s@, p@),
{
    if p.len() > s.len() {
        return false;
    }
    matches_at(s, p, 0)
}

/// Whether `s` ends with `p`.
pub fn ends_with(s: &Vec<char>, p: &Vec<char>) -> (r: bool)
    ensures
        r == has_suffix(s@, p@),
{
    if p.len() > s.len() {
        return false;
    }
    let at = s.len() - p.len();
    let r = matches_at(s, p, at);
    assert(s@.skip(at as int) =~= s@.subrange(at as int, at + p@.len()));
    r
}

/// Whether `needle` stands in `hay` at position `at`.
pub fn matches_at(hay: &Vec<char>, needle: &Vec<char>, at: usize) -> (r: bool)
    requires
        at + needle@.len() <= hay@.len(),
    ensures
        r == occurs_at(hay@, needle@, at as int),
        at == 0 ==> r == has_prefix(hay@, needle@),
{
    let m = needle.len();
    let mut k: usize = 0;
    while k < m
        invariant
            k <= m,
            m == needle@.len(),
            at + m <= hay.len(),
            forall|i: int| 0 <= i < k ==> hay@[at + i] == needle@[i],
        decreases m - k,
    {
        if hay[at + k] != needle[k] {
            proof {
                let sub = hay@.subrange(at as int, at + m);
                assert(sub[k as int] == hay@[at + k]);
                if at == 0 {
                    assert(hay@.take(m as int)[k as int] == hay@[k as int]);
                }
            }
            return false;
        }
        k = k + 1;
    }
    assert(hay@.subrange(at as int, at + m) =~= needle@);
    if at == 0 {
        assert(hay@.take(m as int) =~= needle@);
    }
    true
}

/// Whether `needle` stands somewhere in `hay`.
pub fn contains(hay: &Vec<char>, needle: &Vec<char>) -> (r: bool)
    ensures
        r == contains_text(hay@, needle@),
{
    if needle.len() > hay.len() {
        assert(forall|at: int| !occurs_at(hay@, needle@, at));
        return false;
    }
    if needle.len() == 0 {
        assert(occurs_at(hay@, needle@, 0)) by {
            assert(hay@.subrange(0, 0) =~= needle@);
        }
        return true;
    }
    let last = hay.len() - needle.len();
    let mut at: usize = 0;
    while at <= last
        invariant
            at <= last + 1,
            last < hay.len(),
            last == hay@.len() - needle@.len(),
            forall|i: int| 0 <= i < at ==> !occurs_at(hay@, needle@, i),
        decreases last + 1 - at,
    {
        if matches_at(hay, needle, at) {
            return true;
        }
        at = at + 1;
    }
    assert(forall|i: int| !occurs_at(hay@, needle@, i));
    false
}

/// Whether the two texts are the same.
pub fn same_text(a: &Vec<char>, b: &Vec<char>) -> (r: bool)
    ensures
        r == (a@ == b@),
{
    if a.len() != b.len() {
        return false;
    }
    let r = matches_at(a, b, 0);
    assert(a@.take(a@.len() as int) =~= a@);
    r
}

} // verus!
