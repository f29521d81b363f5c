//! Text helpers: the few questions the crate asks of strings, each tied to the
//! string's sequence of characters.

use vstd::prelude::*;

verus! {

/// The characters that carry Unicode's `White_Space` property.
pub open spec fn is_white_space(c: char) -> bool {
    let u: u32 = c as u32;
    ||| 0x09 <= u <= 0x0d
    ||| u == 0x20
    ||| u == 0x85
    ||| u == 0xa0
    ||| u == 0x1680
    ||| 0x2000 <= u <= 0x200a
    ||| u == 0x2028
    ||| u == 0x2029
    ||| u == 0x202f
    ||| u == 0x205f
    ||| u == 0x3000
}

/// `char::is_whitespace` of the standard library: it answers whether the character
/// has the `White_Space` property, which [`is_white_space`] lists.
pub assume_specification[ char::is_whitespace ](c: char) -> (r: bool)
    ensures
        r == is_white_space(c),
;

/// Whether a text holds nothing but white space.
pub open spec fn blank(s: Seq<char>) -> bool {
    forall|i: int| 0 <= i < s.len() ==> is_white_space(#[trigger] s[i])
}

/// A text without the white space at its two ends.
pub open spec fn trimmed(s: Seq<char>) -> Seq<char>
    decreases s.len(),
{
    if s.len() == 0 {
        s
    } else if is_white_space(s.first()) {
        trimmed(s.drop_first())
    } else if is_white_space(s.last()) {
        trimmed(s.drop_last())
    } else {
        s
    }
}

/// The characters of a string, in order.
pub fn chars_of(s: &str) -> (chars: Vec<char>)
    ensures
        chars@ == s@,
{
    let mut chars: Vec<char> = Vec::new();
    for c in it: s.chars()
        invariant
            it.seq() == s@,
            chars@ == s@.take(it.index()),
    {
        chars.push(c);
        assert(s@.take(it.index() + 1) == s@.take(it.index()).push(c));
    }
    assert(s@.take(s@.len() as int) == s@);
    chars
}

/// Whether two strings hold the same characters.
pub fn same_text(a: &str, b: &str) -> (r: bool)
    ensures
        r == (a@ == b@),
{
    let left = chars_of(a);
    let right = chars_of(b);
    if left.len() != right.len() {
        return false;
    }
    let mut i: usize = 0;
    while i < left.len()
        invariant
            left@ == a@,
            right@ == b@,
            left.len() == right.len(),
            i <= left.len(),
            forall|j: int| 0 <= j < i ==> left@[j] == right@[j],
        decreases left.len() - i,
    {
        if left[i] != right[i] {
            return false;
        }
        i = i + 1;
    }
    assert(left@ =~= right@);
    true
}

/// Whether a string holds nothing but white space.
pub fn is_blank(s: &str) -> (r: bool)
    ensures
        r == blank(s@),
{
    let chars = chars_of(s);
    let mut i: usize = 0;
    while i < chars.len()
        invariant
            chars@ == s@,
            i <= chars.len(),
            forall|j: int| 0 <= j < i ==> is_white_space(#[trigger] s@[j]),
        decreases chars.len() - i,
    {
        if !chars[i].is_whitespace() {
            assert(!is_white_space(s@[i as int]));
            return false;
        }
        i = i + 1;
    }
    true
}

/// Removes the white space at the two ends of a string.
pub fn trim<'a>(s: &'a str) -> (r: &'a str)
    ensures
        r@ == trimmed(s@),
{
    let chars = chars_of(s);
    let len = chars.len();
    let mut start: usize = 0;
    assert(s@.subrange(0, len as int) == s@);
    while start < len && chars[start].is_whitespace()
        invariant
            chars@ == s@,
            len == chars.len(),
            start <= len,
            trimmed(s@.subrange(start as int, len as int)) == trimmed(s@),
        decreases len - start,
    {
        assert(s@.subrange(start as int, len as int).drop_first() == s@.subrange(
            start + 1,
            len as int,
        ));
        start = start + 1;
    }
    let mut end: usize = len;
    while start < end && chars[end - 1].is_whitespace()
        invariant
            chars@ == s@,
            len == chars.len(),
            start <= end <= len,
            start < end ==> !is_white_space(s@[start as int]),
            trimmed(s@.subrange(start as int, end as int)) == trimmed(s@),
        decreases end,
    {
        let ghost here = s@.subrange(start as int, end as int);
        assert(here.first() == s@[start as int]);
        assert(here.last() == s@[end - 1]);
        assert(here.drop_last() == s@.subrange(start as int, end - 1));
        end = end - 1;
    }
    proof {
        let rest = s@.subrange(start as int, end as int);
        if start < end {
            assert(rest.first() == s@[start as int]);
            assert(rest.last() == s@[end - 1]);
        }
        assert(trimmed(rest) == rest);
    }
    s.substring_char(start, end)
}

/// Whether a string begins with another.
pub fn starts_with(s: &str, prefix: &str) -> (r: bool)
    ensures
        r == prefix@.is_prefix_of(s@),
{
    let chars = chars_of(s);
    let front = chars_of(prefix);
    if front.len() > chars.len() {
        return false;
    }
    let mut i: usize = 0;
    while i < front.len()
        invariant
            chars@ == s@,
            front@ == prefix@,
            front.len() <= chars.len(),
            i <= front.len(),
            forall|j: int| 0 <= j < i ==> front@[j] == chars@[j],
        decreases front.len() - i,
    {
        if front[i] != chars[i] {
            assert(prefix@[i as int] != s@.subrange(0, prefix@.len() as int)[i as int]);
            return false;
        }
        i = i + 1;
    }
    assert(prefix@ =~= s@.subrange(0, prefix@.len() as int));
    true
}

/// What follows a prefix, where the text has it.
pub open spec fn after_prefix(s: Seq<char>, prefix: Seq<char>) -> Option<Seq<char>> {
    if prefix.is_prefix_of(s) {
        Some(s.skip(prefix.len() as int))
    } else {
        None
    }
}

/// What precedes a suffix, where the text has it.
pub open spec fn before_suffix(s: Seq<char>, suffix: Seq<char>) -> Option<Seq<char>> {
    if suffix.is_suffix_of(s) {
        Some(s.take(s.len() - suffix.len()))
    } else {
        None
    }
}

/// How many characters stand before the first `c`; the length where there is none.
pub open spec fn first_index(s: Seq<char>, c: char) -> int
    decreases s.len(),
{
    if s.len() == 0 || s.first() == c {
        0
    } else {
        1 + first_index(s.drop_first(), c)
    }
}

/// The texts on the two sides of the first `c`, where there is one.
pub open spec fn split_at_first(s: Seq<char>, c: char) -> Option<(Seq<char>, Seq<char>)> {
    let at = first_index(s, c);
    if at < s.len() {
        Some((s.take(at), s.skip(at + 1)))
    } else {
        None
    }
}

/// What [`first_index`] points at.
pub proof fn lemma_first_index(s: Seq<char>, c: char)
    ensures
        0 <= first_index(s, c) <= s.len(),
        first_index(s, c) < s.len() ==> s[first_index(s, c)] == c,
        forall|i: int| 0 <= i < first_index(s, c) ==> s[i] != c,
    decreases s.len(),
{
    if s.len() > 0 && s.first() != c {
        lemma_first_index(s.drop_first(), c);
        assert forall|i: int| 0 <= i < first_index(s, c) implies s[i] != c by {
            if i > 0 {
                assert(s.drop_first()[i - 1] == s[i]);
            }
        }
    }
}

/// [`first_index`] is the only index with `c` at it and none before it.
pub proof fn lemma_first_index_is(s: Seq<char>, c: char, at: int)
    requires
        0 <= at <= s.len(),
        at < s.len() ==> s[at] == c,
        forall|i: int| 0 <= i < at ==> s[i] != c,
    ensures
        first_index(s, c) == at,
{
    lemma_first_index(s, c);
}

/// Removes a prefix, where the string has it.
pub fn strip_prefix<'a>(s: &'a str, prefix: &str) -> (r: Option<&'a str>)
    ensures
        match r {
            Some(rest) => after_prefix(s@, prefix@) == Some(rest@),
            None => after_prefix(s@, prefix@) is None,
        },
{
    if starts_with(s, prefix) {
        Some(s.substring_char(prefix.unicode_len(), s.unicode_len()))
    } else {
        None
    }
}

/// Removes a suffix, where the string has it.
pub fn strip_suffix<'a>(s: &'a str, suffix: &str) -> (r: Option<&'a str>)
    ensures
        match r {
            Some(rest) => before_suffix(s@, suffix@) == Some(rest@),
            None => before_suffix(s@, suffix@) is None,
        },
{
    let len = s.unicode_len();
    let tail = suffix.unicode_len();
    if tail > len {
        return None;
    }
    if same_text(s.substring_char(len - tail, len), suffix) {
        assert(suffix@.is_suffix_of(s@));
        Some(s.substring_char(0, len - tail))
    } else {
        None
    }
}

/// Splits a string at the first `c`, where there is one.
pub fn split_once<'a>(s: &'a str, c: char) -> (r: Option<(&'a str, &'a str)>)
    ensures
        match r {
            Some((before, after)) => split_at_first(s@, c) == Some((before@, after@)),
            None => split_at_first(s@, c) is None,
        },
{
    let chars = chars_of(s);
    let mut at: usize = 0;
    while at < chars.len() && chars[at] != c
        invariant
            chars@ == s@,
            at <= chars.len(),
            forall|i: int| 0 <= i < at ==> s@[i] != c,
        decreases chars.len() - at,
    {
        at = at + 1;
    }
    proof {
        lemma_first_index_is(s@, c, at as int);
    }
    if at < chars.len() {
        Some((s.substring_char(0, at), s.substring_char(at + 1, chars.len())))
    } else {
        None
    }
}

/// An ASCII letter in lower case; any other character as it is.
pub open spec fn ascii_lower(c: char) -> char {
    if 'A' <= c <= 'Z' {
        ((c as u32) + 32) as char
    } else {
        c
    }
}

/// Whether two texts are equal once ASCII letters are taken in lower case.
pub open spec fn equal_ignoring_ascii_case(a: Seq<char>, b: Seq<char>) -> bool {
    &&& a.len() == b.len()
    &&& forall|i: int| 0 <= i < a.len() ==> ascii_lower(#[trigger] a[i]) == ascii_lower(b[i])
}

fn lower_ascii(c: char) -> (r: char)
    ensures
        r == ascii_lower(c),
{
    if 'A' <= c && c <= 'Z' {
        ((c as u8) + 32) as char
    } else {
        c
    }
}

/// Compares two strings without regard to the case of ASCII letters.
pub fn eq_ignore_ascii_case(a: &str, b: &str) -> (r: bool)
    ensures
        r == equal_ignoring_ascii_case(a@, b@),
{
    let left = chars_of(a);
    let right = chars_of(b);
    if left.len() != right.len() {
        return false;
    }
    let mut i: usize = 0;
    while i < left.len()
        invariant
            left@ == a@,
            right@ == b@,
            left.len() == right.len(),
            i <= left.len(),
            forall|j: int| 0 <= j < i ==> ascii_lower(#[trigger] a@[j]) == ascii_lower(b@[j]),
        decreases left.len() - i,
    {
        if lower_ascii(left[i]) != lower_ascii(right[i]) {
            assert(ascii_lower(a@[i as int]) != ascii_lower(b@[i as int]));
            return false;
        }
        i = i + 1;
    }
    true
}

/// A text is blank exactly if nothing is left of it once trimmed.
pub proof fn law_blank_text_trims_to_nothing(s: Seq<char>)
    ensures
        blank(s) == (trimmed(s).len() == 0),
    decreases s.len(),
{
    if s.len() > 0 {
        if is_white_space(s.first()) {
            law_blank_text_trims_to_nothing(s.drop_first());
            let rest = s.drop_first();
            if blank(rest) {
                assert forall|i: int| 0 <= i < s.len() implies is_white_space(#[trigger] s[i]) by {
                    if i > 0 {
                        assert(rest[i - 1] == s[i]);
                    }
                }
            } else {
                let i = choose|i: int| 0 <= i < rest.len() && !is_white_space(#[trigger] rest[i]);
                assert(!is_white_space(s[i + 1]));
            }
        } else {
            assert(!is_white_space(s[0]));
            lemma_trimmed_keeps_first(s);
        }
    }
}

proof fn lemma_trimmed_keeps_first(s: Seq<char>)
    requires
        s.len() > 0,
        !is_white_space(s.first()),
    ensures
        trimmed(s).len() > 0,
    decreases s.len(),
{
    if is_white_space(s.last()) {
        assert(s.drop_last().first() == s.first());
        lemma_trimmed_keeps_first(s.drop_last());
    }
}

/// A trimmed text neither begins nor ends with white space, and trimming it again changes nothing.
pub proof fn law_trimmed_ends(s: Seq<char>)
    ensures
        trimmed(s).len() > 0 ==> !is_white_space(trimmed(s).first()) && !is_white_space(
            trimmed(s).last(),
        ),
        trimmed(trimmed(s)) == trimmed(s),
    decreases s.len(),
{
    if s.len() > 0 {
        if is_white_space(s.first()) {
            law_trimmed_ends(s.drop_first());
        } else if is_white_space(s.last()) {
            law_trimmed_ends(s.drop_last());
        }
    }
}

} // verus!
