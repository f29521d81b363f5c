//! What the text helpers and the numerals are for: each operation is told by how its result and its
//! argument fit together.

use crate::decimal::{
    decimal_digits, decimal_text, digits_value, i64_of, is_digit, lemma_digits_round_trip, u32_of,
};
use crate::text::{
    after_prefix, before_suffix, blank, equal_ignoring_ascii_case, is_white_space,
    law_trimmed_ends, lemma_first_index, lemma_first_index_is, split_at_first, trimmed,
};
use vstd::prelude::*;

verus! {

/// A text has a prefix exactly if it is the prefix followed by something, and that is what remains.
pub proof fn law_prefix_comes_off(s: Seq<char>, prefix: Seq<char>, rest: Seq<char>)
    ensures
        after_prefix(s, prefix) == Some(rest) <==> s == prefix + rest,
        after_prefix(s, prefix) is None ==> s != prefix + rest,
{
    if s == prefix + rest {
        assert(prefix =~= s.subrange(0, prefix.len() as int));
        assert(s.skip(prefix.len() as int) =~= rest);
    }
    if after_prefix(s, prefix) == Some(rest) {
        assert(s =~= s.subrange(0, prefix.len() as int) + s.skip(prefix.len() as int));
    }
}

/// A text has a suffix exactly if it is something followed by the suffix, and that is what remains.
pub proof fn law_suffix_comes_off(s: Seq<char>, rest: Seq<char>, suffix: Seq<char>)
    ensures
        before_suffix(s, suffix) == Some(rest) <==> s == rest + suffix,
        before_suffix(s, suffix) is None ==> s != rest + suffix,
{
    if s == rest + suffix {
        assert(suffix =~= s.subrange(s.len() - suffix.len(), s.len() as int));
        assert(s.take(s.len() - suffix.len()) =~= rest);
    }
    if before_suffix(s, suffix) == Some(rest) {
        assert(s =~= s.take(s.len() - suffix.len()) + s.subrange(
            s.len() - suffix.len(),
            s.len() as int,
        ));
    }
}

/// A text is split into two exactly if it is the two with the separator between them, and the first
/// has no separator in it. It is not split exactly if it has no separator in it.
pub proof fn law_split_parts(s: Seq<char>, c: char, a: Seq<char>, b: Seq<char>)
    ensures
        split_at_first(s, c) == Some((a, b)) <==> (s == a + seq![c] + b && !a.contains(c)),
        split_at_first(s, c) is None <==> !s.contains(c),
{
    lemma_first_index(s, c);
    if s == a + seq![c] + b && !a.contains(c) {
        assert(s[a.len() as int] == c);
        assert forall|i: int| 0 <= i < a.len() implies s[i] != c by {
            assert(s[i] == a[i]);
            assert(a.contains(a[i]));
        }
        lemma_first_index_is(s, c, a.len() as int);
        assert(s.take(a.len() as int) =~= a);
        assert(s.skip(a.len() as int + 1) =~= b);
    }
    let at = crate::text::first_index(s, c);
    if at < s.len() {
        assert(s.contains(s[at]));
        assert(s =~= s.take(at) + seq![c] + s.skip(at + 1));
        assert(!s.take(at).contains(c));
    }
}

/// A text is blank exactly if each of its parts is, and a single character is blank exactly if it is
/// white space.
pub proof fn law_blank_parts(a: Seq<char>, b: Seq<char>, c: char)
    ensures
        blank(a + b) == (blank(a) && blank(b)),
        blank(seq![c]) == is_white_space(c),
        blank(Seq::<char>::empty()),
{
    if blank(a + b) {
        assert forall|i: int| 0 <= i < a.len() implies is_white_space(#[trigger] a[i]) by {
            assert((a + b)[i] == a[i]);
        }
        assert forall|i: int| 0 <= i < b.len() implies is_white_space(#[trigger] b[i]) by {
            assert((a + b)[a.len() + i] == b[i]);
        }
    }
    if blank(seq![c]) {
        assert(is_white_space(seq![c][0]));
    }
}

/// Trimming takes white space off the two ends, all of it and nothing else.
pub proof fn law_trimming_takes_white_space(s: Seq<char>) -> (ends: (Seq<char>, Seq<char>))
    ensures
        s == ends.0 + trimmed(s) + ends.1,
        forall|i: int| 0 <= i < ends.0.len() ==> is_white_space(#[trigger] ends.0[i]),
        forall|i: int| 0 <= i < ends.1.len() ==> is_white_space(#[trigger] ends.1[i]),
        trimmed(s).len() > 0 ==> !is_white_space(trimmed(s)[0]) && !is_white_space(
            trimmed(s)[trimmed(s).len() - 1],
        ),
    decreases s.len(),
{
    law_trimmed_ends(s);
    if s.len() == 0 {
        (Seq::empty(), Seq::empty())
    } else if is_white_space(s.first()) {
        let (a, b) = law_trimming_takes_white_space(s.drop_first());
        let front = seq![s.first()] + a;
        assert(s =~= seq![s.first()] + s.drop_first());
        assert(s =~= front + trimmed(s) + b);
        (front, b)
    } else if is_white_space(s.last()) {
        let (a, b) = law_trimming_takes_white_space(s.drop_last());
        let back = b + seq![s.last()];
        assert(s =~= s.drop_last() + seq![s.last()]);
        assert(s =~= a + trimmed(s) + back);
        (a, back)
    } else {
        assert(s =~= Seq::<char>::empty() + s + Seq::<char>::empty());
        (Seq::empty(), Seq::empty())
    }
}

/// Whether two characters are the same, or the capital and the small form of an ASCII letter.
pub open spec fn same_letter(a: char, b: char) -> bool {
    ||| a == b
    ||| 'A' <= a <= 'Z' && b as int == a as int + 32
    ||| 'A' <= b <= 'Z' && a as int == b as int + 32
}

/// Two texts are equal without regard to the case of ASCII letters exactly if they are, character by
/// character, the same or the two forms of a letter.
pub proof fn law_case_is_ignored(a: Seq<char>, b: Seq<char>)
    ensures
        equal_ignoring_ascii_case(a, b) <==> (a.len() == b.len() && forall|i: int|
            0 <= i < a.len() ==> same_letter(#[trigger] a[i], b[i])),
{
    if equal_ignoring_ascii_case(a, b) {
        assert forall|i: int| 0 <= i < a.len() implies same_letter(#[trigger] a[i], b[i]) by {}
    }
}

/// The decimal system: one more digit at the end makes a number ten times as large and adds the digit.
pub proof fn law_positional_notation(s: Seq<char>, c: char)
    requires
        '0' <= c <= '9',
    ensures
        digits_value(Seq::<char>::empty()) == 0,
        digits_value(s.push(c)) == 10 * digits_value(s) + (c as int - '0' as int),
{
    assert(s.push(c).drop_last() =~= s);
}

proof fn lemma_leading_zero(s: Seq<char>)
    ensures
        digits_value(seq!['0'] + s) == digits_value(s),
    decreases s.len(),
{
    let t = seq!['0'] + s;
    if s.len() == 0 {
        assert(t.drop_last() =~= Seq::<char>::empty());
        assert(t.last() == '0');
        assert(digits_value(t.drop_last()) == 0);
    } else {
        assert(t.drop_last() =~= seq!['0'] + s.drop_last());
        lemma_leading_zero(s.drop_last());
    }
}

/// The numeral of a number is made of digits, has no leading zero, and is read back as that number:
/// alone, after a sign, and after another zero. A number that is out of range is not read.
pub proof fn law_numerals_are_read(n: nat)
    ensures
        ({
            let digits = decimal_digits(n);
            &&& digits.len() > 0
            &&& forall|i: int| 0 <= i < digits.len() ==> '0' <= #[trigger] digits[i] <= '9'
            &&& n > 0 ==> digits[0] != '0'
            &&& i64_of(digits) == (if n <= i64::MAX {
                Some(n as i64)
            } else {
                None
            })
            &&& i64_of(seq!['+'] + digits) == i64_of(digits)
            &&& i64_of(seq!['0'] + digits) == i64_of(digits)
            &&& i64_of(seq!['-'] + digits) == (if n <= 0x8000_0000_0000_0000 {
                Some((-n) as i64)
            } else {
                None
            })
            &&& u32_of(digits) == (if n <= u32::MAX {
                Some(n as u32)
            } else {
                None
            })
            &&& u32_of(seq!['+'] + digits) == u32_of(digits)
            &&& u32_of(seq!['0'] + digits) == u32_of(digits)
            &&& u32_of(seq!['-'] + digits) is None
        }),
{
    let digits = decimal_digits(n);
    lemma_digits_round_trip(n);
    lemma_no_leading_zero(n);
    lemma_leading_zero(digits);
    assert forall|i: int| 0 <= i < digits.len() implies '0' <= #[trigger] digits[i] <= '9' by {
        assert(is_digit(digits[i]));
    }
    let plus = seq!['+'] + digits;
    let minus = seq!['-'] + digits;
    let zero = seq!['0'] + digits;
    assert(is_digit(digits[0]));
    assert(plus.skip(1) =~= digits);
    assert(minus.skip(1) =~= digits);
    assert forall|i: int| 0 <= i < zero.len() implies is_digit(#[trigger] zero[i]) by {
        if i > 0 {
            assert(is_digit(digits[i - 1]));
        }
    }
    assert(minus[0] == '-');
    assert(!is_digit(minus[0]));
}

proof fn lemma_no_leading_zero(n: nat)
    ensures
        n > 0 ==> decimal_digits(n)[0] != '0',
    decreases n,
{
    if n >= 10 {
        lemma_no_leading_zero(n / 10);
        lemma_digits_round_trip(n / 10);
        assert(decimal_digits(n)[0] == decimal_digits(n / 10)[0]);
    }
}

/// What is read as a number is a sign at most, and then digits, at least one; the sign of an unsigned
/// number is `+` at most.
pub proof fn law_only_numerals_are_read(s: Seq<char>, i: int)
    requires
        0 <= i < s.len(),
    ensures
        i64_of(s) is Some ==> '0' <= s[i] <= '9' || (i == 0 && s.len() > 1 && (s[0] == '+' || s[0]
            == '-')),
        u32_of(s) is Some ==> '0' <= s[i] <= '9' || (i == 0 && s.len() > 1 && s[0] == '+'),
        i64_of(Seq::<char>::empty()) is None,
        u32_of(Seq::<char>::empty()) is None,
{
    if !is_digit(s[i]) {
        if i > 0 {
            assert(s.skip(1)[i - 1] == s[i]);
            assert(!is_digit(s.skip(1)[i - 1]));
        }
    }
}

/// A negative number is written as a `-` and the number without it.
pub proof fn law_sign_is_written(n: int)
    requires
        n > 0,
    ensures
        decimal_text(-n) == seq!['-'] + decimal_text(n),
        decimal_text(n) == decimal_digits(n as nat),
        decimal_text(0) == seq!['0'],
{
    assert(decimal_digits(0) =~= seq!['0']);
}

} // verus!
