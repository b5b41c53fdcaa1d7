//! What holds of every text that is measured, cut, parted or read.

use vstd::prelude::*;
#[allow(unused_imports)]
use vstd::utf8::encode_utf8;

#[allow(unused_imports)]
use crate::counter::next_number;
#[allow(unused_imports)]
use crate::text::{
    ascii_lower, char_position, decimal, decimal_text, digit, fit, fitting_prefix, is_white,
    lemma_fit, lower_is, lowered, parted, precedes, same_text, split_once, strip_prefix,
    strip_suffix, text_before, text_len, trim, trimmed,
};

verus! {

/// The first of a character is where it stands and did not stand before.
pub proof fn lemma_char_position(text: Seq<char>, c: char)
    ensures
        0 <= char_position(text, c) <= text.len(),
        char_position(text, c) < text.len() ==> text[char_position(text, c)] == c,
        forall|k: int| 0 <= k < char_position(text, c) ==> #[trigger] text[k] != c,
    decreases text.len(),
{
    if text.len() > 0 && text[0] != c {
        let rest = text.drop_first();
        lemma_char_position(rest, c);
        assert forall|k: int| 0 <= k < char_position(text, c) implies #[trigger] text[k] != c by {
            if k > 0 {
                assert(rest[k - 1] == text[k]);
            }
        }
    }
}

/// A text with a character in it is parted at the first one: the parts with the
/// character between them are the text, and the first part has none of it. A
/// text without the character is not parted.
pub proof fn a_text_is_parted_at_the_first(text: &str, c: char, parts: Option<(&str, &str)>)
    requires
        call_ensures(split_once, (text, c), parts),
    ensures
        parts is Some <==> text@.contains(c),
        parts matches Some((a, b)) ==> text@ == a@.push(c) + b@ && !a@.contains(c),
{
    lemma_char_position(text@, c);
    let at = char_position(text@, c);
    if at < text@.len() {
        assert(text@[at] == c);
        assert(text@ =~= text@.take(at).push(c) + text@.skip(at + 1));
        assert(!text@.take(at).contains(c));
    }
}

/// A prefix is taken off a text if and only if the text starts with it; the rest
/// follows it in the text.
pub proof fn a_prefix_is_taken_off(text: &str, prefix: &str, rest: Option<&str>)
    requires
        call_ensures(strip_prefix, (text, prefix), rest),
    ensures
        rest is Some <==> prefix@.is_prefix_of(text@),
        rest matches Some(rest) ==> text@ == prefix@ + rest@,
{
    if prefix@.is_prefix_of(text@) {
        assert(text@ =~= prefix@ + text@.skip(prefix@.len() as int));
    }
}

/// A suffix is taken off a text if and only if the text ends with it; the rest
/// comes before it in the text.
pub proof fn a_suffix_is_taken_off(text: &str, suffix: &str, rest: Option<&str>)
    requires
        call_ensures(strip_suffix, (text, suffix), rest),
    ensures
        rest is Some <==> suffix@.is_suffix_of(text@),
        rest matches Some(rest) ==> text@ == rest@ + suffix@,
{
    if suffix@.is_suffix_of(text@) {
        assert(text@ =~= text@.take(text@.len() - suffix@.len()) + suffix@);
    }
}

/// Two texts are the same if and only if they have the same characters.
pub proof fn texts_are_told_apart(a: &str, b: &str, same: bool)
    requires
        call_ensures(same_text, (a, b), same),
    ensures
        same <==> a@ == b@,
{
}

/// Capital letters count as small ones, and every other character as itself.
pub proof fn capitals_count_as_small_letters(text: &str, other: &str, is: bool)
    requires
        call_ensures(lower_is, (text, other), is),
    ensures
        is <==> text@.len() == other@.len() && forall|i: int|
            #![trigger text@[i]]
            0 <= i < text@.len() ==> (if 'A' <= text@[i] <= 'Z' {
                other@[i] as int == text@[i] as int + 32
            } else {
                other@[i] == text@[i]
            }),
{
    assert(lowered(text@).len() == text@.len());
    assert forall|i: int| 0 <= i < text@.len() implies #[trigger] lowered(text@)[i] == ascii_lower(
        text@[i],
    ) by {}
    let small = text@.len() == other@.len() && forall|i: int|
        #![trigger text@[i]]
        0 <= i < text@.len() ==> (if 'A' <= text@[i] <= 'Z' {
            other@[i] as int == text@[i] as int + 32
        } else {
            other@[i] == text@[i]
        });
    if is {
        assert forall|i: int| #![trigger text@[i]] 0 <= i < text@.len() implies (if 'A' <= text@[i]
            <= 'Z' {
            other@[i] as int == text@[i] as int + 32
        } else {
            other@[i] == text@[i]
        }) by {
            assert(lowered(text@)[i] == other@[i]);
        }
    }
    if small {
        assert forall|i: int| 0 <= i < text@.len() implies #[trigger] lowered(text@)[i]
            == other@[i] by {
            assert(lowered(text@)[i] == ascii_lower(text@[i]));
        }
        assert(lowered(text@) =~= other@);
    }
}

/// Whether a character is white space: a tab, a line or page feed, a carriage
/// return, a space of any width, or a separator of lines or paragraphs.
pub open spec fn is_blank(c: char) -> bool {
    c as u32 == 0x9 || c as u32 == 0xa || c as u32 == 0xb || c as u32 == 0xc || c as u32 == 0xd
        || c as u32 == 0x20 || c as u32 == 0x85 || c as u32 == 0xa0 || c as u32 == 0x1680 || 0x2000
        <= c as u32 <= 0x200a || c as u32 == 0x2028 || c as u32 == 0x2029 || c as u32 == 0x202f
        || c as u32 == 0x205f || c as u32 == 0x3000
}

/// Whether a text is white space alone.
pub open spec fn all_blank(text: Seq<char>) -> bool {
    forall|i: int| 0 <= i < text.len() ==> is_blank(#[trigger] text[i])
}

/// Whether a text is another one with white space around it.
pub open spec fn stands_within(inner: Seq<char>, text: Seq<char>) -> bool {
    exists|a: int, b: int|
        0 <= a <= b <= text.len() && #[trigger] text.subrange(a, b) == inner && all_blank(
            text.take(a),
        ) && all_blank(text.skip(b))
}

proof fn lemma_trimmed(text: Seq<char>)
    ensures
        stands_within(trimmed(text), text),
        trimmed(text).len() > 0 ==> !is_blank(trimmed(text)[0]) && !is_blank(trimmed(text).last()),
    decreases text.len(),
{
    if text.len() == 0 {
        assert(text.subrange(0, 0) =~= text);
        assert(all_blank(text.take(0)));
        assert(all_blank(text.skip(0)));
    } else if is_white(text[0]) {
        let rest = text.drop_first();
        lemma_trimmed(rest);
        let (a, b) = choose|a: int, b: int|
            0 <= a <= b <= rest.len() && #[trigger] rest.subrange(a, b) == trimmed(rest)
                && all_blank(rest.take(a)) && all_blank(rest.skip(b));
        assert(text.subrange(a + 1, b + 1) =~= rest.subrange(a, b));
        assert(text.skip(b + 1) =~= rest.skip(b));
        assert forall|i: int| 0 <= i < text.take(a + 1).len() implies is_blank(
            #[trigger] text.take(a + 1)[i],
        ) by {
            if i > 0 {
                assert(rest.take(a)[i - 1] == text.take(a + 1)[i]);
            }
        }
    } else if is_white(text.last()) {
        let rest = text.drop_last();
        lemma_trimmed(rest);
        let (a, b) = choose|a: int, b: int|
            0 <= a <= b <= rest.len() && #[trigger] rest.subrange(a, b) == trimmed(rest)
                && all_blank(rest.take(a)) && all_blank(rest.skip(b));
        assert(text.subrange(a, b) =~= rest.subrange(a, b));
        assert(text.take(a) =~= rest.take(a));
        assert forall|i: int| 0 <= i < text.skip(b).len() implies is_blank(
            #[trigger] text.skip(b)[i],
        ) by {
            if i < rest.skip(b).len() {
                assert(rest.skip(b)[i] == text.skip(b)[i]);
            }
        }
    } else {
        assert(text.subrange(0, text.len() as int) =~= text);
        assert(all_blank(text.take(0)));
        assert(all_blank(text.skip(text.len() as int)));
    }
}

/// A trimmed text stands in the text with white space alone around it, and
/// neither starts nor ends with any.
pub proof fn trimming_takes_off_white_space_alone(text: &str, inner: &str)
    requires
        call_ensures(trim, (text,), inner),
    ensures
        stands_within(inner@, text@),
        inner@.len() > 0 ==> !is_blank(inner@[0]) && !is_blank(inner@.last()),
{
    lemma_trimmed(text@);
}

/// The number that decimal digits stand for.
pub open spec fn read_number(digits: Seq<char>) -> int
    decreases digits.len(),
{
    if digits.len() == 0 {
        0
    } else {
        10 * read_number(digits.drop_last()) + (digits.last() as int - '0' as int)
    }
}

proof fn lemma_decimal(n: nat)
    ensures
        read_number(decimal(n)) == n,
        decimal(n).len() > 0,
        forall|i: int| 0 <= i < decimal(n).len() ==> '0' <= #[trigger] decimal(n)[i] <= '9',
        n > 0 ==> decimal(n)[0] != '0',
        n == 0 ==> decimal(n).len() == 1,
    decreases n,
{
    if n < 10 {
        let text = decimal(n);
        assert(text.drop_last() =~= Seq::<char>::empty());
        assert(read_number(text.drop_last()) == 0);
        assert(digit(n) as int == n + '0' as int);
    } else {
        let before = decimal(n / 10);
        lemma_decimal(n / 10);
        assert(decimal(n).drop_last() =~= before);
        assert(digit(n % 10) as int == n % 10 + '0' as int);
        assert(decimal(n)[0] == before[0]);
    }
}

/// A number is written in decimal digits that stand for it, without leading
/// zeros.
pub proof fn a_number_is_written_in_digits(n: u64, text: String)
    requires
        call_ensures(decimal_text, (n,), text),
    ensures
        read_number(text@) == n,
        text@.len() > 0,
        forall|i: int| 0 <= i < text@.len() ==> '0' <= #[trigger] text@[i] <= '9',
        n > 0 ==> text@[0] != '0',
        n == 0 ==> text@.len() == 1,
{
    lemma_decimal(n as nat);
}

/// The length of a text is the number of its bytes.
pub proof fn a_text_is_measured_in_bytes(text: &str, len: usize)
    requires
        call_ensures(text_len, (text,), len),
    ensures
        len == encode_utf8(text@).len(),
{
}

/// A text is cut to the longest start that keeps to the limit.
pub proof fn a_text_is_cut_as_late_as_can_be(text: &str, cap: usize, prefix: &str)
    requires
        call_ensures(fitting_prefix, (text, cap), prefix),
    ensures
        prefix@.is_prefix_of(text@),
        encode_utf8(prefix@).len() <= cap,
        prefix@.len() < text@.len() ==> encode_utf8(text@.take(prefix@.len() as int + 1)).len()
            > cap,
{
    lemma_fit(text@, cap as nat);
    let n = fit(text@, cap as nat) as int;
    assert(text@.take(n).is_prefix_of(text@));
}

/// Whether the first difference of two texts is at an index, and puts one before
/// the other: it ends there, or has the smaller character.
pub open spec fn differs_at(a: Seq<char>, b: Seq<char>, k: int) -> bool {
    &&& 0 <= k <= a.len()
    &&& k < b.len()
    &&& a.take(k) == b.take(k)
    &&& k == a.len() || a[k] < b[k]
}

proof fn lemma_precedes(a: Seq<char>, b: Seq<char>)
    ensures
        precedes(a, b) <==> exists|k: int| differs_at(a, b, k),
    decreases a.len(),
{
    if b.len() > 0 && a.len() > 0 && a[0] == b[0] {
        let x = a.drop_first();
        let y = b.drop_first();
        lemma_precedes(x, y);
        if precedes(a, b) {
            let k = choose|k: int| differs_at(x, y, k);
            assert(a.take(k + 1) =~= seq![a[0]] + x.take(k));
            assert(b.take(k + 1) =~= seq![b[0]] + y.take(k));
            assert(differs_at(a, b, k + 1));
        }
        if exists|k: int| differs_at(a, b, k) {
            let k = choose|k: int| differs_at(a, b, k);
            assert(k > 0);
            assert(x.take(k - 1) =~= a.take(k).drop_first());
            assert(y.take(k - 1) =~= b.take(k).drop_first());
            assert(differs_at(x, y, k - 1));
        }
    } else if b.len() > 0 {
        if precedes(a, b) {
            assert(a.take(0) =~= b.take(0));
            assert(differs_at(a, b, 0));
        }
        if exists|k: int| differs_at(a, b, k) {
            let k = choose|k: int| differs_at(a, b, k);
            if k > 0 {
                assert(a.take(k)[0] == a[0]);
                assert(b.take(k)[0] == b[0]);
            }
        }
    }
}

/// A text comes before another if it is its start, or has the smaller character
/// where they first differ.
pub proof fn texts_are_ordered_by_their_first_difference(a: &str, b: &str, is: bool)
    requires
        call_ensures(text_before, (a, b), is),
    ensures
        is <==> exists|k: int| differs_at(a@, b@, k),
{
    lemma_precedes(a@, b@);
}

/// Numbers count up by one, and start again at 0 after the largest.
pub proof fn numbers_count_up(number: u64, next: u64)
    requires
        call_ensures(next_number, (number,), next),
    ensures
        number < u64::MAX ==> next == number + 1,
        number == u64::MAX ==> next == 0,
{
}

} // verus!
