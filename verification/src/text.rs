//! Text measured in UTF-8 bytes, cut at character boundaries.

use vstd::prelude::*;
use vstd::utf8::encode_utf8;

verus! {

/// The number of bytes that `text` takes in UTF-8.
pub open spec fn byte_len(text: Seq<char>) -> nat {
    encode_utf8(text).len()
}

/// The length, in characters, of the longest prefix of `text` that takes at
/// most `cap` bytes.
pub open spec fn fit(text: Seq<char>, cap: nat) -> nat
    decreases text.len(),
{
    if text.len() == 0 || byte_len(text) <= cap {
        text.len()
    } else {
        fit(text.drop_last(), cap)
    }
}

/// The longest prefix of `text` that takes at most `cap` bytes.
pub open spec fn fitting(text: Seq<char>, cap: nat) -> Seq<char> {
    text.take(fit(text, cap) as int)
}

/// The bytes of a concatenation are the bytes of its parts, one after the other.
pub proof fn lemma_encode_concat(a: Seq<char>, b: Seq<char>)
    ensures
        encode_utf8(a + b) == encode_utf8(a) + encode_utf8(b),
        byte_len(a + b) == byte_len(a) + byte_len(b),
    decreases a.len(),
{
    if a.len() == 0 {
        assert(a + b =~= b);
        assert(encode_utf8(a) + encode_utf8(b) =~= encode_utf8(b));
    } else {
        assert((a + b).drop_first() =~= a.drop_first() + b);
        lemma_encode_concat(a.drop_first(), b);
        assert(encode_utf8(a + b) =~= encode_utf8(a) + encode_utf8(b));
    }
}

/// Two texts with the same bytes are the same text.
pub proof fn lemma_encode_injective(a: Seq<char>, b: Seq<char>)
    requires
        encode_utf8(a) == encode_utf8(b),
    ensures
        a == b,
{
    vstd::utf8::encode_utf8_decode_utf8(a);
    vstd::utf8::encode_utf8_decode_utf8(b);
}

/// A longer prefix takes at least as many bytes.
proof fn lemma_prefix_len(text: Seq<char>, n: int)
    requires
        0 <= n <= text.len(),
    ensures
        byte_len(text.take(n)) <= byte_len(text),
{
    assert(text =~= text.take(n) + text.skip(n));
    lemma_encode_concat(text.take(n), text.skip(n));
}

/// The cut of `fit` is within the cap, and one more character would not be.
pub proof fn lemma_fit(text: Seq<char>, cap: nat)
    ensures
        fit(text, cap) <= text.len(),
        byte_len(fitting(text, cap)) <= cap,
        fit(text, cap) < text.len() ==> byte_len(text.take(fit(text, cap) as int + 1)) > cap,
        byte_len(text) <= cap <==> fit(text, cap) == text.len(),
    decreases text.len(),
{
    if text.len() == 0 || byte_len(text) <= cap {
        assert(text.take(text.len() as int) =~= text);
    } else {
        let shorter = text.drop_last();
        lemma_fit(shorter, cap);
        let n = fit(shorter, cap) as int;
        assert(text.take(n) =~= shorter.take(n));
        if n < shorter.len() {
            assert(text.take(n + 1) =~= shorter.take(n + 1));
        } else {
            assert(text.take(n + 1) =~= text);
        }
    }
}

/// A cut that is within the cap and cannot be moved on is the cut of `fit`.
proof fn lemma_fit_unique(text: Seq<char>, cap: nat, n: int)
    requires
        0 <= n < text.len(),
        byte_len(text.take(n)) <= cap,
        byte_len(text.take(n + 1)) > cap,
    ensures
        fit(text, cap) == n,
{
    lemma_fit(text, cap);
    let m = fit(text, cap) as int;
    if m > n {
        assert(text.take(m).take(n + 1) =~= text.take(n + 1));
        lemma_prefix_len(text.take(m), n + 1);
    } else if m < n {
        assert(text.take(n).take(m + 1) =~= text.take(m + 1));
        lemma_prefix_len(text.take(n), m + 1);
    }
}

/// One character more takes between one and four bytes more.
proof fn lemma_push_len(text: Seq<char>, c: char)
    ensures
        byte_len(text.push(c)) == byte_len(text) + char_width(c),
{
    assert(text.push(c) =~= text + seq![c]);
    lemma_encode_concat(text, seq![c]);
    vstd::utf8::char_is_scalar(c);
    assert(seq![c].drop_first() =~= Seq::<char>::empty());
    reveal_with_fuel(encode_utf8, 2);
    assert(encode_utf8(seq![c]) =~= vstd::utf8::encode_scalar(c as u32));
}

/// The number of bytes that one character takes in UTF-8.
pub open spec fn char_width(c: char) -> nat {
    if c as u32 <= 0x7f {
        1
    } else if c as u32 <= 0x7ff {
        2
    } else if c as u32 <= 0xffff {
        3
    } else {
        4
    }
}

/// The index of the first character `c`, or the length where there is none.
pub open spec fn char_position(text: Seq<char>, c: char) -> int
    decreases text.len(),
{
    if text.len() == 0 {
        0
    } else if text[0] == c {
        0
    } else {
        1 + char_position(text.drop_first(), c)
    }
}

/// A text parted at its first character `c`, which is left out.
pub open spec fn parted(text: Seq<char>, c: char) -> Option<(Seq<char>, Seq<char>)> {
    let at = char_position(text, c);
    if at < text.len() {
        Some((text.take(at), text.skip(at + 1)))
    } else {
        None
    }
}

/// What follows a prefix.
pub open spec fn after_prefix(text: Seq<char>, prefix: Seq<char>) -> Option<Seq<char>> {
    if prefix.is_prefix_of(text) {
        Some(text.skip(prefix.len() as int))
    } else {
        None
    }
}

/// What precedes a suffix.
pub open spec fn before_suffix(text: Seq<char>, suffix: Seq<char>) -> Option<Seq<char>> {
    if suffix.is_suffix_of(text) {
        Some(text.take(text.len() - suffix.len()))
    } else {
        None
    }
}

/// An ASCII capital letter as a small letter; any other character as it is.
pub open spec fn ascii_lower(c: char) -> char {
    if 'A' <= c <= 'Z' {
        (c as u32 + 32) as char
    } else {
        c
    }
}

/// A digit.
pub open spec fn digit(d: nat) -> char {
    seq!['0', '1', '2', '3', '4', '5', '6', '7', '8', '9'][d as int]
}

/// A number in decimal digits, without leading zeros.
pub open spec fn decimal(n: nat) -> Seq<char>
    decreases n,
{
    if n < 10 {
        seq![digit(n)]
    } else {
        decimal(n / 10).push(digit(n % 10))
    }
}

/// Two numbers with the same digits are the same number.
pub proof fn lemma_decimal_injective(a: nat, b: nat)
    requires
        decimal(a) == decimal(b),
    ensures
        a == b,
    decreases a,
{
    let x = decimal(a);
    let y = decimal(b);
    lemma_decimal_len(a);
    lemma_decimal_len(b);
    assert(x.last() == digit(a % 10));
    assert(y.last() == digit(b % 10));
    if a < 10 || b < 10 {
        assert(x.len() == 1);
    } else {
        assert(x.drop_last() =~= decimal(a / 10));
        assert(y.drop_last() =~= decimal(b / 10));
        lemma_decimal_injective(a / 10, b / 10);
    }
}

proof fn lemma_decimal_len(n: nat)
    ensures
        n < 10 ==> decimal(n).len() == 1,
        n >= 10 ==> decimal(n).len() > 1,
    decreases n,
{
    if n >= 10 {
        lemma_decimal_len(n / 10);
    }
}

/// A character that does not stand among the first few stands behind them.
pub proof fn lemma_char_position_step(text: Seq<char>, c: char, i: int)
    requires
        0 <= i <= text.len(),
        forall|k: int| 0 <= k < i ==> #[trigger] text[k] != c,
    ensures
        char_position(text, c) == i + char_position(text.skip(i), c),
    decreases i,
{
    if i > 0 {
        let rest = text.drop_first();
        assert(text[0] != c);
        assert forall|k: int| 0 <= k < i - 1 implies #[trigger] rest[k] != c by {
            assert(rest[k] == text[k + 1]);
        }
        lemma_char_position_step(rest, c, i - 1);
        assert(rest.skip(i - 1) =~= text.skip(i));
    } else {
        assert(text.skip(0) =~= text);
    }
}

/// A text parted at its first character `c`, and not at all where there is none.
pub fn split_once<'a>(text: &'a str, c: char) -> (parts: Option<(&'a str, &'a str)>)
    ensures
        match parts {
            Some((before, after)) => parted(text@, c) == Some((before@, after@)),
            None => parted(text@, c) is None,
        },
{
    let len = text.unicode_len();
    let mut at: usize = 0;
    for d in iter: text.chars()
        invariant
            iter.seq() == text@,
            at == iter.index(),
            len == text@.len(),
            forall|k: int| 0 <= k < at ==> #[trigger] text@[k] != c,
    {
        if d == c {
            proof {
                lemma_char_position_step(text@, c, at as int);
                assert(text@.skip(at as int)[0] == c);
                assert(text@.take(at as int) =~= text@.subrange(0, at as int));
                assert(text@.skip(at + 1) =~= text@.subrange(at + 1, len as int));
            }
            return Some((text.substring_char(0, at), text.substring_char(at + 1, len)));
        }
        at = at + 1;
    }
    proof {
        lemma_char_position_step(text@, c, text@.len() as int);
    }
    None
}

/// What follows a prefix, and nothing where the text does not start with it.
pub fn strip_prefix<'a>(text: &'a str, prefix: &str) -> (rest: Option<&'a str>)
    ensures
        match rest {
            Some(rest) => after_prefix(text@, prefix@) == Some(rest@),
            None => after_prefix(text@, prefix@) is None,
        },
{
    let len = text.unicode_len();
    let cut = prefix.unicode_len();
    if cut > len {
        return None;
    }
    let rest = text.substring_char(cut, len);
    proof {
        assert(rest@ =~= text@.skip(cut as int));
    }
    if same_text(text.substring_char(0, cut), prefix) {
        Some(rest)
    } else {
        None
    }
}

/// What precedes a suffix, and nothing where the text does not end with it.
pub fn strip_suffix<'a>(text: &'a str, suffix: &str) -> (rest: Option<&'a str>)
    ensures
        match rest {
            Some(rest) => before_suffix(text@, suffix@) == Some(rest@),
            None => before_suffix(text@, suffix@) is None,
        },
{
    let len = text.unicode_len();
    let cut = suffix.unicode_len();
    if cut > len {
        return None;
    }
    let rest = text.substring_char(0, len - cut);
    proof {
        assert(rest@ =~= text@.take(len - cut));
    }
    if same_text(text.substring_char(len - cut, len), suffix) {
        Some(rest)
    } else {
        None
    }
}

/// An ASCII capital letter as a small letter; any other character as it is.
fn lower_char(c: char) -> (lower: char)
    ensures
        lower == ascii_lower(c),
{
    if 'A' <= c && c <= 'Z' {
        let code = c as u8;
        (code + 32) as char
    } else {
        c
    }
}

/// A text with its ASCII capital letters as small letters.
pub open spec fn lowered(text: Seq<char>) -> Seq<char> {
    text.map_values(|c: char| ascii_lower(c))
}

/// Whether a text is another one once its ASCII capital letters are small
/// letters.
pub fn lower_is(text: &str, other: &str) -> (is: bool)
    ensures
        is == (lowered(text@) == other@),
{
    let len = text.unicode_len();
    if len != other.unicode_len() {
        return false;
    }
    let mut i: usize = 0;
    while i < len
        invariant
            i <= len,
            len == text@.len(),
            len == other@.len(),
            forall|k: int| 0 <= k < i ==> #[trigger] lowered(text@)[k] == other@[k],
        decreases len - i,
    {
        if lower_char(text.get_char(i)) != other.get_char(i) {
            proof {
                assert(lowered(text@)[i as int] != other@[i as int]);
            }
            return false;
        }
        i = i + 1;
    }
    proof {
        assert(lowered(text@) =~= other@);
    }
    true
}

/// Whether a text comes before another in the order of characters.
pub open spec fn precedes(a: Seq<char>, b: Seq<char>) -> bool
    decreases a.len(),
{
    if b.len() == 0 {
        false
    } else if a.len() == 0 {
        true
    } else if a[0] == b[0] {
        precedes(a.drop_first(), b.drop_first())
    } else {
        a[0] < b[0]
    }
}

/// Of two different texts, one comes before the other.
pub proof fn lemma_before_total(a: Seq<char>, b: Seq<char>)
    ensures
        a == b || precedes(a, b) || precedes(b, a),
    decreases a.len(),
{
    if a.len() == 0 && b.len() == 0 {
        assert(a =~= b);
    } else if a.len() > 0 && b.len() > 0 && a[0] == b[0] {
        lemma_before_total(a.drop_first(), b.drop_first());
        if a.drop_first() == b.drop_first() {
            assert(a =~= seq![a[0]] + a.drop_first());
            assert(b =~= seq![b[0]] + b.drop_first());
        }
    }
}

/// No text comes before itself.
pub proof fn lemma_before_irreflexive(a: Seq<char>)
    ensures
        !precedes(a, a),
    decreases a.len(),
{
    if a.len() > 0 {
        lemma_before_irreflexive(a.drop_first());
    }
}

/// What comes before a text comes before what follows it.
pub proof fn lemma_before_transitive(a: Seq<char>, b: Seq<char>, c: Seq<char>)
    requires
        precedes(a, b),
        precedes(b, c),
    ensures
        precedes(a, c),
    decreases a.len(),
{
    if a.len() > 0 && b.len() > 0 && c.len() > 0 && a[0] == b[0] && b[0] == c[0] {
        lemma_before_transitive(a.drop_first(), b.drop_first(), c.drop_first());
    }
}

/// Whether a text comes before another in the order of characters.
pub fn text_before(a: &str, b: &str) -> (is: bool)
    ensures
        is == precedes(a@, b@),
{
    let left = a.unicode_len();
    let right = b.unicode_len();
    let mut i: usize = 0;
    proof {
        assert(a@.skip(0) =~= a@);
        assert(b@.skip(0) =~= b@);
    }
    while i < left && i < right
        invariant
            i <= left,
            i <= right,
            left == a@.len(),
            right == b@.len(),
            precedes(a@, b@) == precedes(a@.skip(i as int), b@.skip(i as int)),
        decreases left - i,
    {
        let c = a.get_char(i);
        let d = b.get_char(i);
        proof {
            assert(a@.skip(i as int)[0] == c);
            assert(b@.skip(i as int)[0] == d);
            assert(a@.skip(i as int).drop_first() =~= a@.skip(i + 1));
            assert(b@.skip(i as int).drop_first() =~= b@.skip(i + 1));
        }
        if c != d {
            return c < d;
        }
        i = i + 1;
    }
    i < right
}

/// Whether a character is white space.
pub open spec fn is_white(c: char) -> bool {
    let code = c as u32;
    ||| 0x9 <= code <= 0xd
    ||| code == 0x20
    ||| code == 0x85
    ||| code == 0xa0
    ||| code == 0x1680
    ||| 0x2000 <= code <= 0x200a
    ||| code == 0x2028
    ||| code == 0x2029
    ||| code == 0x202f
    ||| code == 0x205f
    ||| code == 0x3000
}

/// A text without the white space at its start and at its end.
pub open spec fn trimmed(text: Seq<char>) -> Seq<char>
    decreases text.len(),
{
    if text.len() == 0 {
        text
    } else if is_white(text[0]) {
        trimmed(text.drop_first())
    } else if is_white(text.last()) {
        trimmed(text.drop_last())
    } else {
        text
    }
}

/// Whether a character is white space.
fn white(c: char) -> (is: bool)
    ensures
        is == is_white(c),
{
    let code = c as u32;
    (0x9 <= code && code <= 0xd) || code == 0x20 || code == 0x85 || code == 0xa0 || code == 0x1680
        || (0x2000 <= code && code <= 0x200a) || code == 0x2028 || code == 0x2029 || code == 0x202f
        || code == 0x205f || code == 0x3000
}

/// A text without the white space at its start and at its end.
pub fn trim(text: &str) -> (inner: &str)
    ensures
        inner@ == trimmed(text@),
{
    let len = text.unicode_len();
    let mut start: usize = 0;
    proof {
        assert(text@.subrange(0, len as int) =~= text@);
    }
    while start < len && white(text.get_char(start))
        invariant
            start <= len,
            len == text@.len(),
            trimmed(text@) == trimmed(text@.subrange(start as int, len as int)),
        decreases len - start,
    {
        proof {
            let part = text@.subrange(start as int, len as int);
            assert(part.drop_first() =~= text@.subrange(start + 1, len as int));
            assert(part[0] == text@[start as int]);
        }
        start = start + 1;
    }
    let mut end: usize = len;
    while start < end && white(text.get_char(end - 1))
        invariant
            start <= end <= len,
            len == text@.len(),
            start < end ==> !is_white(text@[start as int]),
            trimmed(text@) == trimmed(text@.subrange(start as int, end as int)),
        decreases end - start,
    {
        proof {
            let part = text@.subrange(start as int, end as int);
            assert(part.drop_last() =~= text@.subrange(start as int, end - 1));
            assert(part.last() == text@[end - 1]);
            assert(part[0] == text@[start as int]);
        }
        end = end - 1;
    }
    proof {
        let part = text@.subrange(start as int, end as int);
        if start < end {
            assert(part.last() == text@[end - 1]);
            assert(part[0] == text@[start as int]);
        }
    }
    text.substring_char(start, end)
}

/// A digit.
fn digit_text(d: u64) -> (text: &'static str)
    requires
        d < 10,
    ensures
        text@ == seq![digit(d as nat)],
{
    proof {
        reveal_strlit("0");
        reveal_strlit("1");
        reveal_strlit("2");
        reveal_strlit("3");
        reveal_strlit("4");
        reveal_strlit("5");
        reveal_strlit("6");
        reveal_strlit("7");
        reveal_strlit("8");
        reveal_strlit("9");
    }
    let text = match d {
        0 => "0",
        1 => "1",
        2 => "2",
        3 => "3",
        4 => "4",
        5 => "5",
        6 => "6",
        7 => "7",
        8 => "8",
        _ => "9",
    };
    proof {
        assert(text@ =~= seq![digit(d as nat)]);
    }
    text
}

/// A number in decimal digits.
pub fn decimal_text(n: u64) -> (text: String)
    ensures
        text@ == decimal(n as nat),
    decreases n,
{
    if n < 10 {
        digit_text(n).to_owned()
    } else {
        let text = decimal_text(n / 10).concat(digit_text(n % 10));
        proof {
            assert(text@ =~= decimal(n as nat));
        }
        text
    }
}

/// Whether two texts are the same, character for character.
pub fn same_text(a: &str, b: &str) -> (same: bool)
    ensures
        same == (a@ == b@),
{
    let left = a.as_bytes();
    let right = b.as_bytes();
    if left.len() != right.len() {
        return false;
    }
    let mut i: usize = 0;
    while i < left.len()
        invariant
            left@ == encode_utf8(a@),
            right@ == encode_utf8(b@),
            left@.len() == right@.len(),
            i <= left@.len(),
            left@.take(i as int) == right@.take(i as int),
        decreases left@.len() - i,
    {
        if left[i] != right[i] {
            proof {
                assert(left@[i as int] != right@[i as int]);
            }
            return false;
        }
        proof {
            assert(left@.take(i + 1) =~= left@.take(i as int).push(left@[i as int]));
            assert(right@.take(i + 1) =~= right@.take(i as int).push(right@[i as int]));
        }
        i = i + 1;
    }
    proof {
        assert(left@.take(i as int) =~= left@);
        assert(right@.take(i as int) =~= right@);
        lemma_encode_injective(a@, b@);
    }
    true
}

/// The number of bytes of a text.
pub fn text_len(text: &str) -> (len: usize)
    ensures
        len == byte_len(text@),
{
    text.as_bytes().len()
}

/// The longest prefix of `text` that takes at most `cap` bytes.
pub fn fitting_prefix(text: &str, cap: usize) -> (prefix: &str)
    ensures
        prefix@ == fitting(text@, cap as nat),
{
    let mut count: usize = 0;
    let mut taken: usize = 0;
    proof {
        assert(text@.take(0) =~= Seq::<char>::empty());
        assert(byte_len(text@.take(0)) == 0);
    }
    for c in iter: text.chars()
        invariant
            iter.seq() == text@,
            count == iter.index(),
            taken == byte_len(text@.take(count as int)),
            taken <= cap,
            count <= taken,
    {
        let code = c as u32;
        let width: usize = if code <= 0x7f {
            1
        } else if code <= 0x7ff {
            2
        } else if code <= 0xffff {
            3
        } else {
            4
        };
        proof {
            assert(text@.take(count + 1) =~= text@.take(count as int).push(c));
            lemma_push_len(text@.take(count as int), c);
        }
        if width > cap - taken {
            proof {
                lemma_fit_unique(text@, cap as nat, count as int);
            }
            return text.substring_char(0, count);
        }
        taken = taken + width;
        count = count + 1;
    }
    proof {
        assert(text@.take(text@.len() as int) =~= text@);
        lemma_fit(text@, cap as nat);
    }
    text
}

} // verus!
