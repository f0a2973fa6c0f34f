//! Text helpers shared by the plugin adapters and the scanner.

use vstd::prelude::*;
use vstd::string::*;
use vstd::utf8::{
    decode_utf8, encode_utf8, encode_utf8_decode_utf8, encode_utf8_valid_utf8, valid_utf8,
};

verus! {

/// `String::push` appends one character to the end of the text.
pub assume_specification[ String::push ](text: &mut String, c: char)
    ensures
        final(text)@ == old(text)@.push(c),
;

/// What `String::from_utf8_lossy` makes of bytes that are not UTF-8.
pub uninterp spec fn replaced_text(bytes: Seq<u8>) -> Seq<char>;

/// Bytes read as UTF-8, with replacement characters where they are not that.
pub open spec fn lossy_text(bytes: Seq<u8>) -> Seq<char> {
    if valid_utf8(bytes) {
        decode_utf8(bytes)
    } else {
        replaced_text(bytes)
    }
}

/// Calls `String::from_utf8_lossy`: well-formed UTF-8 is decoded as it stands, anything else
/// becomes the text that [`replaced_text`] names.
#[verifier::external_body]
pub(crate) fn utf8_lossy(bytes: &[u8]) -> (text: String)
    ensures
        text@ == lossy_text(bytes@),
        !valid_utf8(bytes@) ==> text@ == replaced_text(bytes@),
{
    String::from_utf8_lossy(bytes).into_owned()
}

/// Calls `std::str::from_utf8`: the bytes are decoded when they are well-formed UTF-8 and
/// refused when they are not.
#[verifier::external_body]
pub(crate) fn utf8_strict(bytes: &[u8]) -> (text: Option<String>)
    ensures
        text is Some <==> valid_utf8(bytes@),
        text matches Some(t) ==> t@ == decode_utf8(bytes@),
{
    std::str::from_utf8(bytes).ok().map(String::from)
}

/// The characters of a text, one by one.
pub(crate) fn chars_of(text: &str) -> (chars: Vec<char>)
    ensures
        chars@ == text@,
{
    let mut chars: Vec<char> = Vec::new();
    for c in it: text.chars()
        invariant
            chars@ == it.seq().take(it.index() as int),
            it.seq() == text@,
    {
        chars.push(c);
    }
    chars
}

/// Whether two texts hold the same characters.
pub(crate) fn same_text(a: &str, b: &str) -> (same: bool)
    ensures
        same == (a@ == b@),
{
    a.to_owned() == b.to_owned()
}

/// The characters of an optional text.
pub open spec fn optional_text(text: Option<String>) -> Option<Seq<char>> {
    match text {
        Some(t) => Some(t@),
        None => None,
    }
}

/// The characters of each text of a list.
pub open spec fn all_texts(texts: Seq<String>) -> Seq<Seq<char>> {
    texts.map_values(|text: String| text@)
}

/// Characters with the Unicode property White_Space.
pub open spec fn is_white_space(c: char) -> bool {
    ||| '\u{9}' <= c <= '\u{d}'
    ||| c == '\u{20}'
    ||| c == '\u{85}'
    ||| c == '\u{a0}'
    ||| c == '\u{1680}'
    ||| '\u{2000}' <= c <= '\u{200a}'
    ||| c == '\u{2028}'
    ||| c == '\u{2029}'
    ||| c == '\u{202f}'
    ||| c == '\u{205f}'
    ||| c == '\u{3000}'
}

/// Decides [`is_white_space`].
pub fn white_space(c: char) -> (r: bool)
    ensures
        r == is_white_space(c),
{
    ('\u{9}' <= c && c <= '\u{d}') || c == '\u{20}' || c == '\u{85}' || c == '\u{a0}' || c
        == '\u{1680}' || ('\u{2000}' <= c && c <= '\u{200a}') || c == '\u{2028}' || c == '\u{2029}'
        || c == '\u{202f}' || c == '\u{205f}' || c == '\u{3000}'
}

/// A text without the white space at its two ends.
pub open spec fn trimmed(s: Seq<char>) -> Seq<char>
    decreases s.len(),
{
    if s.len() > 0 && is_white_space(s.first()) {
        trimmed(s.drop_first())
    } else if s.len() > 0 && is_white_space(s.last()) {
        trimmed(s.drop_last())
    } else {
        s
    }
}

/// Returns the text without leading and trailing white space.
pub fn trim(text: &str) -> (r: String)
    ensures
        r@ == trimmed(text@),
{
    let chars = chars_of(text);
    let mut start: usize = 0;
    let mut end: usize = chars.len();
    assert(chars@.subrange(0, end as int) == chars@);
    while start < end && white_space(chars[start])
        invariant
            start <= end,
            end == chars@.len(),
            trimmed(chars@.subrange(start as int, end as int)) == trimmed(chars@),
        ensures
            start <= end,
            end == chars@.len(),
            trimmed(chars@.subrange(start as int, end as int)) == trimmed(chars@),
            start < end ==> !is_white_space(chars@[start as int]),
        decreases end - start,
    {
        assert(chars@.subrange(start as int, end as int).drop_first() == chars@.subrange(
            start + 1,
            end as int,
        ));
        start = start + 1;
    }
    while start < end && white_space(chars[end - 1])
        invariant
            start <= end <= chars@.len(),
            start < end ==> !is_white_space(chars@[start as int]),
            trimmed(chars@.subrange(start as int, end as int)) == trimmed(chars@),
        decreases end - start,
    {
        assert(chars@.subrange(start as int, end as int).drop_last() == chars@.subrange(
            start as int,
            end - 1,
        ));
        end = end - 1;
    }
    text.substring_char(start, end).to_owned()
}


/// The lowercase character of one digit, in bases up to sixteen.
pub open spec fn digit_char(d: nat) -> char {
    if d < 10 {
        (48 + d) as char
    } else {
        (87 + d) as char
    }
}

/// Returns the lowercase character of one digit.
pub(crate) fn digit(d: u8) -> (c: char)
    requires
        d < 16,
    ensures
        c == digit_char(d as nat),
{
    if d < 10 {
        (48 + d) as char
    } else {
        (87 + d) as char
    }
}

/// A number in decimal notation, without leading zeros.
pub open spec fn decimal_text(n: nat) -> Seq<char>
    decreases n,
{
    if n < 10 {
        seq![digit_char(n)]
    } else {
        decimal_text(n / 10).push(digit_char(n % 10))
    }
}

/// Appends a number in decimal notation.
pub(crate) fn push_decimal(text: &mut String, n: u64)
    ensures
        final(text)@ == old(text)@ + decimal_text(n as nat),
    decreases n,
{
    if n >= 10 {
        push_decimal(text, n / 10);
    }
    text.push(digit((n % 10) as u8));
}

/// A signed number in decimal notation.
pub open spec fn signed_decimal_text(n: int) -> Seq<char> {
    if n < 0 {
        seq!['-'] + decimal_text((-n) as nat)
    } else {
        decimal_text(n as nat)
    }
}

/// Appends a signed number in decimal notation.
pub(crate) fn push_signed_decimal(text: &mut String, n: i64)
    requires
        n > i64::MIN,
    ensures
        final(text)@ == old(text)@ + signed_decimal_text(n as int),
{
    if n < 0 {
        text.push('-');
        push_decimal(text, (-n) as u64);
        assert(text@ =~= old(text)@ + signed_decimal_text(n as int));
    } else {
        push_decimal(text, n as u64);
    }
}

/// The lowercase form of an ASCII letter; every other character stays as it is.
pub open spec fn ascii_lower(c: char) -> char {
    if 'A' <= c <= 'Z' {
        (c as u32 + 32) as char
    } else {
        c
    }
}

/// Returns [`ascii_lower`] of a character.
pub(crate) fn to_ascii_lower(c: char) -> (r: char)
    ensures
        r == ascii_lower(c),
{
    if 'A' <= c && c <= 'Z' {
        (c as u8 + 32) as char
    } else {
        c
    }
}

/// A text with its ASCII letters in lowercase.
pub open spec fn lowered(s: Seq<char>) -> Seq<char> {
    s.map_values(|c: char| ascii_lower(c))
}

/// Returns the characters of a text with the ASCII letters in lowercase.
pub(crate) fn lowered_chars(text: &str) -> (chars: Vec<char>)
    ensures
        chars@ == lowered(text@),
{
    let all = chars_of(text);
    let mut chars: Vec<char> = Vec::new();
    for i in 0..all.len()
        invariant
            chars@ == lowered(text@).take(i as int),
            all@ == text@,
    {
        chars.push(to_ascii_lower(all[i]));
    }
    chars
}

/// Whether two texts are equal when ASCII letters are compared without their case.
pub(crate) fn eq_ignore_ascii_case(a: &str, b: &str) -> (same: bool)
    ensures
        same == (lowered(a@) == lowered(b@)),
{
    let left = lowered_chars(a);
    let right = lowered_chars(b);
    if left.len() != right.len() {
        return false;
    }
    for i in 0..left.len()
        invariant
            left@ == lowered(a@),
            right@ == lowered(b@),
            left@.len() == right@.len(),
            left@.take(i as int) == right@.take(i as int),
    {
        if left[i] != right[i] {
            return false;
        }
        assert(left@.take(i + 1) == left@.take(i as int).push(left@[i as int]));
        assert(right@.take(i + 1) == right@.take(i as int).push(right@[i as int]));
    }
    assert(left@.take(left@.len() as int) == left@);
    assert(right@.take(right@.len() as int) == right@);
    true
}

/// Whether `part` occurs in `whole` at position `at`.
pub open spec fn occurs_at(whole: Seq<char>, part: Seq<char>, at: int) -> bool {
    0 <= at && at + part.len() <= whole.len() && whole.subrange(at, at + part.len()) == part
}

/// Whether `part` occurs somewhere in `whole`.
pub open spec fn contains_text(whole: Seq<char>, part: Seq<char>) -> bool {
    exists|at: int| occurs_at(whole, part, at)
}

/// Decides whether `part` occurs in `whole` at position `at`.
fn matches_at(whole: &Vec<char>, part: &Vec<char>, at: usize) -> (r: bool)
    requires
        at + part@.len() <= whole@.len(),
    ensures
        r == occurs_at(whole@, part@, at as int),
{
    let end: usize = whole.len();
    for i in 0..part.len()
        invariant
            end == whole@.len(),
            at + part@.len() <= end,
            forall|j: int| 0 <= j < i ==> whole@[at + j] == part@[j],
    {
        if whole[at + i] != part[i] {
            assert(whole@.subrange(at as int, at + part@.len())[i as int] != part@[i as int]);
            return false;
        }
    }
    assert(whole@.subrange(at as int, at + part@.len()) =~= part@);
    true
}

/// Decides whether `part` occurs somewhere among the characters of `whole`.
pub(crate) fn contains(whole: &Vec<char>, part: &str) -> (r: bool)
    ensures
        r == contains_text(whole@, part@),
{
    let part = chars_of(part);
    if part.len() > whole.len() {
        return false;
    }
    let last: usize = whole.len() - part.len();
    let mut at: usize = 0;
    while at < last && !matches_at(whole, &part, at)
        invariant
            at <= last,
            last + part@.len() == whole@.len(),
            forall|k: int| 0 <= k < at ==> !occurs_at(whole@, part@, k),
        ensures
            at <= last,
            forall|k: int| 0 <= k < at ==> !occurs_at(whole@, part@, k),
            at < last ==> occurs_at(whole@, part@, at as int),
        decreases last - at,
    {
        at = at + 1;
    }
    matches_at(whole, &part, at)
}

/// Whether the text holds the character U+0000.
pub(crate) fn has_nul(text: &str) -> (r: bool)
    ensures
        r == text@.contains('\0'),
{
    let chars = chars_of(text);
    for i in 0..chars.len()
        invariant
            chars@ == text@,
            forall|j: int| 0 <= j < i ==> chars@[j] != '\0',
    {
        if chars[i] == '\0' {
            return true;
        }
    }
    false
}

/// The UTF-16 code units of one character.
pub open spec fn utf16_char(c: char) -> Seq<u16> {
    let v = c as u32;
    if v < 0x1_0000 {
        seq![v as u16]
    } else {
        seq![(0xd800 + (v - 0x1_0000) / 0x400) as u16, (0xdc00 + (v - 0x1_0000) % 0x400) as u16]
    }
}

/// The UTF-16 code units of a text.
pub open spec fn utf16_text(s: Seq<char>) -> Seq<u16>
    decreases s.len(),
{
    if s.len() == 0 {
        seq![]
    } else {
        utf16_text(s.drop_last()) + utf16_char(s.last())
    }
}

/// Returns the UTF-16 code units of a text.
pub(crate) fn encode_utf16(text: &str) -> (units: Vec<u16>)
    ensures
        units@ == utf16_text(text@),
{
    let chars = chars_of(text);
    let mut units: Vec<u16> = Vec::new();
    for i in 0..chars.len()
        invariant
            chars@ == text@,
            units@ == utf16_text(text@.take(i as int)),
    {
        let c = chars[i];
        let v: u32 = c as u32;
        if v < 0x1_0000 {
            units.push(v as u16);
        } else {
            units.push((0xd800 + (v - 0x1_0000) / 0x400) as u16);
            units.push((0xdc00 + (v - 0x1_0000) % 0x400) as u16);
        }
        assert(text@.take(i + 1).drop_last() == text@.take(i as int));
        assert(units@ == utf16_text(text@.take(i as int)) + utf16_char(c));
    }
    assert(text@.take(text@.len() as int) == text@);
    units
}

/// The number that decimal digits stand for.
pub open spec fn decimal_value(digits: Seq<char>) -> int
    decreases digits.len(),
{
    if digits.len() == 0 {
        0
    } else {
        decimal_value(digits.drop_last()) * 10 + (digits.last() as u32 - '0' as u32)
    }
}

/// A number is written in decimal digits that stand for it, the first of them not zero unless the
/// number is.
pub proof fn law_decimal_text_is_the_number(n: nat)
    ensures
        decimal_value(decimal_text(n)) == n,
        decimal_text(n).len() > 0,
        forall|i: int|
            0 <= i < decimal_text(n).len() ==> '0' <= #[trigger] decimal_text(n)[i] <= '9',
        n > 0 ==> decimal_text(n)[0] != '0',
    decreases n,
{
    let text = decimal_text(n);
    if n < 10 {
        assert(text.drop_last() =~= Seq::<char>::empty());
        assert(decimal_value(text.drop_last()) == 0);
    } else {
        law_decimal_text_is_the_number(n / 10);
        assert(text.drop_last() =~= decimal_text(n / 10));
        assert(n == n / 10 * 10 + n % 10);
    }
}

/// A negative number is written as a minus sign and what it lacks to zero; any other as it is.
pub proof fn law_signed_text_is_the_number(n: int)
    ensures
        n >= 0 ==> decimal_value(signed_decimal_text(n)) == n,
        n < 0 ==> signed_decimal_text(n)[0] == '-' && decimal_value(signed_decimal_text(n).skip(1))
            == -n,
{
    if n >= 0 {
        law_decimal_text_is_the_number(n as nat);
    } else {
        law_decimal_text_is_the_number((-n) as nat);
        assert(signed_decimal_text(n).skip(1) =~= decimal_text((-n) as nat));
    }
}

/// Lowering a text changes its ASCII capitals into the small letters of the same place in the
/// alphabet, and nothing else; a text that was lowered stays as it is.
pub proof fn law_only_capitals_are_lowered(text: Seq<char>)
    ensures
        lowered(text).len() == text.len(),
        forall|i: int|
            #![trigger lowered(text)[i]]
            0 <= i < text.len() ==> if 'A' <= text[i] <= 'Z' {
                'a' <= lowered(text)[i] <= 'z' && lowered(text)[i] as u32 - 'a' as u32
                    == text[i] as u32 - 'A' as u32
            } else {
                lowered(text)[i] == text[i]
            },
        lowered(lowered(text)) == lowered(text),
{
    assert(lowered(lowered(text)) =~= lowered(text));
}

/// A text occurs in every text that is made by writing something before and behind it, and in no
/// other.
pub proof fn law_text_is_contained(whole: Seq<char>, part: Seq<char>)
    ensures
        contains_text(whole, part) <==> exists|before: Seq<char>, behind: Seq<char>|
            whole == #[trigger] (before + part + behind),
{
    if contains_text(whole, part) {
        let at = choose|at: int| occurs_at(whole, part, at);
        let before = whole.take(at);
        let behind = whole.skip(at + part.len());
        assert(whole =~= before + part + behind);
    }
    if exists|before: Seq<char>, behind: Seq<char>| whole == #[trigger] (before + part + behind) {
        let (before, behind) = choose|before: Seq<char>, behind: Seq<char>|
            whole == #[trigger] (before + part + behind);
        lemma_contained(before, part, behind);
    }
}

/// A text occurs between what is written before and behind it.
pub proof fn lemma_contained(before: Seq<char>, part: Seq<char>, behind: Seq<char>)
    ensures
        contains_text(before + part + behind, part),
{
    let whole = before + part + behind;
    let at = before.len() as int;
    assert(whole.subrange(at, at + part.len()) =~= part);
    assert(occurs_at(whole, part, at));
}

/// Whether a text has nothing but white space outside of two places.
pub open spec fn is_blank_outside(text: Seq<char>, from: int, to: int) -> bool {
    &&& 0 <= from <= to <= text.len()
    &&& forall|i: int| 0 <= i < from ==> is_white_space(#[trigger] text[i])
    &&& forall|i: int| to <= i < text.len() ==> is_white_space(#[trigger] text[i])
}

proof fn lemma_trimmed_between(text: Seq<char>) -> (ends: (int, int))
    ensures
        is_blank_outside(text, ends.0, ends.1),
        trimmed(text) == text.subrange(ends.0, ends.1),
        ends.0 < ends.1 ==> !is_white_space(text[ends.0]) && !is_white_space(text[ends.1 - 1]),
    decreases text.len(),
{
    if text.len() > 0 && is_white_space(text.first()) {
        let inner = text.drop_first();
        let (from, to) = lemma_trimmed_between(inner);
        assert(text.subrange(from + 1, to + 1) =~= inner.subrange(from, to));
        assert forall|i: int| 0 <= i < from + 1 implies is_white_space(#[trigger] text[i]) by {
            if i > 0 {
                assert(is_white_space(inner[i - 1]));
            }
        }
        assert forall|i: int| to + 1 <= i < text.len() implies is_white_space(
            #[trigger] text[i],
        ) by {
            assert(is_white_space(inner[i - 1]));
        }
        (from + 1, to + 1)
    } else if text.len() > 0 && is_white_space(text.last()) {
        let inner = text.drop_last();
        let (from, to) = lemma_trimmed_between(inner);
        assert(text.subrange(from, to) =~= inner.subrange(from, to));
        assert forall|i: int| 0 <= i < from implies is_white_space(#[trigger] text[i]) by {
            assert(is_white_space(inner[i]));
        }
        assert forall|i: int| to <= i < text.len() implies is_white_space(#[trigger] text[i]) by {
            if i < inner.len() {
                assert(is_white_space(inner[i]));
            }
        }
        (from, to)
    } else {
        assert(text.subrange(0, text.len() as int) =~= text);
        (0, text.len() as int)
    }
}

/// Trimming takes white space off the two ends of a text, all of it and nothing else.
pub proof fn law_only_white_space_is_trimmed(text: Seq<char>)
    ensures
        exists|from: int, to: int|
            is_blank_outside(text, from, to) && trimmed(text) == #[trigger] text.subrange(from, to),
        trimmed(text).len() > 0 ==> !is_white_space(trimmed(text).first()) && !is_white_space(
            trimmed(text).last(),
        ),
{
    let (from, to) = lemma_trimmed_between(text);
    assert(is_blank_outside(text, from, to) && trimmed(text) == text.subrange(from, to));
    if trimmed(text).len() > 0 {
        assert(trimmed(text).first() == text[from]);
        assert(trimmed(text).last() == text[to - 1]);
    }
}

/// A text is blank exactly if trimming leaves nothing of it; one without white space at its ends
/// stays as it is.
pub proof fn law_blank_text_is_trimmed_away(text: Seq<char>)
    ensures
        trimmed(text).len() == 0 <==> forall|i: int|
            0 <= i < text.len() ==> is_white_space(#[trigger] text[i]),
        text.len() > 0 && !is_white_space(text.first()) && !is_white_space(text.last()) ==> trimmed(
            text,
        ) == text,
{
    let (from, to) = lemma_trimmed_between(text);
    if trimmed(text).len() > 0 {
        assert(!is_white_space(text[from]));
    }
}

/// Of the ASCII characters the blank and the control characters from tab to carriage return are
/// white space, and no other.
pub proof fn law_ascii_white_space(c: char)
    requires
        c as u32 <= 0x7f,
    ensures
        is_white_space(c) <==> c == ' ' || c == '\t' || c == '\n' || c == '\r' || c == '\u{b}' || c
            == '\u{c}',
{
}

/// The character that UTF-16 code units stand for.
pub open spec fn utf16_value(units: Seq<u16>) -> int {
    if units.len() == 1 {
        units[0] as int
    } else {
        0x1_0000 + (units[0] - 0xd800) * 0x400 + (units[1] - 0xdc00)
    }
}

/// A character is one UTF-16 code unit of its own number or, above the first plane, a high and a
/// low surrogate that together stand for it. The units of a text are those of its parts, one part
/// after the other.
pub proof fn law_utf16_is_the_text(c: char, a: Seq<char>, b: Seq<char>)
    ensures
        utf16_text(seq![c]).len() == if (c as u32) < 0x1_0000 {
            1nat
        } else {
            2
        },
        utf16_value(utf16_text(seq![c])) == c as u32,
        c as u32 >= 0x1_0000 ==> 0xd800 <= utf16_text(seq![c])[0] < 0xdc00 <= utf16_text(
            seq![c],
        )[1] < 0xe000,
        utf16_text(a + b) == utf16_text(a) + utf16_text(b),
    decreases b.len(),
{
    reveal_with_fuel(utf16_text, 2);
    assert(seq![c].drop_last() =~= Seq::<char>::empty());
    assert(utf16_text(seq![c]) =~= utf16_char(c));
    if b.len() == 0 {
        assert(a + b =~= a);
        assert(utf16_text(a) + utf16_text(b) =~= utf16_text(a));
    } else {
        law_utf16_is_the_text(c, a, b.drop_last());
        assert((a + b).drop_last() =~= a + b.drop_last());
        assert((utf16_text(a) + utf16_text(b.drop_last())) + utf16_char(b.last()) =~= utf16_text(a)
            + (utf16_text(b.drop_last()) + utf16_char(b.last())));
    }
}

/// Bytes that are the UTF-8 of a text are read as that text.
pub proof fn law_utf8_is_the_text(text: Seq<char>)
    ensures
        lossy_text(encode_utf8(text)) == text,
{
    encode_utf8_valid_utf8(text);
    encode_utf8_decode_utf8(text);
}

/// Beyond ASCII, white space is the next-line character, the no-break spaces, the Ogham space
/// mark, the spaces of the general punctuation block with its two separators, and the ideographic
/// space.
pub proof fn law_other_white_space(c: char)
    requires
        c as u32 > 0x7f,
    ensures
        is_white_space(c) <==> c as u32 == 0x85 || c as u32 == 0xa0 || c as u32 == 0x1680 || 0x2000
            <= c as u32 <= 0x200a || c as u32 == 0x2028 || c as u32 == 0x2029 || c as u32 == 0x202f
            || c as u32 == 0x205f || c as u32 == 0x3000,
{
}

} // verus!
