//! Text taken apart: white space trimmed, fields split, numbers read.

use vstd::prelude::*;
use crate::number::is_digit;
use crate::utils::push_char;

verus! {

/// Whether `c` is white space: whether it has the Unicode property
/// `White_Space`. These are the tab and the four controls behind it, the
/// space, the next-line control, the no-break space, the Ogham space mark,
/// the spaces of fixed width from the en quad to the hair space, the line
/// and the paragraph separator, the narrow no-break space, the medium
/// mathematical space and the ideographic space.
pub open spec fn is_whitespace(c: char) -> bool {
    ||| '\u{9}' <= c && c <= '\u{d}'
    ||| c == ' '
    ||| c == '\u{85}'
    ||| c == '\u{a0}'
    ||| c == '\u{1680}'
    ||| '\u{2000}' <= c && c <= '\u{200a}'
    ||| c == '\u{2028}'
    ||| c == '\u{2029}'
    ||| c == '\u{202f}'
    ||| c == '\u{205f}'
    ||| c == '\u{3000}'
}

/// `char::is_whitespace`. Trusted: it tells whether the character has the
/// property `White_Space`, which is what `is_whitespace` spells out.
#[verifier::external_body]
fn whitespace(c: char) -> (white: bool)
    ensures
        white == is_whitespace(c),
{
    c.is_whitespace()
}

/// How many white-space characters `s` begins with.
pub open spec fn leading_whitespace(s: Seq<char>) -> nat
    decreases s.len(),
{
    if s.len() > 0 && is_whitespace(s.first()) {
        1 + leading_whitespace(s.drop_first())
    } else {
        0
    }
}

/// How many white-space characters `s` ends with.
pub open spec fn trailing_whitespace(s: Seq<char>) -> nat
    decreases s.len(),
{
    if s.len() > 0 && is_whitespace(s.last()) {
        1 + trailing_whitespace(s.drop_last())
    } else {
        0
    }
}

/// `s` without the white space that it begins with.
pub open spec fn trimmed_start(s: Seq<char>) -> Seq<char> {
    s.skip(leading_whitespace(s) as int)
}

/// `s` without the white space that it ends with.
pub open spec fn trimmed_end(s: Seq<char>) -> Seq<char> {
    s.take(s.len() - trailing_whitespace(s))
}

/// `s` without the white space at either end.
pub open spec fn trimmed(s: Seq<char>) -> Seq<char> {
    trimmed_end(trimmed_start(s))
}

/// The characters of `text`, one by one.
pub(crate) fn chars_of(text: &str) -> (chars: Vec<char>)
    ensures
        chars@ == text@,
{
    let mut chars: Vec<char> = Vec::new();
    for c in it: text.chars()
        invariant
            it.seq() == text@,
            chars@ == text@.take(it.index() as int),
    {
        chars.push(c);
        proof {
            assert(text@.take(it.index() + 1) =~= text@.take(it.index() as int).push(c));
        }
    }
    proof {
        assert(text@.take(text@.len() as int) == text@);
    }
    chars
}

/// The characters of `chars` from `from` up to `to`.
pub(crate) fn slice(chars: &Vec<char>, from: usize, to: usize) -> (part: Vec<char>)
    requires
        from <= to <= chars.len(),
    ensures
        part@ == chars@.subrange(from as int, to as int),
{
    let mut part: Vec<char> = Vec::new();
    let mut i = from;
    while i < to
        invariant
            from <= i <= to <= chars.len(),
            part@ == chars@.subrange(from as int, i as int),
        decreases to - i,
    {
        part.push(chars[i]);
        proof {
            assert(chars@.subrange(from as int, i + 1) =~= chars@.subrange(
                from as int,
                i as int,
            ).push(chars@[i as int]));
        }
        i += 1;
    }
    part
}

/// The string that holds `chars`.
pub(crate) fn string_of(chars: &Vec<char>) -> (text: String)
    ensures
        text@ == chars@,
{
    let mut text = String::new();
    let mut i: usize = 0;
    while i < chars.len()
        invariant
            i <= chars.len(),
            text@ == chars@.take(i as int),
        decreases chars.len() - i,
    {
        push_char(&mut text, chars[i]);
        proof {
            assert(chars@.take(i + 1) =~= chars@.take(i as int).push(chars@[i as int]));
        }
        i += 1;
    }
    proof {
        assert(chars@.take(chars.len() as int) == chars@);
    }
    text
}

fn leading(chars: &Vec<char>) -> (count: usize)
    ensures
        count == leading_whitespace(chars@),
        count <= chars.len(),
{
    let mut count: usize = 0;
    proof {
        assert(chars@.skip(0) == chars@);
    }
    while count < chars.len() && whitespace(chars[count])
        invariant
            count <= chars.len(),
            leading_whitespace(chars@) == count + leading_whitespace(chars@.skip(count as int)),
        decreases chars.len() - count,
    {
        proof {
            assert(chars@.skip(count as int).drop_first() == chars@.skip(count + 1));
        }
        count += 1;
    }
    count
}

fn trailing(chars: &Vec<char>) -> (count: usize)
    ensures
        count == trailing_whitespace(chars@),
        count <= chars.len(),
{
    let mut count: usize = 0;
    let len = chars.len();
    proof {
        assert(chars@.take(len as int) == chars@);
    }
    while count < len && whitespace(chars[len - 1 - count])
        invariant
            len == chars.len(),
            count <= len,
            trailing_whitespace(chars@) == count + trailing_whitespace(
                chars@.take(len - count),
            ),
        decreases len - count,
    {
        proof {
            assert(chars@.take(len - count).drop_last() == chars@.take(len - count - 1));
        }
        count += 1;
    }
    count
}

/// `chars` without the white space at its end.
pub(crate) fn trim_end(chars: &Vec<char>) -> (rest: Vec<char>)
    ensures
        rest@ == trimmed_end(chars@),
{
    let count = trailing(chars);
    let rest = slice(chars, 0, chars.len() - count);
    proof {
        assert(chars@.subrange(0, chars.len() - count) == chars@.take(chars.len() - count));
    }
    rest
}

/// `chars` without the white space at either end.
pub(crate) fn trim(chars: &Vec<char>) -> (rest: Vec<char>)
    ensures
        rest@ == trimmed(chars@),
{
    let start = leading(chars);
    let tail = slice(chars, start, chars.len());
    proof {
        assert(chars@.subrange(start as int, chars.len() as int) == chars@.skip(start as int));
    }
    trim_end(&tail)
}

/// The fields of `s` between the separators `separator`: a separator begins
/// a field, and any other character goes on with the last. A text without a
/// separator is one field, even where it is empty.
pub open spec fn fields(s: Seq<char>, separator: char) -> Seq<Seq<char>>
    decreases s.len(),
{
    if s.len() == 0 {
        seq![Seq::empty()]
    } else {
        let before = fields(s.drop_last(), separator);
        if s.last() == separator {
            before.push(Seq::empty())
        } else {
            before.update(before.len() - 1, before.last().push(s.last()))
        }
    }
}

/// The character sequences of `parts`, in order.
pub open spec fn sequences(parts: Seq<Vec<char>>) -> Seq<Seq<char>> {
    parts.map_values(|part: Vec<char>| part@)
}

/// Splits `chars` at each `separator`.
pub(crate) fn split(chars: &Vec<char>, separator: char) -> (parts: Vec<Vec<char>>)
    ensures
        sequences(parts@) == fields(chars@, separator),
{
    let mut parts: Vec<Vec<char>> = Vec::new();
    let mut current: Vec<char> = Vec::new();
    let mut i: usize = 0;
    proof {
        assert(sequences(parts@).push(current@) =~= fields(chars@.take(0), separator));
    }
    while i < chars.len()
        invariant
            i <= chars.len(),
            sequences(parts@).push(current@) == fields(chars@.take(i as int), separator),
        decreases chars.len() - i,
    {
        let ghost before = sequences(parts@).push(current@);
        proof {
            assert(chars@.take(i + 1).drop_last() == chars@.take(i as int));
            assert(chars@.take(i + 1).last() == chars@[i as int]);
        }
        if chars[i] == separator {
            parts.push(current);
            current = Vec::new();
            proof {
                assert(sequences(parts@).push(current@) =~= before.push(Seq::empty()));
            }
        } else {
            current.push(chars[i]);
            proof {
                assert(sequences(parts@).push(current@) =~= before.update(
                    before.len() - 1,
                    before.last().push(chars@[i as int]),
                ));
            }
        }
        i += 1;
    }
    let ghost before = sequences(parts@).push(current@);
    parts.push(current);
    proof {
        assert(chars@.take(chars.len() as int) == chars@);
        assert(sequences(parts@) =~= before);
    }
    parts
}

/// What the digit `c` counts for; any other character counts for nothing.
pub open spec fn digit_value(c: char) -> nat {
    if c == '1' {
        1
    } else if c == '2' {
        2
    } else if c == '3' {
        3
    } else if c == '4' {
        4
    } else if c == '5' {
        5
    } else if c == '6' {
        6
    } else if c == '7' {
        7
    } else if c == '8' {
        8
    } else if c == '9' {
        9
    } else {
        0
    }
}

/// The number that the decimal digits `s` write.
pub open spec fn digits_value(s: Seq<char>) -> nat
    decreases s.len(),
{
    if s.len() == 0 {
        0
    } else {
        digits_value(s.drop_last()) * 10 + digit_value(s.last())
    }
}

/// Whether `s` holds digits only.
pub open spec fn all_digits(s: Seq<char>) -> bool {
    forall|i: int| 0 <= i < s.len() ==> is_digit(#[trigger] s[i])
}

/// `s` without the plus sign that may stand before an unsigned number.
pub open spec fn unsigned_digits(s: Seq<char>) -> Seq<char> {
    if s.len() > 0 && s[0] == '+' {
        s.skip(1)
    } else {
        s
    }
}

/// The number that `s` writes, if it writes one that 32 bits hold: an
/// optional plus sign and at least one decimal digit, with nothing before,
/// between or behind them.
pub open spec fn parsed_u32(s: Seq<char>) -> Option<u32> {
    let digits = unsigned_digits(s);
    if digits.len() > 0 && all_digits(digits) && digits_value(digits) <= u32::MAX {
        Some(digits_value(digits) as u32)
    } else {
        None
    }
}

/// The digits that a number begins with write no more than the whole.
pub proof fn lemma_digits_value_grows(s: Seq<char>, n: int)
    requires
        0 <= n <= s.len(),
    ensures
        digits_value(s.take(n)) <= digits_value(s),
    decreases s.len() - n,
{
    if n < s.len() {
        lemma_digits_value_grows(s, n + 1);
        assert(s.take(n + 1).drop_last() == s.take(n));
    } else {
        assert(s.take(n) == s);
    }
}

fn value_of_digit(c: char) -> (value: u64)
    ensures
        value == digit_value(c),
        value <= 9,
{
    if c == '1' {
        1
    } else if c == '2' {
        2
    } else if c == '3' {
        3
    } else if c == '4' {
        4
    } else if c == '5' {
        5
    } else if c == '6' {
        6
    } else if c == '7' {
        7
    } else if c == '8' {
        8
    } else if c == '9' {
        9
    } else {
        0
    }
}

/// Reads `chars` as an unsigned number of 32 bits.
pub(crate) fn parse_u32(chars: &Vec<char>) -> (number: Option<u32>)
    ensures
        number == parsed_u32(chars@),
{
    let len = chars.len();
    let start: usize = if len > 0 && chars[0] == '+' {
        1
    } else {
        0
    };
    if start == len {
        return None;
    }
    let ghost digits = unsigned_digits(chars@);
    proof {
        assert(digits == chars@.skip(start as int));
    }
    let mut value: u64 = 0;
    let mut i = start;
    while i < len
        invariant
            start <= i <= len,
            len == chars.len(),
            digits == chars@.skip(start as int),
            digits == unsigned_digits(chars@),
            value == digits_value(digits.take(i - start)),
            value <= u32::MAX,
            all_digits(digits.take(i - start)),
        decreases len - i,
    {
        let c = chars[i];
        proof {
            assert(digits[i - start] == c);
            assert(digits.take(i - start + 1).drop_last() == digits.take(i - start));
            assert(digits.take(i - start + 1).last() == c);
        }
        if !(c >= '0' && c <= '9') {
            proof {
                assert(!is_digit(digits[i - start]));
            }
            return None;
        }
        value = value * 10 + value_of_digit(c);
        if value > 0xffff_ffff {
            proof {
                lemma_digits_value_grows(digits, i - start + 1);
            }
            return None;
        }
        proof {
            assert forall|k: int| 0 <= k < i - start + 1 implies is_digit(
                #[trigger] digits.take(i - start + 1)[k],
            ) by {
                if k < i - start {
                    assert(digits.take(i - start + 1)[k] == digits.take(i - start)[k]);
                }
            }
        }
        i += 1;
    }
    proof {
        assert(digits.take(len - start) == digits);
    }
    Some(value as u32)
}

} // verus!
