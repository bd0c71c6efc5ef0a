//! Numbers as JSON writes them.
//!
//! The bridge does no arithmetic on the values that it reports: a number is
//! kept as its decimal text and goes into the state object as it is. The text
//! is held to the grammar of a JSON number,
//! `-? (0 | [1-9][0-9]*) (. [0-9]+)? ([eE] [+-]? [0-9]+)?`.

use vstd::prelude::*;
use crate::text::{chars_of, string_of};
use crate::utils::push_char;

verus! {

/// Whether `c` is an ASCII digit.
pub open spec fn is_digit(c: char) -> bool {
    '0' <= c && c <= '9'
}

/// The end of the run of digits of `s` that begins at `from`: the first
/// index not before `from` at which no digit stands.
pub open spec fn digits_end(s: Seq<char>, from: int) -> int
    decreases s.len() - from,
{
    if 0 <= from < s.len() && is_digit(s[from]) {
        digits_end(s, from + 1)
    } else {
        from
    }
}

/// Where the integer part of a number begins in `s`: behind the minus sign,
/// if there is one.
pub open spec fn integer_start(s: Seq<char>) -> int {
    if s.len() > 0 && s[0] == '-' {
        1
    } else {
        0
    }
}

/// Whether the digits of `s` from `from` up to `to` are an integer part: at
/// least one digit, and no zero before another digit.
pub open spec fn is_integer_part(s: Seq<char>, from: int, to: int) -> bool {
    from < to && (s[from] != '0' || to == from + 1)
}

/// Where the fraction that begins at `from` ends, if it is well formed: a
/// point and at least one digit. Where no point stands at `from` there is no
/// fraction, and it ends where it begins.
pub open spec fn fraction_end(s: Seq<char>, from: int) -> Option<int> {
    if 0 <= from < s.len() && s[from] == '.' {
        if digits_end(s, from + 1) > from + 1 {
            Some(digits_end(s, from + 1))
        } else {
            None
        }
    } else {
        Some(from)
    }
}

/// Where the digits of an exponent begin whose letter stands at `from`:
/// behind the letter and its sign, if it has one.
pub open spec fn exponent_digits_start(s: Seq<char>, from: int) -> int {
    if from + 1 < s.len() && (s[from + 1] == '+' || s[from + 1] == '-') {
        from + 2
    } else {
        from + 1
    }
}

/// Where the exponent that begins at `from` ends, if it is well formed: `e`
/// or `E`, an optional sign and at least one digit. Where no such letter
/// stands at `from` there is no exponent.
pub open spec fn exponent_end(s: Seq<char>, from: int) -> Option<int> {
    if 0 <= from < s.len() && (s[from] == 'e' || s[from] == 'E') {
        let start = exponent_digits_start(s, from);
        if digits_end(s, start) > start {
            Some(digits_end(s, start))
        } else {
            None
        }
    } else {
        Some(from)
    }
}

/// Whether `s` is a JSON number: an optional minus sign, an integer part, an
/// optional fraction and an optional exponent, and nothing behind them.
pub open spec fn is_json_number(s: Seq<char>) -> bool {
    let start = integer_start(s);
    let integer_end = digits_end(s, start);
    &&& is_integer_part(s, start, integer_end)
    &&& fraction_end(s, integer_end) matches Some(fraction)
    &&& exponent_end(s, fraction) matches Some(end)
    &&& end == s.len()
}

/// Where the digits of a decimal number begin in `s`: behind its sign, if
/// it has one.
pub open spec fn sign_end(s: Seq<char>) -> int {
    if s.len() > 0 && (s[0] == '+' || s[0] == '-') {
        1
    } else {
        0
    }
}

/// Where the digits before the point end in the decimal number `s`.
pub open spec fn whole_end(s: Seq<char>) -> int {
    digits_end(s, sign_end(s))
}

/// Whether a point stands behind the digits that `s` begins with.
pub open spec fn has_point(s: Seq<char>) -> bool {
    whole_end(s) < s.len() && s[whole_end(s)] == '.'
}

/// Where the digits behind the point end in the decimal number `s`; where
/// it has no point, where the digits before it end.
pub open spec fn decimals_end(s: Seq<char>) -> int {
    if has_point(s) {
        digits_end(s, whole_end(s) + 1)
    } else {
        whole_end(s)
    }
}

/// Whether digits stand behind the point of `s`.
pub open spec fn has_decimals(s: Seq<char>) -> bool {
    has_point(s) && decimals_end(s) > whole_end(s) + 1
}

/// Whether `s` is a decimal number as tools print one: an optional sign,
/// digits with at most one point before, among or behind them, and an
/// optional exponent. At least one digit stands before the exponent. This is
/// wider than the grammar of JSON: `+1.5`, `.5`, `5.` and `01.5` are such
/// numbers.
pub open spec fn is_decimal(s: Seq<char>) -> bool {
    &&& whole_end(s) > sign_end(s) || has_decimals(s)
    &&& exponent_end(s, decimals_end(s)) matches Some(end)
    &&& end == s.len()
}

/// The digits `digits` without the zeros that they begin with; a single
/// zero where nothing else is left.
pub open spec fn stripped(digits: Seq<char>) -> Seq<char>
    decreases digits.len(),
{
    if digits.len() == 0 {
        seq!['0']
    } else if digits[0] == '0' && digits.len() > 1 {
        stripped(digits.drop_first())
    } else {
        digits
    }
}

/// The minus sign of the decimal number `s`, if it has one; a plus sign is
/// not written.
pub open spec fn json_sign(s: Seq<char>) -> Seq<char> {
    if s.len() > 0 && s[0] == '-' {
        seq!['-']
    } else {
        Seq::empty()
    }
}

/// The point of the decimal number `s` and the digits behind it, where
/// there are such digits; a point with nothing behind it is not written.
pub open spec fn json_fraction(s: Seq<char>) -> Seq<char> {
    if has_decimals(s) {
        s.subrange(whole_end(s), decimals_end(s))
    } else {
        Seq::empty()
    }
}

/// The decimal number `s` as JSON writes the same number: without a plus
/// sign, with one digit at least and no needless zero before the point, and
/// without a point that nothing follows. The digits behind the point and
/// the exponent stay as they are.
pub open spec fn decimal_json(s: Seq<char>) -> Seq<char> {
    json_sign(s) + stripped(s.subrange(sign_end(s), whole_end(s))) + json_fraction(s) + s.subrange(
        decimals_end(s),
        s.len() as int,
    )
}

/// The digit that stands for `d`, which is below ten.
pub open spec fn digit(d: nat) -> char {
    if d == 0 {
        '0'
    } else if d == 1 {
        '1'
    } else if d == 2 {
        '2'
    } else if d == 3 {
        '3'
    } else if d == 4 {
        '4'
    } else if d == 5 {
        '5'
    } else if d == 6 {
        '6'
    } else if d == 7 {
        '7'
    } else if d == 8 {
        '8'
    } else {
        '9'
    }
}

/// `n` in decimal digits, without leading zeros.
pub open spec fn decimal(n: nat) -> Seq<char>
    decreases n,
{
    if n < 10 {
        seq![digit(n)]
    } else {
        decimal(n / 10).push(digit(n % 10))
    }
}

/// The run of digits that begins at `from` ends at or behind `from`, within
/// `s`, holds digits only, and no digit stands at its end.
pub proof fn lemma_digits_end(s: Seq<char>, from: int)
    requires
        0 <= from <= s.len(),
    ensures
        from <= digits_end(s, from) <= s.len(),
        forall|i: int| from <= i < digits_end(s, from) ==> is_digit(#[trigger] s[i]),
        digits_end(s, from) < s.len() ==> !is_digit(s[digits_end(s, from)]),
    decreases s.len() - from,
{
    if from < s.len() && is_digit(s[from]) {
        lemma_digits_end(s, from + 1);
    }
}

/// Digits without the zeros that they begin with are digits still, at least
/// one, and begin with a zero only where they are a single zero.
pub proof fn lemma_stripped(digits: Seq<char>)
    requires
        forall|i: int| 0 <= i < digits.len() ==> is_digit(#[trigger] digits[i]),
    ensures
        stripped(digits).len() >= 1,
        forall|i: int| 0 <= i < stripped(digits).len() ==> is_digit(#[trigger] stripped(digits)[i]),
        stripped(digits)[0] != '0' || stripped(digits).len() == 1,
    decreases digits.len(),
{
    if digits.len() > 0 && digits[0] == '0' && digits.len() > 1 {
        assert forall|i: int| 0 <= i < digits.drop_first().len() implies is_digit(
            #[trigger] digits.drop_first()[i],
        ) by {
            assert(digits.drop_first()[i] == digits[i + 1]);
        }
        lemma_stripped(digits.drop_first());
    }
}

/// A sign, an integer part, a fraction and an exponent, each well formed,
/// make a JSON number when they are written one behind the other.
pub proof fn lemma_parts_make_number(
    sign: Seq<char>,
    whole: Seq<char>,
    fraction: Seq<char>,
    exponent: Seq<char>,
)
    requires
        sign == Seq::<char>::empty() || sign == seq!['-'],
        whole.len() >= 1,
        forall|i: int| 0 <= i < whole.len() ==> is_digit(#[trigger] whole[i]),
        whole[0] != '0' || whole.len() == 1,
        fraction.len() == 0 || (fraction.len() >= 2 && fraction[0] == '.' && forall|i: int|
            1 <= i < fraction.len() ==> is_digit(#[trigger] fraction[i])),
        exponent.len() == 0 || ((exponent[0] == 'e' || exponent[0] == 'E')
            && exponent_digits_start(exponent, 0) < exponent.len() && forall|i: int|
            exponent_digits_start(exponent, 0) <= i < exponent.len() ==> is_digit(
                #[trigger] exponent[i],
            )),
    ensures
        is_json_number(sign + whole + fraction + exponent),
{
    let t = sign + whole + fraction + exponent;
    let a = sign.len() as int;
    let b = a + whole.len();
    let c = b + fraction.len();
    assert forall|i: int| a <= i < b implies t[i] == whole[i - a] by {}
    assert forall|i: int| b <= i < c implies t[i] == fraction[i - b] by {}
    assert forall|i: int| c <= i < t.len() implies t[i] == exponent[i - c] by {}
    assert(t[a] == whole[0]);
    assert(integer_start(t) == a);
    assert forall|i: int| a <= i < b implies is_digit(#[trigger] t[i]) by {
        assert(is_digit(whole[i - a]));
    }
    lemma_digits_run(t, a, b);
    if fraction.len() > 0 {
        assert(t[b] == '.');
        assert forall|i: int| b + 1 <= i < c implies is_digit(#[trigger] t[i]) by {
            assert(is_digit(fraction[i - b]));
        }
        lemma_digits_run(t, b + 1, c);
    }
    assert(fraction_end(t, b) == Some(c));
    if exponent.len() > 0 {
        let digits = exponent_digits_start(exponent, 0);
        assert(t[c] == exponent[0]);
        if 1 < exponent.len() {
            assert(t[c + 1] == exponent[1]);
        }
        assert(exponent_digits_start(t, c) == c + digits);
        assert forall|i: int| c + digits <= i < t.len() implies is_digit(#[trigger] t[i]) by {
            assert(is_digit(exponent[i - c]));
        }
        lemma_digits_run(t, c + digits, t.len() as int);
    }
    assert(exponent_end(t, c) == Some(t.len() as int));
}

/// A decimal number, written as JSON writes it, is a JSON number.
pub proof fn lemma_decimal_json_is_number(s: Seq<char>)
    requires
        is_decimal(s),
    ensures
        is_json_number(decimal_json(s)),
{
    let start = sign_end(s);
    lemma_digits_end(s, start);
    let whole = s.subrange(start, whole_end(s));
    assert forall|i: int| 0 <= i < whole.len() implies is_digit(#[trigger] whole[i]) by {
        assert(whole[i] == s[start + i]);
    }
    lemma_stripped(whole);
    if has_point(s) {
        lemma_digits_end(s, whole_end(s) + 1);
    }
    let fraction = json_fraction(s);
    if has_decimals(s) {
        assert(fraction[0] == '.');
        assert forall|i: int| 1 <= i < fraction.len() implies is_digit(#[trigger] fraction[i]) by {
            assert(fraction[i] == s[whole_end(s) + i]);
        }
    }
    let from = decimals_end(s);
    let exponent = s.subrange(from, s.len() as int);
    if exponent.len() > 0 {
        assert(exponent[0] == s[from]);
        let digits = exponent_digits_start(s, from);
        if 1 < exponent.len() {
            assert(exponent[1] == s[from + 1]);
        }
        assert(exponent_digits_start(exponent, 0) == digits - from);
        lemma_digits_end(s, digits);
        assert forall|i: int| digits - from <= i < exponent.len() implies is_digit(
            #[trigger] exponent[i],
        ) by {
            assert(exponent[i] == s[from + i]);
        }
    }
    lemma_parts_make_number(json_sign(s), stripped(whole), fraction, exponent);
}

/// A run of digits from `from` up to `to`, with no digit at `to`, ends at
/// `to`.
pub proof fn lemma_digits_run(s: Seq<char>, from: int, to: int)
    requires
        0 <= from <= to <= s.len(),
        forall|i: int| from <= i < to ==> is_digit(#[trigger] s[i]),
        to < s.len() ==> !is_digit(s[to]),
    ensures
        digits_end(s, from) == to,
    decreases to - from,
{
    if from < to {
        lemma_digits_run(s, from + 1, to);
    }
}

/// The decimal digits of a number are digits, begin with no zero unless the
/// number is below ten, and so are a JSON number.
pub proof fn lemma_decimal_is_number(n: nat)
    ensures
        decimal(n).len() >= 1,
        forall|i: int| 0 <= i < decimal(n).len() ==> is_digit(#[trigger] decimal(n)[i]),
        n >= 10 ==> decimal(n)[0] != '0' && decimal(n).len() >= 2,
        n > 0 ==> decimal(n)[0] != '0',
        is_json_number(decimal(n)),
    decreases n,
{
    let s = decimal(n);
    if n >= 10 {
        lemma_decimal_is_number(n / 10);
        let head = decimal(n / 10);
        assert(s == head.push(digit(n % 10)));
        assert(s[0] == head[0]);
        assert forall|i: int| 0 <= i < s.len() implies is_digit(#[trigger] s[i]) by {
            if i < head.len() {
                assert(s[i] == head[i]);
            }
        }
    }
    lemma_digits_run(s, 0, s.len() as int);
}

fn digit_of(d: u32) -> (c: char)
    requires
        d < 10,
    ensures
        c == digit(d as nat),
{
    if d == 0 {
        '0'
    } else if d == 1 {
        '1'
    } else if d == 2 {
        '2'
    } else if d == 3 {
        '3'
    } else if d == 4 {
        '4'
    } else if d == 5 {
        '5'
    } else if d == 6 {
        '6'
    } else if d == 7 {
        '7'
    } else if d == 8 {
        '8'
    } else {
        '9'
    }
}

fn write_decimal(value: u32, text: &mut String)
    ensures
        final(text)@ == old(text)@ + decimal(value as nat),
    decreases value,
{
    if value >= 10 {
        write_decimal(value / 10, text);
    }
    push_char(text, digit_of(value % 10));
    proof {
        assert(final(text)@ =~= old(text)@ + decimal(value as nat));
    }
}

fn is_digit_char(c: char) -> (digit: bool)
    ensures
        digit == is_digit(c),
{
    c >= '0' && c <= '9'
}

fn scan_digits(chars: &Vec<char>, from: usize) -> (end: usize)
    requires
        from <= chars.len(),
    ensures
        end == digits_end(chars@, from as int),
        from <= end <= chars.len(),
{
    let mut end = from;
    while end < chars.len() && is_digit_char(chars[end])
        invariant
            from <= end <= chars.len(),
            digits_end(chars@, from as int) == digits_end(chars@, end as int),
        decreases chars.len() - end,
    {
        end += 1;
    }
    end
}

fn extend(text: &mut Vec<char>, chars: &Vec<char>, from: usize, to: usize)
    requires
        from <= to <= chars.len(),
    ensures
        final(text)@ == old(text)@ + chars@.subrange(from as int, to as int),
{
    let mut i = from;
    proof {
        assert(text@ =~= old(text)@ + chars@.subrange(from as int, from as int));
    }
    while i < to
        invariant
            from <= i <= to <= chars.len(),
            text@ == old(text)@ + chars@.subrange(from as int, i as int),
        decreases to - i,
    {
        text.push(chars[i]);
        proof {
            assert(text@ =~= old(text)@ + chars@.subrange(from as int, i + 1));
        }
        i += 1;
    }
}

fn push_stripped(text: &mut Vec<char>, chars: &Vec<char>, from: usize, to: usize)
    requires
        from <= to <= chars.len(),
    ensures
        final(text)@ == old(text)@ + stripped(chars@.subrange(from as int, to as int)),
{
    let mut first = from;
    proof {
        assert(chars@.subrange(from as int, to as int).len() == to - from);
    }
    while to - first > 1 && chars[first] == '0'
        invariant
            from <= first <= to <= chars.len(),
            stripped(chars@.subrange(from as int, to as int)) == stripped(
                chars@.subrange(first as int, to as int),
            ),
        decreases to - first,
    {
        proof {
            let digits = chars@.subrange(first as int, to as int);
            assert(digits[0] == chars@[first as int]);
            assert(digits.drop_first() == chars@.subrange(first + 1, to as int));
        }
        first += 1;
    }
    if first == to {
        text.push('0');
        proof {
            assert(text@ =~= old(text)@ + seq!['0']);
        }
    } else {
        proof {
            let digits = chars@.subrange(first as int, to as int);
            assert(digits[0] == chars@[first as int]);
            assert(digits.len() == to - first);
        }
        extend(text, chars, first, to);
    }
}

/// Whether `text` is a JSON number.
pub fn check_number(text: &str) -> (valid: bool)
    ensures
        valid == is_json_number(text@),
{
    let chars = chars_of(text);
    let len = chars.len();
    let start: usize = if len > 0 && chars[0] == '-' {
        1
    } else {
        0
    };
    let integer_end = scan_digits(&chars, start);
    if integer_end == start {
        return false;
    }
    if chars[start] == '0' && integer_end != start + 1 {
        return false;
    }
    let mut at = integer_end;
    if at < len && chars[at] == '.' {
        let end = scan_digits(&chars, at + 1);
        if end == at + 1 {
            return false;
        }
        at = end;
    }
    if at < len && (chars[at] == 'e' || chars[at] == 'E') {
        let digits: usize = if at + 1 < len && (chars[at + 1] == '+' || chars[at + 1] == '-') {
            at + 2
        } else {
            at + 1
        };
        let end = scan_digits(&chars, digits);
        if end == digits {
            return false;
        }
        at = end;
    }
    at == len
}

/// A number, kept as the text of a JSON number.
#[derive(Debug)]
pub struct JsonNumber {
    text: String,
}

impl View for JsonNumber {
    type V = Seq<char>;

    closed spec fn view(&self) -> Seq<char> {
        self.text@
    }
}

impl Clone for JsonNumber {
    fn clone(&self) -> (copy: Self)
        ensures
            copy@ == self@,
    {
        proof {
            use_type_invariant(self);
        }
        JsonNumber { text: self.text.clone() }
    }
}

impl JsonNumber {
    #[verifier::type_invariant]
    spec fn well_formed(&self) -> bool {
        is_json_number(self.text@)
    }

    /// Takes `text` as a number, if it is written as JSON writes one.
    pub fn parse(text: &str) -> (number: Option<JsonNumber>)
        ensures
            number is Some <==> is_json_number(text@),
            number matches Some(n) ==> n@ == text@,
    {
        if check_number(text) {
            Some(JsonNumber { text: text.to_owned() })
        } else {
            None
        }
    }

    /// Takes `text` as a number, if it is a decimal number as tools print
    /// one, and keeps it as JSON writes the same number.
    pub fn from_decimal(text: &str) -> (number: Option<JsonNumber>)
        ensures
            number is Some <==> is_decimal(text@),
            number matches Some(n) ==> n@ == decimal_json(text@),
    {
        let chars = chars_of(text);
        let len = chars.len();
        let start: usize = if len > 0 && (chars[0] == '+' || chars[0] == '-') {
            1
        } else {
            0
        };
        let whole = scan_digits(&chars, start);
        let point = whole < len && chars[whole] == '.';
        let decimals = if point {
            scan_digits(&chars, whole + 1)
        } else {
            whole
        };
        let fraction = point && decimals > whole + 1;
        if whole == start && !fraction {
            return None;
        }
        let mut end = decimals;
        if end < len && (chars[end] == 'e' || chars[end] == 'E') {
            let digits: usize = if end + 1 < len && (chars[end + 1] == '+' || chars[end + 1]
                == '-') {
                end + 2
            } else {
                end + 1
            };
            let after = scan_digits(&chars, digits);
            if after == digits {
                return None;
            }
            end = after;
        }
        if end != len {
            return None;
        }
        let mut written: Vec<char> = Vec::new();
        if chars[0] == '-' {
            written.push('-');
        }
        proof {
            assert(written@ =~= json_sign(text@));
        }
        push_stripped(&mut written, &chars, start, whole);
        if fraction {
            extend(&mut written, &chars, whole, decimals);
        }
        proof {
            assert(written@ =~= json_sign(text@) + stripped(
                text@.subrange(start as int, whole as int),
            ) + json_fraction(text@));
        }
        extend(&mut written, &chars, decimals, len);
        proof {
            lemma_decimal_json_is_number(text@);
        }
        Some(JsonNumber { text: string_of(&written) })
    }

    /// The number `value`, in decimal digits.
    pub fn from_u32(value: u32) -> (number: JsonNumber)
        ensures
            number@ == decimal(value as nat),
    {
        let mut text = String::new();
        write_decimal(value, &mut text);
        proof {
            lemma_decimal_is_number(value as nat);
            assert(text@ =~= decimal(value as nat));
        }
        JsonNumber { text }
    }

    /// The text of the number, which is a JSON number.
    pub fn as_str(&self) -> (text: &str)
        ensures
            text@ == self@,
            is_json_number(text@),
    {
        proof {
            use_type_invariant(self);
        }
        self.text.as_str()
    }
}

} // verus!
