//! Decimal text of port numbers: what a text is worth as a number, how a
//! number is written, and that the two agree.

use vstd::prelude::*;
use vstd::string::StringExecFns;

verus! {

/// `c` is one of the ten ASCII digits.
pub open spec fn is_digit(c: char) -> bool {
    '0' <= c && c <= '9'
}

/// The number that the digit `c` stands for.
pub open spec fn digit_value(c: char) -> nat
    recommends
        is_digit(c),
{
    (c as int - '0' as int) as nat
}

/// The digit that stands for `d`.
pub open spec fn digit_char(d: nat) -> char
    recommends
        d < 10,
{
    ('0' as int + d) as char
}

/// Every character of `s` is a digit.
pub open spec fn all_digits(s: Seq<char>) -> bool {
    forall|i: int| 0 <= i < s.len() ==> is_digit(#[trigger] s[i])
}

/// The number that the digits of `s` denote in base ten; leading zeros
/// count for nothing, and the empty sequence denotes zero.
pub open spec fn decimal_value(s: Seq<char>) -> nat
    recommends
        all_digits(s),
    decreases s.len(),
{
    if s.len() == 0 {
        0
    } else {
        10 * decimal_value(s.drop_last()) + digit_value(s.last())
    }
}

/// `s` without the one plus sign that may stand in front of a number.
pub open spec fn unsigned_part(s: Seq<char>) -> Seq<char> {
    if s.len() > 0 && s[0] == '+' {
        s.drop_first()
    } else {
        s
    }
}

/// The port that the text `s` denotes, if it denotes one: an optional
/// plus sign followed by at least one digit and nothing else, with a
/// value of at most 65535. Leading zeros are accepted.
pub open spec fn port_value(s: Seq<char>) -> Option<u16> {
    let digits = unsigned_part(s);
    if digits.len() > 0 && all_digits(digits) && decimal_value(digits) <= u16::MAX {
        Some(decimal_value(digits) as u16)
    } else {
        None
    }
}

/// The shortest decimal text of `n`: no sign, and no leading zero but
/// for zero itself.
pub open spec fn decimal_text(n: nat) -> Seq<char>
    decreases n,
{
    if n < 10 {
        seq![digit_char(n)]
    } else {
        decimal_text(n / 10).push(digit_char(n % 10))
    }
}

/// The value of a text is at least the value of each of its prefixes.
pub proof fn decimal_value_of_prefix(s: Seq<char>, k: int)
    requires
        0 <= k <= s.len(),
    ensures
        decimal_value(s.take(k)) <= decimal_value(s),
    decreases s.len(),
{
    if k == s.len() {
        assert(s.take(k) =~= s);
    } else {
        assert(s.drop_last().take(k) =~= s.take(k));
        decimal_value_of_prefix(s.drop_last(), k);
    }
}

/// The decimal text of a number is made of digits, starts with a zero
/// only where the number is zero, and denotes that number.
pub proof fn decimal_text_denotes(n: nat)
    ensures
        decimal_text(n).len() > 0,
        all_digits(decimal_text(n)),
        decimal_text(n)[0] == '0' <==> n == 0,
        decimal_value(decimal_text(n)) == n,
    decreases n,
{
    let text = decimal_text(n);
    if n < 10 {
        assert(text.drop_last() =~= Seq::<char>::empty());
        assert(decimal_value(text.drop_last()) == 0);
    } else {
        decimal_text_denotes(n / 10);
        assert(text.drop_last() =~= decimal_text(n / 10));
        assert(text[0] == decimal_text(n / 10)[0]);
        assert forall|i: int| 0 <= i < text.len() implies is_digit(#[trigger] text[i]) by {
            if i < text.len() - 1 {
                assert(text[i] == decimal_text(n / 10)[i]);
            }
        }
    }
}

/// Reading the decimal text of a port gives that port back.
pub proof fn port_value_of_decimal_text(port: u16)
    ensures
        port_value(decimal_text(port as nat)) == Some(port),
{
    decimal_text_denotes(port as nat);
}

/// The text of one digit.
fn digit_str(d: u16) -> (text: &'static str)
    requires
        d < 10,
    ensures
        text@ == seq![digit_char(d as nat)],
{
    let digits = "0123456789";
    proof {
        reveal_strlit("0123456789");
    }
    let text = digits.substring_char(d as usize, d as usize + 1);
    assert(text@ =~= seq![digit_char(d as nat)]);
    text
}

/// Writes `n` in decimal.
pub fn u16_to_string(n: u16) -> (text: String)
    ensures
        text@ == decimal_text(n as nat),
    decreases n,
{
    if n < 10 {
        digit_str(n).to_owned()
    } else {
        let mut text = u16_to_string(n / 10);
        text.append(digit_str(n % 10));
        text
    }
}

/// Reads `text` as a port number: `None` unless the whole of it is an
/// optional plus sign and then digits that denote a value of at most
/// 65535.
pub fn parse_u16(text: &str) -> (value: Option<u16>)
    ensures
        value == port_value(text@),
{
    let mut value: u32 = 0;
    let mut at_start = true;
    let mut any_digit = false;
    let ghost sign: int = if text@.len() > 0 && text@[0] == '+' { 1 } else { 0 };
    for c in it: text.chars()
        invariant
            it.seq() == text@,
            sign == if text@.len() > 0 && text@[0] == '+' { 1int } else { 0int },
            at_start == (it.index() == 0),
            any_digit == (it.index() > sign),
            it.index() < sign ==> value == 0,
            it.index() >= sign ==> all_digits(text@.subrange(sign, it.index() as int)),
            it.index() >= sign ==> value == decimal_value(text@.subrange(sign, it.index() as int)),
            value <= u16::MAX,
    {
        let ghost k = it.index() as int;
        if at_start && c == '+' {
            at_start = false;
        } else if '0' <= c && c <= '9' {
            let digit: u32 = c as u32 - '0' as u32;
            value = value * 10 + digit;
            proof {
                let read = text@.subrange(sign, k + 1);
                assert(unsigned_part(text@) =~= text@.skip(sign));
                assert(read.drop_last() =~= text@.subrange(sign, k));
                assert(read.last() == c);
                assert(value == decimal_value(read));
                assert(text@.skip(sign).take(k + 1 - sign) =~= read);
                decimal_value_of_prefix(text@.skip(sign), k + 1 - sign);
            }
            if value > 65535 {
                return None;
            }
            at_start = false;
            any_digit = true;
        } else {
            proof {
                assert(unsigned_part(text@) =~= text@.skip(sign));
                assert(unsigned_part(text@)[k - sign] == c);
            }
            return None;
        }
    }
    proof {
        assert(unsigned_part(text@) =~= text@.subrange(sign, text@.len() as int));
    }
    if any_digit {
        Some(value as u16)
    } else {
        None
    }
}

} // verus!
