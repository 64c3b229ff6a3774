//! Numbers in decimal, as header fields and the metrics page write them.

use vstd::prelude::*;
use vstd::string::StringExecFns;

verus! {

/// `c` is one of the ten decimal digits.
pub open spec fn is_digit(c: char) -> bool {
    '0' <= c <= '9'
}

/// The number that a decimal digit stands for.
pub open spec fn digit_value(c: char) -> nat {
    (c as int - '0' as int) as nat
}

/// Every character of `text` is a decimal digit.
pub open spec fn all_digits(text: Seq<char>) -> bool {
    forall|i: int| 0 <= i < text.len() ==> is_digit(#[trigger] text[i])
}

/// The number that a string of decimal digits stands for.
pub open spec fn decimal_value(digits: Seq<char>) -> nat
    decreases digits.len(),
{
    if digits.len() == 0 {
        0
    } else {
        decimal_value(digits.drop_last()) * 10 + digit_value(digits.last())
    }
}

/// The digits of `text` behind an optional plus sign.
pub open spec fn unsigned_digits(text: Seq<char>) -> Seq<char> {
    if text.len() > 0 && text[0] == '+' {
        text.skip(1)
    } else {
        text
    }
}

/// The 64-bit number that `text` writes in decimal: an optional plus sign,
/// then digits alone, at least one, whose value fits.
pub open spec fn parsed_u64(text: Seq<char>) -> Option<u64> {
    let digits = unsigned_digits(text);
    if digits.len() > 0 && all_digits(digits) && decimal_value(digits) <= u64::MAX {
        Some(decimal_value(digits) as u64)
    } else {
        None
    }
}

/// The digit that stands for `n`, for `n` below ten.
pub open spec fn digit_char(n: nat) -> char {
    ('0' as int + n) as char
}

/// `n` in decimal, without leading zeros.
pub open spec fn decimal(n: nat) -> Seq<char>
    decreases n,
{
    if n < 10 {
        seq![digit_char(n)]
    } else {
        decimal(n / 10).push(digit_char(n % 10))
    }
}

/// A longer string of digits stands for no smaller a number.
proof fn lemma_decimal_value_grows(digits: Seq<char>, n: int)
    requires
        0 <= n <= digits.len(),
    ensures
        decimal_value(digits.take(n)) <= decimal_value(digits),
    decreases digits.len() - n,
{
    if n < digits.len() {
        lemma_decimal_value_grows(digits, n + 1);
        assert(digits.take(n + 1).drop_last() =~= digits.take(n));
    } else {
        assert(digits.take(n) =~= digits);
    }
}

/// What is written in decimal is digits alone, at least one, and stands for
/// the number that was written.
pub proof fn lemma_decimal_reads_back(n: nat)
    ensures
        decimal(n).len() > 0,
        all_digits(decimal(n)),
        decimal_value(decimal(n)) == n,
    decreases n,
{
    let text = decimal(n);
    if n < 10 {
        assert(text.drop_last() =~= Seq::<char>::empty());
        assert(decimal_value(text.drop_last()) == 0);
        assert(is_digit(text[0]));
    } else {
        lemma_decimal_reads_back(n / 10);
        assert(text.drop_last() =~= decimal(n / 10));
        assert(is_digit(digit_char(n % 10)));
        assert(digit_value(digit_char(n % 10)) == n % 10);
        assert forall|i: int| 0 <= i < text.len() implies is_digit(#[trigger] text[i]) by {
            if i < text.len() - 1 {
                assert(text[i] == decimal(n / 10)[i]);
            }
        }
    }
}

/// Reading back a number that was written in decimal gives that number.
pub proof fn lemma_parse_of_decimal(n: u64)
    ensures
        parsed_u64(decimal(n as nat)) == Some(n),
{
    lemma_decimal_reads_back(n as nat);
    assert(is_digit(decimal(n as nat)[0]));
}

/// The text of one decimal digit.
fn digit_text(n: u64) -> (text: &'static str)
    requires
        n < 10,
    ensures
        text@ == seq![digit_char(n as nat)],
{
    proof {
        reveal_strlit("0");
        reveal_strlit("1");
        reveal_strlit("2");
        reveal_strlit("3");
        reveal_strlit("4");
        reveal_strlit("5");
        reveal_strlit("6");
        reveal_strlit("7");
        reveal_strlit("8");
        reveal_strlit("9");
    }
    match n {
        0 => "0",
        1 => "1",
        2 => "2",
        3 => "3",
        4 => "4",
        5 => "5",
        6 => "6",
        7 => "7",
        8 => "8",
        _ => "9",
    }
}

/// Appends `n` in decimal to `out`.
pub fn append_decimal(out: &mut String, n: u64)
    ensures
        final(out)@ == old(out)@ + decimal(n as nat),
    decreases n,
{
    if n >= 10 {
        append_decimal(out, n / 10);
    }
    out.append(digit_text(n % 10));
    proof {
        if n >= 10 {
            assert(out@ =~= old(out)@ + decimal((n / 10) as nat) + seq![digit_char((n % 10) as nat)]);
        }
        assert(out@ =~= old(out)@ + decimal(n as nat));
    }
}

/// Reads a 64-bit number written in decimal.
pub fn parse_u64(text: &str) -> (number: Option<u64>)
    ensures
        number == parsed_u64(text@),
{
    let ghost digits = unsigned_digits(text@);
    if !text.is_ascii() {
        proof {
            let i = choose|i: int| 0 <= i < text@.len() && !(0 <= text@[i] as int && (text@[i] as int) < 128);
            if text@[0] == '+' {
                assert(digits[i - 1] == text@[i]);
            } else {
                assert(digits[i] == text@[i]);
            }
        }
        return None;
    }
    let bytes = text.as_bytes();
    let mut next: usize = 0;
    if bytes.len() > 0 && bytes[0] == 43 {
        next = 1;
    }
    if next == bytes.len() {
        return None;
    }
    let first: usize = next;
    assert(digits =~= text@.skip(first as int));
    let mut total: u64 = 0;
    assert(digits.take(0) =~= Seq::<char>::empty());
    while next < bytes.len()
        invariant
            first <= next <= bytes@.len(),
            bytes@.len() == text@.len(),
            forall|i: int| 0 <= i < text@.len() ==> #[trigger] bytes@[i] as int == text@[i] as int,
            digits == text@.skip(first as int),
            digits.len() > 0,
            forall|i: int| 0 <= i < next - first ==> is_digit(#[trigger] digits[i]),
            total == decimal_value(digits.take(next - first)),
            digits == unsigned_digits(text@),
        decreases bytes@.len() - next,
    {
        let byte: u8 = bytes[next];
        let ghost place = next - first;
        assert(bytes@[next as int] as int == text@[next as int] as int);
        assert(digits[place] == text@[next as int]);
        if byte < 48 || byte > 57 {
            assert(!is_digit(digits[place]));
            return None;
        }
        proof {
            assert(digits.take(place + 1).drop_last() =~= digits.take(place));
            assert(digits.take(place + 1).last() == digits[place]);
            lemma_decimal_value_grows(digits, place + 1);
        }
        let digit: u64 = (byte - 48) as u64;
        assert(decimal_value(digits.take(place + 1)) == total * 10 + digit);
        if total > (u64::MAX - digit) / 10 {
            return None;
        }
        total = total * 10 + digit;
        next = next + 1;
    }
    assert(digits.take(next - first) =~= digits);
    Some(total)
}

/// `sums` are the numbers that the beginnings of `digits` write: zero for none
/// of them, and for each digit more, ten times as much and that digit.
pub open spec fn are_sums(sums: Seq<int>, digits: Seq<char>) -> bool {
    &&& sums.len() == digits.len() + 1
    &&& sums[0] == 0
    &&& forall|i: int|
        0 <= i < digits.len() ==> '0' <= #[trigger] digits[i] <= '9' && sums[i + 1] == sums[i] * 10 + (
        digits[i] as int - 48)
}

/// The last of the sums is what the digits stand for.
proof fn lemma_sums_end_in_value(sums: Seq<int>, digits: Seq<char>)
    requires
        are_sums(sums, digits),
    ensures
        all_digits(digits),
        sums.last() == decimal_value(digits),
    decreases digits.len(),
{
    assert(all_digits(digits));
    if digits.len() > 0 {
        let shorter = digits.drop_last();
        let fewer = sums.drop_last();
        assert forall|i: int| 0 <= i < shorter.len() implies '0' <= #[trigger] shorter[i] <= '9' && fewer[i + 1]
            == fewer[i] * 10 + (shorter[i] as int - 48) by {
            assert(shorter[i] == digits[i]);
        }
        lemma_sums_end_in_value(fewer, shorter);
        let last = digits.len() - 1;
        assert(digits[last] == digits.last());
        assert(sums[last + 1] == sums[last] * 10 + (digits[last] as int - 48));
    }
}

/// A number is read digit by digit: digits, with or without one plus sign in
/// front, are read as the number they write, as long as it fits in 64 bits.
pub proof fn number_is_read_digit_by_digit(digits: Seq<char>, sums: Seq<int>)
    requires
        digits.len() > 0,
        are_sums(sums, digits),
    ensures
        sums.last() <= 0xffff_ffff_ffff_ffff ==> parsed_u64(digits) == Some(sums.last() as u64),
        sums.last() > 0xffff_ffff_ffff_ffff ==> parsed_u64(digits) is None,
        parsed_u64(seq!['+'] + digits) == parsed_u64(digits),
{
    lemma_sums_end_in_value(sums, digits);
    assert('0' <= digits[0] <= '9');
    assert((seq!['+'] + digits).skip(1) =~= digits);
}

/// Any other text is no number: one without a digit, or with another character
/// than a digit, but for a plus sign in front.
pub proof fn other_text_is_no_number(text: Seq<char>, place: int)
    requires
        ({
            ||| text.len() == 0
            ||| text == seq!['+']
            ||| 0 <= place < text.len() && !('0' <= text[place] <= '9') && !(place == 0 && text[0] == '+')
        }),
    ensures
        parsed_u64(text) is None,
{
    let digits = unsigned_digits(text);
    if 0 <= place < text.len() {
        if text[0] == '+' {
            if place > 0 {
                assert(digits[place - 1] == text[place]);
                assert(!is_digit(digits[place - 1]));
            }
        } else {
            assert(!is_digit(digits[place]));
        }
    }
}

/// Digits without a zero in front are how the number that they write is written.
proof fn lemma_decimal_is_unique(digits: Seq<char>)
    requires
        digits.len() > 0,
        all_digits(digits),
        digits.len() > 1 ==> digits[0] != '0',
    ensures
        decimal(decimal_value(digits)) == digits,
        digits[0] != '0' ==> decimal_value(digits) > 0,
    decreases digits.len(),
{
    let shorter = digits.drop_last();
    let n = decimal_value(digits);
    assert(is_digit(digits.last()) && is_digit(digits[0]));
    let d = digit_value(digits.last());
    assert(digit_char(d) == digits.last());
    if digits.len() == 1 {
        assert(decimal_value(shorter) == 0);
        assert(decimal(n) =~= digits);
    } else {
        assert forall|i: int| 0 <= i < shorter.len() implies is_digit(#[trigger] shorter[i]) by {
            assert(shorter[i] == digits[i]);
        }
        assert(shorter[0] == digits[0]);
        lemma_decimal_is_unique(shorter);
        assert(n == decimal_value(shorter) * 10 + d);
        assert(n / 10 == decimal_value(shorter) && n % 10 == d);
        assert(shorter.push(digits.last()) =~= digits);
    }
}

/// A number is written in decimal in one way: digits that write it, with no zero
/// in front of others, are how it is written.
pub proof fn number_is_written_in_one_way(n: nat, digits: Seq<char>, sums: Seq<int>)
    requires
        digits.len() > 0,
        are_sums(sums, digits),
        sums.last() == n,
        digits.len() > 1 ==> digits[0] != '0',
    ensures
        decimal(n) == digits,
{
    lemma_sums_end_in_value(sums, digits);
    lemma_decimal_is_unique(digits);
}

} // verus!
