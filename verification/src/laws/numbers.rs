//! What reading and writing numbers is for.

use vstd::arithmetic::power::{lemma_pow0, lemma_pow1, pow};
use vstd::prelude::*;

use super::artifacts::lemma_no_leading_zero;
use crate::text::{
    decimal, decimal_reads_back, decimal_text, digits_value, hex_text, i64_of_text, is_digit,
    is_integer_text, parse_i64, signed_decimal, signed_decimal_text, unsigned_part,
};

verus! {

/// Whether `digits` are decimal digits, at least one.
pub open spec fn are_digits(digits: Seq<char>) -> bool {
    digits.len() > 0 && forall|i: int| 0 <= i < digits.len() ==> '0' <= #[trigger] digits[i] <= '9'
}

/// Whether `text` is an optional sign and decimal digits that write `n`.
pub open spec fn writes(text: Seq<char>, n: int) -> bool {
    exists|digits: Seq<char>| #[trigger]
        are_digits(digits) && {
            ||| text == digits && n == digits_value(digits)
            ||| text == seq!['+'] + digits && n == digits_value(digits)
            ||| text == seq!['-'] + digits && n == -(digits_value(digits) as int)
        }
}

/// The value of digits is positional: a digit is worth its distance from zero,
/// and digits in front count ten times as much for every digit behind them.
pub proof fn digits_are_worth_their_place(front: Seq<char>, back: Seq<char>, digit: char)
    ensures
        '0' <= digit <= '9' ==> digits_value(seq![digit]) == digit as int - '0' as int,
        digits_value(front + back) == digits_value(front) * pow(10, back.len()) + digits_value(
            back,
        ),
    decreases back.len(),
{
    if '0' <= digit <= '9' {
        let one = seq![digit];
        assert(one.drop_last() =~= Seq::empty());
        assert(digits_value(one.drop_last()) == 0);
    }
    if back.len() == 0 {
        assert(front + back =~= front);
        lemma_pow0(10);
    } else {
        let rest = back.drop_last();
        digits_are_worth_their_place(front, rest, digit);
        assert((front + back).drop_last() =~= front + rest);
        assert((front + back).last() == back.last());
        vstd::arithmetic::power::lemma_pow_adds(10, rest.len(), 1);
        lemma_pow1(10);
        let (a, p) = (digits_value(front) as int, pow(10, rest.len()));
        assert(pow(10, back.len()) == p * 10);
        assert(10 * (a * p) == a * (p * 10)) by (nonlinear_arith);
    }
}

/// A text is read as a number exactly where it writes one that fits, and as that
/// number.
pub(crate) proof fn numbers_are_read_as_written(text: &str, r: Option<i64>, n: i64)
    requires
        call_ensures(parse_i64, (text,), r),
    ensures
        r == Some(n) <==> writes(text@, n as int),
        r is None <==> forall|m: i64| !#[trigger] writes(text@, m as int),
{
    assert forall|m: i64| i64_of_text(text@) == Some(m) <==> #[trigger] writes(
        text@,
        m as int,
    ) by {
        lemma_writes(text@, m);
    }
    if r is Some {
        assert(writes(text@, r->0 as int));
    }
    lemma_writes(text@, n);
}

/// What a text writes is what is read out of it.
pub proof fn lemma_writes(text: Seq<char>, n: i64)
    ensures
        i64_of_text(text) == Some(n) <==> writes(text, n as int),
{
    if i64_of_text(text) == Some(n) {
        let digits = unsigned_part(text);
        assert(is_integer_text(text));
        assert(are_digits(digits)) by {
            assert forall|i: int| 0 <= i < digits.len() implies '0' <= #[trigger] digits[i]
                <= '9' by {
                assert(is_digit(unsigned_part(text)[i]));
            }
        }
        if text[0] == '-' {
            assert(text =~= seq!['-'] + digits);
        } else if text[0] == '+' {
            assert(text =~= seq!['+'] + digits);
        }
        assert(writes(text, n as int));
    }
    if writes(text, n as int) {
        let digits = choose|digits: Seq<char>| #[trigger]
            are_digits(digits) && {
                ||| text == digits && n == digits_value(digits)
                ||| text == seq!['+'] + digits && n == digits_value(digits)
                ||| text == seq!['-'] + digits && n == -(digits_value(digits) as int)
            };
        assert('0' <= digits[0] <= '9');
        assert((seq!['+'] + digits).skip(1) =~= digits);
        assert((seq!['-'] + digits).skip(1) =~= digits);
        assert(unsigned_part(text) == digits) by {
            if text == digits {
                assert(text[0] == digits[0]);
            } else if text == seq!['+'] + digits {
                assert(text[0] == '+');
            } else {
                assert(text[0] == '-');
            }
        }
        assert forall|i: int| 0 <= i < unsigned_part(text).len() implies is_digit(
            #[trigger] unsigned_part(text)[i],
        ) by {
            assert('0' <= digits[i] <= '9');
        }
        assert(is_integer_text(text));
        if text == digits {
            assert(text[0] == digits[0]);
        }
    }
}

/// A number is written in digits that are worth it, without leading zeros, and a
/// negative one with a minus sign in front.
pub(crate) proof fn numbers_are_written_as_they_are(
    n: u64,
    text: String,
    m: i64,
    signed: String,
) -> (digits: Seq<char>)
    requires
        call_ensures(decimal_text, (n,), text),
        call_ensures(signed_decimal_text, (m,), signed),
    ensures
        are_digits(text@),
        digits_value(text@) == n,
        text@.len() > 1 ==> text@[0] != '0',
        are_digits(digits),
        digits.len() > 1 ==> digits[0] != '0',
        m < 0 ==> signed@ == seq!['-'] + digits && -(digits_value(digits) as int) == m,
        m >= 0 ==> signed@ == digits && digits_value(digits) == m,
{
    lemma_decimal_digits(n as nat);
    let size: nat = if m < 0 {
        (-m) as nat
    } else {
        m as nat
    };
    lemma_decimal_digits(size);
    decimal(size)
}

/// The decimal text of a number is digits that are worth it, without leading
/// zeros.
pub proof fn lemma_decimal_digits(n: nat)
    ensures
        are_digits(decimal(n)),
        digits_value(decimal(n)) == n,
        decimal(n).len() > 1 ==> decimal(n)[0] != '0',
{
    decimal_reads_back(n);
    lemma_no_leading_zero(n);
    assert forall|i: int| 0 <= i < decimal(n).len() implies '0' <= #[trigger] decimal(n)[i]
        <= '9' by {
        assert(is_digit(decimal(n)[i]));
    }
}

/// The signed decimal text of a number writes it, with a minus sign exactly where
/// it is negative.
pub proof fn lemma_signed_decimal(n: i64) -> (digits: Seq<char>)
    ensures
        are_digits(digits),
        digits.len() > 1 ==> digits[0] != '0',
        n < 0 ==> signed_decimal(n as int) == seq!['-'] + digits && -(digits_value(digits) as int)
            == n,
        n >= 0 ==> signed_decimal(n as int) == digits && digits_value(digits) == n,
{
    let size: nat = if n < 0 {
        (-n) as nat
    } else {
        n as nat
    };
    lemma_decimal_digits(size);
    decimal(size)
}

/// Bytes are written two lower-case hexadecimal digits each.
pub(crate) proof fn bytes_are_written_in_hexadecimal(bytes: &[u8], text: String, k: int)
    requires
        call_ensures(hex_text, (bytes,), text),
        0 <= k < bytes@.len(),
    ensures
        text@.len() == 2 * bytes@.len(),
        text@[2 * k] == "0123456789abcdef"@[bytes@[k] as int / 16],
        text@[2 * k + 1] == "0123456789abcdef"@[bytes@[k] as int % 16],
{
    super::artifacts::lemma_hex_digit(bytes@[k] as int / 16);
    super::artifacts::lemma_hex_digit(bytes@[k] as int % 16);
    assert((2 * k) / 2 == k && (2 * k) % 2 == 0);
    assert((2 * k + 1) / 2 == k && (2 * k + 1) % 2 == 1);
}

} // verus!
