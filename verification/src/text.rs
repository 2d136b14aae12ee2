//! Decimal and hexadecimal text, and the reading of decimal integers.

use vstd::prelude::*;
use vstd::string::*;

verus! {

/// The character that writes the digit `d` in bases up to sixteen.
pub open spec fn digit_char(d: int) -> char {
    if d < 10 {
        (('0' as int) + d) as char
    } else {
        (('a' as int) + d - 10) as char
    }
}

/// `n` in decimal, without leading zeros.
pub open spec fn decimal(n: nat) -> Seq<char>
    decreases n,
{
    if n < 10 {
        seq![digit_char(n as int)]
    } else {
        decimal(n / 10).push(digit_char((n % 10) as int))
    }
}

/// `n` in decimal, with a minus sign in front when it is negative.
pub open spec fn signed_decimal(n: int) -> Seq<char> {
    if n < 0 {
        seq!['-'] + decimal((-n) as nat)
    } else {
        decimal(n as nat)
    }
}

/// Two lower-case hexadecimal digits for every byte, high half first.
pub open spec fn hex_lower(bytes: Seq<u8>) -> Seq<char> {
    Seq::new(
        2 * bytes.len(),
        |k: int|
            if k % 2 == 0 {
                digit_char(bytes[k / 2] as int / 16)
            } else {
                digit_char(bytes[k / 2] as int % 16)
            },
    )
}

/// Whether `c` is one of the ten ASCII decimal digits.
pub open spec fn is_digit(c: char) -> bool {
    '0' <= c <= '9'
}

/// The number that a run of decimal digits writes.
pub open spec fn digits_value(digits: Seq<char>) -> nat
    decreases digits.len(),
{
    if digits.len() == 0 {
        0
    } else {
        10 * digits_value(digits.drop_last()) + (digits.last() as nat - '0' as nat) as nat
    }
}

/// The digits of a decimal integer: the text without a leading sign.
pub open spec fn unsigned_part(s: Seq<char>) -> Seq<char> {
    if s.len() > 0 && (s[0] == '-' || s[0] == '+') {
        s.skip(1)
    } else {
        s
    }
}

/// The integer that `s` writes, were there no bound on it.
pub open spec fn integer_value(s: Seq<char>) -> int {
    if s.len() > 0 && s[0] == '-' {
        -(digits_value(unsigned_part(s)) as int)
    } else {
        digits_value(unsigned_part(s)) as int
    }
}

/// Whether `s` is an optional sign followed by at least one decimal digit and
/// nothing else.
pub open spec fn is_integer_text(s: Seq<char>) -> bool {
    &&& unsigned_part(s).len() > 0
    &&& forall|i: int| 0 <= i < unsigned_part(s).len() ==> is_digit(#[trigger] unsigned_part(s)[i])
}

/// The `i64` that `s` writes in decimal, if it writes one.
pub open spec fn i64_of_text(s: Seq<char>) -> Option<i64> {
    if is_integer_text(s) && i64::MIN <= integer_value(s) <= i64::MAX {
        Some(integer_value(s) as i64)
    } else {
        None
    }
}

/// The text of a single digit.
fn digit_text(d: u8) -> (r: &'static str)
    requires
        d < 16,
    ensures
        r@ == seq![digit_char(d as int)],
{
    proof {
        reveal_strlit("0");
        reveal_strlit("1");
        reveal_strlit("2");
        reveal_strlit("3");
        reveal_strlit("4");
        reveal_strlit("5");
        reveal_strlit("6");
        reveal_strlit("7");
        reveal_strlit("8");
        reveal_strlit("9");
        reveal_strlit("a");
        reveal_strlit("b");
        reveal_strlit("c");
        reveal_strlit("d");
        reveal_strlit("e");
        reveal_strlit("f");
    }
    match d {
        0 => "0",
        1 => "1",
        2 => "2",
        3 => "3",
        4 => "4",
        5 => "5",
        6 => "6",
        7 => "7",
        8 => "8",
        9 => "9",
        10 => "a",
        11 => "b",
        12 => "c",
        13 => "d",
        14 => "e",
        _ => "f",
    }
}

/// Writes `n` in decimal.
pub(crate) fn decimal_text(n: u64) -> (r: String)
    ensures
        r@ == decimal(n as nat),
    decreases n,
{
    if n < 10 {
        digit_text(n as u8).to_owned()
    } else {
        let mut r = decimal_text(n / 10);
        r.append(digit_text((n % 10) as u8));
        r
    }
}

/// Writes `n` in decimal, with a minus sign in front when it is negative.
pub(crate) fn signed_decimal_text(n: i64) -> (r: String)
    ensures
        r@ == signed_decimal(n as int),
{
    if n < 0 {
        proof {
            reveal_strlit("-");
        }
        let mut r = "-".to_owned();
        let size: u64 = (-(n as i128)) as u64;
        r.append(decimal_text(size).as_str());
        r
    } else {
        decimal_text(n as u64)
    }
}

/// Writes `bytes` as lower-case hexadecimal digits.
pub(crate) fn hex_text(bytes: &[u8]) -> (r: String)
    ensures
        r@ == hex_lower(bytes@),
{
    let mut r = String::new();
    let mut i: usize = 0;
    while i < bytes.len()
        invariant
            i <= bytes@.len(),
            r@ == hex_lower(bytes@.take(i as int)),
        decreases bytes@.len() - i,
    {
        let b: u8 = bytes[i];
        r.append(digit_text(b / 16));
        r.append(digit_text(b % 16));
        i = i + 1;
        assert(r@ =~= hex_lower(bytes@.take(i as int)));
    }
    assert(bytes@.take(i as int) =~= bytes@);
    r
}

/// The first digits of a run write a number that is no larger than the whole.
proof fn lemma_digits_value_bound(digits: Seq<char>, i: int)
    requires
        0 <= i <= digits.len(),
        forall|k: int| 0 <= k < digits.len() ==> is_digit(#[trigger] digits[k]),
    ensures
        digits_value(digits.take(i)) <= digits_value(digits),
    decreases digits.len() - i,
{
    if i == digits.len() {
        assert(digits.take(i) =~= digits);
    } else {
        lemma_digits_value_bound(digits, i + 1);
        assert(digits.take(i + 1).drop_last() =~= digits.take(i));
        assert(is_digit(digits[i]));
    }
}

/// Reads a decimal `i64`: an optional sign, then digits only. Anything else,
/// and anything out of range, is `None`.
pub(crate) fn parse_i64(s: &str) -> (r: Option<i64>)
    ensures
        r == i64_of_text(s@),
{
    let limit: i128 = 9_223_372_036_854_775_808;
    let mut negative: bool = false;
    let mut value: i128 = 0;
    let mut started: bool = false;
    let mut first: bool = true;
    let ghost all = s@;
    let ghost digits = unsigned_part(s@);
    let ghost skipped: int = all.len() - digits.len();
    for c in it: s.chars()
        invariant
            it.seq() == all,
            all == s@,
            digits == unsigned_part(all),
            skipped == all.len() - digits.len(),
            limit == 9_223_372_036_854_775_808,
            first == (it.index() == 0),
            first ==> !negative,
            !first ==> negative == (all[0] == '-'),
            started == (it.index() > skipped),
            0 <= value <= limit,
            it.index() >= skipped ==> value == digits_value(digits.take(it.index() - skipped)),
            it.index() < skipped ==> value == 0,
            forall|k: int|
                0 <= k < it.index() - skipped ==> is_digit(#[trigger] digits[k]),
    {
        let ghost at = it.index();
        if first && (c == '-' || c == '+') {
            negative = c == '-';
            first = false;
            assert(digits.take(0).len() == 0);
        } else {
            assert(digits[at - skipped] == c);
            if !('0' <= c && c <= '9') {
                assert(!is_digit(digits[at - skipped]));
                return None;
            }
            first = false;
            let d: i128 = (c as u32 - '0' as u32) as i128;
            assert(digits.take(at - skipped + 1).drop_last() =~= digits.take(at - skipped));
            assert(digits.take(at - skipped + 1).last() == c);
            value = 10 * value + d;
            started = true;
            if value > limit {
                proof {
                    if is_integer_text(all) {
                        lemma_digits_value_bound(digits, at - skipped + 1);
                    }
                }
                return None;
            }
        }
    }
    assert(started ==> digits.take(all.len() - skipped) =~= digits);
    if !started {
        return None;
    }
    let signed: i128 = if negative {
        -value
    } else {
        value
    };
    if signed > 9_223_372_036_854_775_807 {
        return None;
    }
    Some(signed as i64)
}

/// Copies a list of names.
pub(crate) fn copy_names(names: &Vec<String>) -> (r: Vec<String>)
    ensures
        r@.map_values(|c: String| c@) == names@.map_values(|c: String| c@),
{
    let mut r: Vec<String> = Vec::new();
    let mut i: usize = 0;
    while i < names.len()
        invariant
            i <= names@.len(),
            r@.len() == i,
            forall|k: int| 0 <= k < i ==> (#[trigger] r@[k])@ == names@[k]@,
        decreases names@.len() - i,
    {
        r.push(names[i].clone());
        i = i + 1;
    }
    assert(r@.map_values(|c: String| c@) =~= names@.map_values(|c: String| c@));
    r
}

/// The decimal text of a number is made of digits, at least one, that write the
/// number.
pub proof fn decimal_reads_back(n: nat)
    ensures
        digits_value(decimal(n)) == n,
        decimal(n).len() > 0,
        forall|i: int| 0 <= i < decimal(n).len() ==> is_digit(#[trigger] decimal(n)[i]),
    decreases n,
{
    if n < 10 {
        let one = seq![digit_char(n as int)];
        assert(one.drop_last() =~= Seq::empty());
        assert(digits_value(one.drop_last()) == 0);
    } else {
        decimal_reads_back(n / 10);
        let rest = decimal(n / 10);
        let d = digit_char((n % 10) as int);
        assert(rest.push(d).drop_last() =~= rest);
    }
}

/// Different numbers have different decimal texts.
pub proof fn decimal_is_injective(a: nat, b: nat)
    requires
        decimal(a) == decimal(b),
    ensures
        a == b,
{
    decimal_reads_back(a);
    decimal_reads_back(b);
}

/// Reading the decimal text of an `i64` gives the `i64` back.
pub proof fn signed_decimal_reads_back(n: i64)
    ensures
        i64_of_text(signed_decimal(n as int)) == Some(n),
{
    let s = signed_decimal(n as int);
    if n < 0 {
        decimal_reads_back((-n) as nat);
        assert(s.skip(1) =~= decimal((-n) as nat));
    } else {
        decimal_reads_back(n as nat);
        assert(is_digit(s[0]));
    }
}

/// Different bytes have different hexadecimal texts.
pub proof fn hex_is_injective(a: Seq<u8>, b: Seq<u8>)
    requires
        hex_lower(a) == hex_lower(b),
    ensures
        a == b,
{
    assert(hex_lower(a).len() == 2 * a.len() && hex_lower(b).len() == 2 * b.len());
    assert forall|i: int| 0 <= i < a.len() implies a[i] == b[i] by {
        let (x, y) = (a[i] as int, b[i] as int);
        let (k, l) = (2 * i, 2 * i + 1);
        assert(k / 2 == i && l / 2 == i && k % 2 == 0 && l % 2 == 1);
        assert(hex_lower(a)[k] == digit_char(x / 16) && hex_lower(b)[k] == digit_char(y / 16));
        assert(hex_lower(a)[l] == digit_char(x % 16) && hex_lower(b)[l] == digit_char(y % 16));
    }
    assert(a =~= b);
}

} // verus!
