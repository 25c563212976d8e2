//! Laws of numbers and texts: decimal numbers, indices, amounts and trimming.

use crate::text::{
    amount_text, decimal, digit_char, digits_value, eight_digits, index_value, is_white_space,
    lemma_decimal_round_trip, lemma_eight_digits, trimmed, unsigned_digits, without_leading,
    without_trailing,
};
use vstd::arithmetic::div_mod::*;
use vstd::arithmetic::power::*;
use vstd::prelude::*;

verus! {

/// Dividing by ten and then by a power of ten is dividing by the next power.
proof fn lemma_div_next_power(n: nat, k: nat)
    ensures
        n as int / 10 / pow(10, k) == n as int / pow(10, k + 1),
        pow(10, k) > 0,
{
    reveal(pow);
    lemma_pow_positive(10, k);
    lemma_div_denominator(n as int, 10, pow(10, k));
}

/// The digit of a decimal number at a place counted from its end is the digit of the
/// number at that power of ten.
pub proof fn law_decimal_places(n: nat, k: nat)
    requires
        k < decimal(n).len(),
    ensures
        decimal(n)[decimal(n).len() - 1 - k] == (48 + n as int / pow(10, k) % 10) as u8 as char,
    decreases n,
{
    lemma_pow0(10);
    if k == 0 {
    } else if n >= 10 {
        let rest = decimal(n / 10);
        assert(decimal(n) =~= rest.push(digit_char(n % 10)));
        law_decimal_places(n / 10, (k - 1) as nat);
        lemma_div_next_power(n, (k - 1) as nat);
        assert(decimal(n)[decimal(n).len() - 1 - k] == rest[rest.len() - 1 - (k - 1)]);
    }
}

/// A decimal number has as many digits as it needs, and no leading zero but for zero.
pub proof fn law_decimal_length(n: nat)
    ensures
        n < pow(10, decimal(n).len()),
        decimal(n).len() >= 1,
        decimal(n).len() > 1 ==> pow(10, (decimal(n).len() - 1) as nat) <= n,
    decreases n,
{
    lemma_pow0(10);
    lemma_pow1(10);
    if n >= 10 {
        let rest = decimal(n / 10);
        assert(decimal(n) =~= rest.push(digit_char(n % 10)));
        law_decimal_length(n / 10);
        reveal(pow);
        assert(pow(10, decimal(n).len()) == 10 * pow(10, rest.len()));
        assert(n < 10 * pow(10, rest.len()));
        if rest.len() > 1 {
            assert(pow(10, rest.len()) == 10 * pow(10, (rest.len() - 1) as nat));
        }
    }
}

/// Different numbers are written differently.
pub proof fn law_decimal_injective(a: nat, b: nat)
    ensures
        decimal(a) == decimal(b) ==> a == b,
{
    lemma_decimal_round_trip(a);
    lemma_decimal_round_trip(b);
}

/// Digits write a number if and only if all of them are digits; its digit at each power of
/// ten is the one at that place, and there are no others.
pub proof fn law_digits(s: Seq<char>, k: nat)
    ensures
        digits_value(s) is Some <==> forall|i: int|
            0 <= i < s.len() ==> 48 <= (#[trigger] s[i]) as u32 <= 57,
        digits_value(s) matches Some(v) ==> v < pow(10, s.len()) && (k < s.len() ==> v as int / pow(
            10,
            k,
        ) % 10 == s[s.len() - 1 - k] as u32 - 48),
    decreases s.len(),
{
    lemma_pow0(10);
    if s.len() > 0 {
        let front = s.drop_last();
        law_digits(front, if k > 0 {
            (k - 1) as nat
        } else {
            0
        });
        reveal(pow);
        assert(pow(10, s.len()) == 10 * pow(10, front.len()));
        assert forall|i: int| 0 <= i < front.len() implies front[i] == #[trigger] s[i] by {}
        if digits_value(s) is Some {
            assert(digits_value(front) is Some);
            assert(48 <= s.last() as u32 <= 57);
            assert forall|i: int| 0 <= i < s.len() implies 48 <= (#[trigger] s[i]) as u32 <= 57 by {
                if i < front.len() {
                    assert(48 <= front[i] as u32 <= 57);
                }
            }
            let v = digits_value(s)->0;
            let high = digits_value(front)->0;
            assert(v == high * 10 + (s.last() as u32 - 48));
            assert(v / 10 == high);
            assert(v < 10 * pow(10, front.len()));
            if 0 < k < s.len() {
                lemma_div_next_power(v, (k - 1) as nat);
                assert(s[s.len() - 1 - k] == front[front.len() - 1 - (k - 1)]);
            }
        } else {
            if forall|i: int| 0 <= i < s.len() ==> 48 <= (#[trigger] s[i]) as u32 <= 57 {
                assert forall|i: int| 0 <= i < front.len() implies 48 <= (#[trigger]
                front[i]) as u32 <= 57 by {
                    assert(48 <= s[i] as u32 <= 57);
                }
                assert(48 <= s[s.len() - 1] as u32 <= 57);
            }
        }
    }
}

/// Two numbers below a power of ten with the same digits are the same.
proof fn lemma_same_digits(a: nat, b: nat, n: nat)
    requires
        a < pow(10, n),
        b < pow(10, n),
        forall|k: nat| k < n ==> a as int / #[trigger] pow(10, k) % 10 == b as int / pow(10, k) % 10,
    ensures
        a == b,
    decreases n,
{
    lemma_pow0(10);
    if n > 0 {
        reveal(pow);
        assert(pow(10, n) == 10 * pow(10, (n - 1) as nat));
        assert(a as int / pow(10, 0) % 10 == b as int / pow(10, 0) % 10);
        assert forall|k: nat| k < n - 1 implies (a / 10) as int / #[trigger] pow(10, k) % 10 == (b
            / 10) as int / pow(10, k) % 10 by {
            lemma_div_next_power(a, k);
            lemma_div_next_power(b, k);
            assert(a as int / pow(10, k + 1) % 10 == b as int / pow(10, k + 1) % 10);
        }
        lemma_same_digits(a / 10, b / 10, (n - 1) as nat);
    }
}

/// Digits read as the number with these digits, with a plus sign before them too, where a
/// `usize` holds it; and as nothing where it does not.
pub proof fn law_index_reads(digits: Seq<char>, v: nat)
    requires
        digits.len() > 0,
        forall|i: int| 0 <= i < digits.len() ==> 48 <= (#[trigger] digits[i]) as u32 <= 57,
        v < pow(10, digits.len()),
        forall|k: nat|
            k < digits.len() ==> v as int / #[trigger] pow(10, k) % 10 == digits[digits.len() - 1
                - k] as u32 - 48,
    ensures
        index_value(digits) == (if v <= usize::MAX {
            Some(v)
        } else {
            None
        }),
        index_value(seq!['+'] + digits) == index_value(digits),
{
    law_digits(digits, 0);
    let w = digits_value(digits)->0;
    assert forall|k: nat| k < digits.len() implies v as int / #[trigger] pow(10, k) % 10 == w as int
        / pow(10, k) % 10 by {
        law_digits(digits, k);
    }
    lemma_same_digits(v, w, digits.len());
    assert(48 <= digits[0] as u32);
    assert((seq!['+'] + digits).drop_first() =~= digits);
}

/// Only digits, at least one, with a plus sign before them or without, are an index.
pub proof fn law_index_shape(s: Seq<char>)
    ensures
        index_value(s) is Some ==> exists|digits: Seq<char>|
            #![trigger digits.len()]
            digits.len() > 0 && (s == digits || s == seq!['+'] + digits) && forall|i: int|
                0 <= i < digits.len() ==> 48 <= (#[trigger] digits[i]) as u32 <= 57,
        index_value(s) matches Some(v) ==> v <= usize::MAX,
{
    let digits = unsigned_digits(s);
    law_digits(digits, 0);
    if index_value(s) is Some {
        if s != digits {
            assert(s =~= seq!['+'] + digits);
        }
        assert(digits.len() > 0);
    }
}

/// An amount in satoshis is the number and the unit; one in bitcoin has eight digits behind
/// a point, the digits of the number of satoshis at the lowest eight powers of ten, the
/// number of whole bitcoins before it, and the unit behind it.
pub proof fn law_amounts(value: nat)
    ensures
        amount_text(value, true) == decimal(value) + " sats"@,
        ({
            let text = amount_text(value, false);
            let whole = decimal(value / 100_000_000);
            let n = whole.len() as int;
            &&& text.len() == n + 13
            &&& text.subrange(0, n) == whole
            &&& text[n] == '.'
            &&& text.subrange(n + 9, n + 13) == seq![' ', 'B', 'T', 'C']
            &&& forall|k: nat|
                k < 8 ==> text[n + 8 - k] == (48 + value as int / #[trigger] pow(10, k)
                    % 10) as u8 as char
        }),
{
    reveal_strlit(".");
    reveal_strlit(" BTC");
    let text = amount_text(value, false);
    let whole = decimal(value / 100_000_000);
    let n = whole.len() as int;
    let rest = value % 100_000_000;
    let digits = eight_digits(rest);
    lemma_eight_digits(rest);
    assert(text =~= whole + "."@ + digits + " BTC"@);
    assert(text.subrange(0, n) =~= whole);
    assert(text.subrange(n + 9, n + 13) =~= seq![' ', 'B', 'T', 'C']);
    assert forall|k: nat| k < 8 implies text[n + 8 - k] == (48 + value as int / #[trigger] pow(10, k)
        % 10) as u8 as char by {
        let full = 100_000_000 + rest;
        assert(decimal(full).len() == 9);
        law_decimal_places(full as nat, k);
        assert(text[n + 8 - k] == digits[7 - k]);
        assert(digits[7 - k] == decimal(full)[8 - k]);
        lemma_low_digits(value, rest, full as nat, k);
    }
}

/// A multiple of ten times a power does not change the digit at that power.
proof fn lemma_digit_below(rest: int, p: int, m: int, q: int)
    requires
        p > 0,
        rest >= 0,
    ensures
        (rest + (10 * m * q) * p) / p % 10 == rest / p % 10,
{
    lemma_hoist_over_denominator(rest, 10 * m * q, p as nat);
    assert(10 * m * q == 10 * (m * q)) by (nonlinear_arith);
    lemma_mod_multiples_vanish(m * q, rest / p, 10);
}

/// The lowest eight digits do not depend on what is above them.
proof fn lemma_low_digits(value: nat, rest: nat, full: nat, k: nat)
    requires
        rest == value % 100_000_000,
        full == 100_000_000 + rest,
        k < 8,
    ensures
        full as int / pow(10, k) % 10 == value as int / pow(10, k) % 10,
{
    let q = value as int / 100_000_000;
    let p = pow(10, k);
    let m = pow(10, (7 - k) as nat);
    lemma_pow_positive(10, k);
    lemma_pow_adds(10, k, (7 - k) as nat);
    assert(pow(10, 7) == 10_000_000) by {
        reveal_with_fuel(pow, 8);
    }
    assert(p * m == 10_000_000);
    assert((10 * m * q) * p == 100_000_000 * q) by (nonlinear_arith)
        requires
            p * m == 10_000_000,
    ;
    assert((10 * m * 1) * p == 100_000_000) by (nonlinear_arith)
        requires
            p * m == 10_000_000,
    ;
    lemma_digit_below(rest as int, p, m, q);
    lemma_digit_below(rest as int, p, m, 1);
}

/// The characters that count as white space, by their numbers.
pub proof fn law_white_space(c: char)
    ensures
        is_white_space(c) <==> seq![
            9u32,
            10,
            11,
            12,
            13,
            32,
            133,
            160,
            5760,
            8192,
            8193,
            8194,
            8195,
            8196,
            8197,
            8198,
            8199,
            8200,
            8201,
            8202,
            8232,
            8233,
            8239,
            8287,
            12288,
        ].contains(c as u32),
{
    let v = c as u32;
    let all = seq![
        9u32,
        10,
        11,
        12,
        13,
        32,
        133,
        160,
        5760,
        8192,
        8193,
        8194,
        8195,
        8196,
        8197,
        8198,
        8199,
        8200,
        8201,
        8202,
        8232,
        8233,
        8239,
        8287,
        12288,
    ];
    if is_white_space(c) {
        let i = if v <= 13 {
            v - 9
        } else if v == 32 {
            5
        } else if v == 133 {
            6
        } else if v == 160 {
            7
        } else if v == 5760 {
            8
        } else if v <= 8202 {
            v - 8183
        } else if v <= 8233 {
            v - 8212
        } else if v == 8239 {
            22
        } else if v == 8287 {
            23
        } else {
            24int
        };
        assert(all[i] == v);
    }
}

/// Trimming gives what stands between white space, and nothing where there is only white
/// space.
pub proof fn law_trim(before: Seq<char>, text: Seq<char>, after: Seq<char>)
    requires
        forall|i: int| 0 <= i < before.len() ==> is_white_space(#[trigger] before[i]),
        forall|i: int| 0 <= i < after.len() ==> is_white_space(#[trigger] after[i]),
        text.len() > 0 ==> !is_white_space(text[0]) && !is_white_space(text.last()),
    ensures
        trimmed(before + text + after) == text,
    decreases before.len() + after.len(),
{
    let s = before + text + after;
    if before.len() > 0 {
        assert(s[0] == before[0]);
        assert(s.drop_first() =~= before.drop_first() + text + after);
        assert forall|i: int| 0 <= i < before.drop_first().len() implies is_white_space(
            #[trigger] before.drop_first()[i],
        ) by {
            assert(before.drop_first()[i] == before[i + 1]);
        }
        law_trim(before.drop_first(), text, after);
    } else if text.len() > 0 {
        assert(s[0] == text[0]);
        lemma_trailing(text, after);
        assert(s =~= text + after);
    } else {
        assert(s =~= after);
        lemma_leading(after);
        assert(text =~= Seq::<char>::empty());
    }
}

proof fn lemma_leading(s: Seq<char>)
    requires
        forall|i: int| 0 <= i < s.len() ==> is_white_space(#[trigger] s[i]),
    ensures
        without_leading(s) == Seq::<char>::empty(),
    decreases s.len(),
{
    if s.len() > 0 {
        assert(is_white_space(s[0]));
        assert forall|i: int| 0 <= i < s.drop_first().len() implies is_white_space(
            #[trigger] s.drop_first()[i],
        ) by {
            assert(s.drop_first()[i] == s[i + 1]);
        }
        lemma_leading(s.drop_first());
    } else {
        assert(s =~= Seq::<char>::empty());
    }
}

proof fn lemma_trailing(text: Seq<char>, after: Seq<char>)
    requires
        forall|i: int| 0 <= i < after.len() ==> is_white_space(#[trigger] after[i]),
        text.len() > 0,
        !is_white_space(text.last()),
    ensures
        without_trailing(text + after) == text,
    decreases after.len(),
{
    let s = text + after;
    if after.len() > 0 {
        assert(s.last() == after.last());
        assert(is_white_space(after[after.len() - 1]));
        assert(s.drop_last() =~= text + after.drop_last());
        assert forall|i: int| 0 <= i < after.drop_last().len() implies is_white_space(
            #[trigger] after.drop_last()[i],
        ) by {
            assert(after.drop_last()[i] == after[i]);
        }
        lemma_trailing(text, after.drop_last());
    } else {
        assert(s =~= text);
        assert(s.last() == text.last());
    }
}

} // verus!
