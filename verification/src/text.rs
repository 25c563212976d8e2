//! Text: decimal numbers and amounts, indices, trimming and concatenation.

use vstd::prelude::*;
use vstd::string::*;

verus! {

/// `String::push` appends one character.
pub assume_specification[ String::push ](s: &mut String, ch: char)
    ensures
        final(s)@ == old(s)@.push(ch),
;

/// The character of a decimal digit.
pub open spec fn digit_char(d: nat) -> char {
    (48 + d) as u8 as char
}

/// A number in decimal, without leading zeros.
pub open spec fn decimal(n: nat) -> Seq<char>
    decreases n,
{
    if n < 10 {
        seq![digit_char(n)]
    } else {
        decimal(n / 10).push(digit_char(n % 10))
    }
}

/// Writes `n` in decimal.
pub fn to_decimal(n: u64) -> (s: String)
    ensures
        s@ == decimal(n as nat),
    decreases n,
{
    let digit: char = (48 + (n % 10) as u8) as char;
    if n < 10 {
        let mut s = String::new();
        s.push(digit);
        assert(s@ =~= seq![digit_char(n as nat)]);
        s
    } else {
        let mut s = to_decimal(n / 10);
        s.push(digit);
        s
    }
}

/// Whether two texts hold the same characters.
pub fn same_text(a: &str, b: &str) -> (same: bool)
    ensures
        same == (a@ == b@),
{
    a.to_owned() == b.to_owned()
}

/// `a` followed by `b`.
pub fn concat(a: &str, b: &str) -> (s: String)
    ensures
        s@ == a@ + b@,
{
    a.to_owned().concat(b)
}

/// The characters with the Unicode property `White_Space`.
pub open spec fn is_white_space(c: char) -> bool {
    ||| 0x09 <= c as u32 <= 0x0d
    ||| c as u32 == 0x20
    ||| c as u32 == 0x85
    ||| c as u32 == 0xa0
    ||| c as u32 == 0x1680
    ||| 0x2000 <= c as u32 <= 0x200a
    ||| c as u32 == 0x2028
    ||| c as u32 == 0x2029
    ||| c as u32 == 0x202f
    ||| c as u32 == 0x205f
    ||| c as u32 == 0x3000
}

fn white_space(c: char) -> (white: bool)
    ensures
        white == is_white_space(c),
{
    let v: u32 = c as u32;
    (0x09 <= v && v <= 0x0d) || v == 0x20 || v == 0x85 || v == 0xa0 || v == 0x1680 || (0x2000 <= v
        && v <= 0x200a) || v == 0x2028 || v == 0x2029 || v == 0x202f || v == 0x205f || v == 0x3000
}

/// `s` without the white space at its start.
pub open spec fn without_leading(s: Seq<char>) -> Seq<char>
    decreases s.len(),
{
    if s.len() > 0 && is_white_space(s[0]) {
        without_leading(s.drop_first())
    } else {
        s
    }
}

/// `s` without the white space at its end.
pub open spec fn without_trailing(s: Seq<char>) -> Seq<char>
    decreases s.len(),
{
    if s.len() > 0 && is_white_space(s.last()) {
        without_trailing(s.drop_last())
    } else {
        s
    }
}

/// `s` without the white space at both ends.
pub open spec fn trimmed(s: Seq<char>) -> Seq<char> {
    without_trailing(without_leading(s))
}

/// Removes the white space at both ends.
pub fn trim(s: &str) -> (r: &str)
    ensures
        r@ == trimmed(s@),
{
    let n: usize = s.unicode_len();
    let mut from: usize = 0;
    assert(s@.skip(0) =~= s@);
    while from < n && white_space(s.get_char(from))
        invariant
            n == s@.len(),
            from <= n,
            without_leading(s@) == without_leading(s@.skip(from as int)),
        decreases n - from,
    {
        assert(s@.skip(from as int).drop_first() =~= s@.skip(from + 1));
        from = from + 1;
    }
    let mut to: usize = n;
    assert(s@.subrange(from as int, n as int) =~= s@.skip(from as int));
    while to > from && white_space(s.get_char(to - 1))
        invariant
            n == s@.len(),
            from <= to <= n,
            trimmed(s@) == without_trailing(s@.subrange(from as int, to as int)),
        decreases to,
    {
        assert(s@.subrange(from as int, to as int).drop_last() =~= s@.subrange(
            from as int,
            to - 1,
        ));
        to = to - 1;
    }
    s.substring_char(from, to)
}

/// The value of a decimal digit.
pub open spec fn digit_value(c: char) -> Option<nat> {
    if 48 <= c as u32 <= 57 {
        Some((c as u32 - 48) as nat)
    } else {
        None
    }
}

/// The number that decimal digits write, the most significant one first.
pub open spec fn digits_value(s: Seq<char>) -> Option<nat>
    decreases s.len(),
{
    if s.len() == 0 {
        Some(0)
    } else {
        match (digits_value(s.drop_last()), digit_value(s.last())) {
            (Some(high), Some(low)) => Some(high * 10 + low),
            _ => None,
        }
    }
}

/// The digits of a number that may be written with a leading plus sign.
pub open spec fn unsigned_digits(s: Seq<char>) -> Seq<char> {
    if s.len() > 0 && s[0] == '+' {
        s.drop_first()
    } else {
        s
    }
}

/// The index that a text writes: decimal digits, at least one, with an optional
/// plus sign before them, of a value that a `usize` holds.
pub open spec fn index_value(s: Seq<char>) -> Option<nat> {
    if unsigned_digits(s).len() == 0 {
        None
    } else {
        match digits_value(unsigned_digits(s)) {
            Some(v) => if v <= usize::MAX {
                Some(v)
            } else {
                None
            },
            None => None,
        }
    }
}

/// If a prefix is not a number, neither is the whole; otherwise the whole is at
/// least as large as the prefix.
proof fn lemma_digits_prefix(s: Seq<char>, n: int)
    requires
        0 <= n <= s.len(),
    ensures
        digits_value(s.take(n)) is None ==> digits_value(s) is None,
        digits_value(s.take(n)) matches Some(p) ==> (digits_value(s) matches Some(v) ==> p <= v),
    decreases s.len() - n,
{
    if n < s.len() {
        lemma_digits_prefix(s, n + 1);
        assert(s.take(n + 1).drop_last() =~= s.take(n));
    } else {
        assert(s.take(n) =~= s);
    }
}

/// Reads an index.
pub fn parse_index(s: &str) -> (r: Option<usize>)
    ensures
        index_value(s@) matches Some(v) ==> r == Some(v as usize),
        index_value(s@) is None ==> r is None,
{
    let n: usize = s.unicode_len();
    let start: usize = if n > 0 && s.get_char(0) == '+' {
        1
    } else {
        0
    };
    let ghost digits = unsigned_digits(s@);
    assert(digits =~= s@.skip(start as int));
    if start == n {
        return None;
    }
    let mut i: usize = start;
    let mut value: usize = 0;
    assert(digits.take(0) =~= Seq::<char>::empty());
    while i < n
        invariant
            n == s@.len(),
            start <= i <= n,
            start < n,
            digits == unsigned_digits(s@),
            digits =~= s@.skip(start as int),
            digits_value(digits.take(i - start)) == Some(value as nat),
        decreases n - i,
    {
        let c: char = s.get_char(i);
        assert(digits.take(i - start + 1).drop_last() =~= digits.take(i - start));
        assert(digits.take(i - start + 1).last() == c);
        let code: u32 = c as u32;
        proof {
            lemma_digits_prefix(digits, i - start + 1);
        }
        if code < 48 || code > 57 {
            return None;
        }
        let low: usize = (code - 48) as usize;
        match value.checked_mul(10) {
            None => {
                return None;
            },
            Some(high) => {
                match high.checked_add(low) {
                    None => {
                        return None;
                    },
                    Some(next) => {
                        value = next;
                    },
                }
            },
        }
        i = i + 1;
    }
    assert(digits.take(n - start) =~= digits);
    Some(value)
}

/// A number in decimal reads as that number.
pub proof fn lemma_decimal_round_trip(n: nat)
    ensures
        digits_value(decimal(n)) == Some(n),
        decimal(n).len() > 0,
        forall|i: int|
            0 <= i < decimal(n).len() ==> 48 <= (#[trigger] decimal(n)[i]) as u32 <= 57,
    decreases n,
{
    let low = n % 10;
    assert(digit_value(digit_char(low)) == Some(low));
    if n < 10 {
        reveal_with_fuel(digits_value, 2);
        assert(decimal(n).drop_last() =~= Seq::<char>::empty());
    } else {
        lemma_decimal_round_trip(n / 10);
        assert(decimal(n).drop_last() =~= decimal(n / 10));
    }
}

/// An index in decimal reads as that index.
pub proof fn lemma_index_round_trip(n: nat)
    requires
        n <= usize::MAX,
    ensures
        index_value(decimal(n)) == Some(n),
{
    lemma_decimal_round_trip(n);
    assert(48 <= decimal(n)[0] as u32);
}

/// The number of satoshis in a bitcoin.
pub const SATS_PER_BTC: u64 = 100_000_000;

/// The digits of a number below `SATS_PER_BTC`, with leading zeros to eight of them.
pub open spec fn eight_digits(n: nat) -> Seq<char> {
    decimal(SATS_PER_BTC as nat + n).skip(1)
}

/// An amount in satoshis or in bitcoin.
pub open spec fn amount_text(value: nat, sats: bool) -> Seq<char> {
    if sats {
        decimal(value) + " sats"@
    } else {
        decimal(value / SATS_PER_BTC as nat) + "."@ + eight_digits(value % SATS_PER_BTC as nat)
            + " BTC"@
    }
}

/// Writes an amount in satoshis or in bitcoin.
pub fn show_amount(value: u64, sats: bool) -> (s: String)
    ensures
        s@ == amount_text(value as nat, sats),
{
    if sats {
        concat(to_decimal(value).as_str(), " sats")
    } else {
        let whole = to_decimal(value / SATS_PER_BTC);
        let rest = to_decimal(SATS_PER_BTC + value % SATS_PER_BTC);
        let n: usize = rest.as_str().unicode_len();
        assert(rest@.len() >= 1);
        let digits = rest.as_str().substring_char(1, n);
        assert(digits@ =~= eight_digits(value as nat % SATS_PER_BTC as nat));
        let s = concat(whole.as_str(), ".");
        let s = concat(s.as_str(), digits);
        concat(s.as_str(), " BTC")
    }
}

/// Eight digits are eight decimal digits.
pub proof fn lemma_eight_digits(n: nat)
    requires
        n < SATS_PER_BTC,
    ensures
        eight_digits(n).len() == 8,
        forall|i: int|
            0 <= i < 8 ==> 48 <= (#[trigger] eight_digits(n)[i]) as u32 <= 57,
{
    reveal_with_fuel(decimal, 10);
}

} // verus!
