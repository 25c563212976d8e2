//! Laws of rare satoshis, of the kinds of outputs, and of what a sweep takes.

use crate::api::{ends_repeating, last_three, lemma_round_is_block_founder, rare_sat};
use crate::sweep::{
    class_of, inscribed_count, normal_count, rare_count, verdict_of, OrdinalClass,
    OrdinalClassView, SweepPolicy, VerdictView,
};
use crate::text::decimal;
use vstd::prelude::*;

verus! {

/// Three digits are the same if and only if the number that they write is a multiple of
/// one hundred and eleven.
proof fn lemma_repdigit(h: nat, t: nat, u: nat)
    requires
        h < 10,
        t < 10,
        u < 10,
    ensures
        (100 * h + 10 * t + u) % 111 == 0 <==> (h == t && t == u),
{
    let n = 100 * h + 10 * t + u;
    if n % 111 == 0 {
        let q = n / 111;
        assert(n == 111 * q);
        assert(q <= 9);
        assert(q == h);
    }
    if h == t && t == u {
        assert(n == 111 * h);
    }
}

/// The last three digits of a number.
proof fn lemma_last_three(n: nat)
    ensures
        decimal(n).len() >= 3 <==> n >= 100,
        n >= 100 ==> last_three(n).len() == 3 && last_three(n)[0] == (48 + n / 100 % 10) as u8 as char
            && last_three(n)[1] == (48 + n / 10 % 10) as u8 as char && last_three(n)[2] == (48 + n
            % 10) as u8 as char,
{
    reveal_with_fuel(decimal, 4);
    if n >= 100 {
        let d = decimal(n);
        let k = d.len();
        assert(d =~= decimal(n / 10 / 10).push(
            crate::text::digit_char(n / 10 % 10),
        ).push(crate::text::digit_char(n % 10)));
        assert(decimal(n / 10 / 10).last() == crate::text::digit_char(n / 10 / 10 % 10));
        assert(n / 10 / 10 == n / 100);
        assert(last_three(n)[0] == d[k - 3]);
        assert(last_three(n)[1] == d[k - 2]);
        assert(last_three(n)[2] == d[k - 1]);
    }
}

/// A number below a thousand, digit by digit.
proof fn lemma_thousand(n: nat)
    ensures
        n % 1000 == 100 * (n / 100 % 10) + 10 * (n / 10 % 10) + n % 10,
{
    assert(n / 100 == n / 10 / 10);
    let a = n / 10;
    let b = a / 10;
    let c = b / 10;
    assert(n == 10 * a + n % 10);
    assert(a == 10 * b + a % 10);
    assert(b == 10 * c + b % 10);
    assert(n == 1000 * c + (100 * (b % 10) + 10 * (a % 10) + n % 10));
}

/// Three digit characters are the same if and only if the digits are.
proof fn lemma_three_chars(l: Seq<char>, h: nat, t: nat, u: nat)
    requires
        h < 10,
        t < 10,
        u < 10,
        l.len() == 3,
        l[0] == (48 + h) as u8 as char,
        l[1] == (48 + t) as u8 as char,
        l[2] == (48 + u) as u8 as char,
    ensures
        (forall|i: int| 0 <= i < 3 ==> #[trigger] l[i] == l[0]) <==> (h == t && t == u),
        h == t && t == u ==> l == seq![l[2], l[2], l[2]],
{
    if h == t && t == u {
        assert(l[0] == l[1] && l[1] == l[2]);
        assert(l =~= seq![l[2], l[2], l[2]]);
    } else {
        assert(l[1] != l[0] || l[2] != l[0]);
    }
}

/// The last three digits are the same if and only if they write a multiple of one hundred
/// and eleven.
proof fn lemma_ends_repeating(n: nat)
    ensures
        ends_repeating(n) <==> (n >= 100 && n % 1000 % 111 == 0),
        ends_repeating(n) ==> last_three(n) == seq![
            (48 + n % 10) as u8 as char,
            (48 + n % 10) as u8 as char,
            (48 + n % 10) as u8 as char,
        ],
{
    lemma_last_three(n);
    if n >= 100 {
        let h = n / 100 % 10;
        let t = n / 10 % 10;
        let u = n % 10;
        lemma_three_chars(last_three(n), h, t, u);
        lemma_repdigit(h, t, u);
        lemma_thousand(n);
    }
}

/// A satoshi other than the first one, and neither the first nor the last of a hundred, is
/// rare if and only if its hundreds, tens and units are the same digit; then it is a
/// collector's, and the description ends with that digit three times.
pub proof fn law_rare_sat_repeats(n: nat)
    requires
        n != 0,
        n % 100 != 0,
        n % 100 != 99,
    ensures
        rare_sat(n) is Some <==> (n >= 100 && n % 1000 % 111 == 0),
        rare_sat(n) matches Some((kind, description)) ==> kind == "collector"@ && description
            == "Collector Sat - Ends with "@ + seq![
            (48 + n % 10) as u8 as char,
            (48 + n % 10) as u8 as char,
            (48 + n % 10) as u8 as char,
        ],
{
    lemma_ends_repeating(n);
    lemma_round_is_block_founder(n);
}

/// The first satoshi, and the first and the last of every hundred, are rare, and are
/// reported with the number of their hundred.
pub proof fn law_rare_sat_positions(n: nat)
    ensures
        n == 0 ==> rare_sat(n) == Some(
            ("genesis"@, "Genesis Sat - First satoshi ever created"@),
        ),
        n > 0 && n % 100 == 0 ==> rare_sat(n) == Some(
            ("block"@, "Block Founder - First sat of block "@ + decimal(n / 100)),
        ),
        n % 100 == 99 ==> rare_sat(n) == Some(
            ("block-end"@, "Block End - Last sat of block "@ + decimal(n / 100)),
        ),
{
}

/// Whether a satoshi is rare, and as which kind, in numbers alone.
pub proof fn law_rare_iff(n: nat)
    ensures
        rare_sat(n) is Some <==> (n % 100 == 0 || n % 100 == 99 || (n >= 100 && n % 1000 % 111
            == 0)),
{
    if n != 0 && n % 100 != 0 && n % 100 != 99 {
        law_rare_sat_repeats(n);
    }
}

/// An output is of the inscribed kind if and only if it has an inscription, of the rare
/// kind if and only if it has none and its amount counts as rare, and normal otherwise.
pub proof fn law_kinds(value: u64, has_inscription: bool)
    ensures
        class_of(value, has_inscription) is Inscribed <==> has_inscription,
        class_of(value, has_inscription) is Rare <==> (!has_inscription && (value % 100 == 0
            || value % 100 == 99 || (value >= 100 && value % 1000 % 111 == 0))),
        class_of(value, has_inscription) is Normal <==> !(has_inscription || value % 100 == 0
            || value % 100 == 99 || (value >= 100 && value % 1000 % 111 == 0)),
        class_of(value, has_inscription) matches OrdinalClassView::Rare { kind, description }
            ==> rare_sat(value as nat) == Some((kind, description)),
{
    law_rare_iff(value as nat);
}

/// What a sweep makes of an output: one below the minimum is left out for that, whatever
/// else it is; an inscribed one that is not below is left out for the inscription, unless
/// inscribed ones are asked for; a rare one among the others is left out for that, unless
/// rare ones are asked for; and all others are taken.
pub proof fn law_verdicts(policy: SweepPolicy, value: u64, has_inscription: bool)
    ensures
        ({
            let rare = value % 100 == 0 || value % 100 == 99 || (value >= 100 && value % 1000 % 111
                == 0);
            let verdict = verdict_of(policy, value, has_inscription);
            &&& verdict is BelowMinimum <==> value < policy.min_value
            &&& verdict is Inscribed <==> value >= policy.min_value && has_inscription
                && !policy.include_inscribed
            &&& verdict is Rare <==> value >= policy.min_value && !(has_inscription
                && !policy.include_inscribed) && rare && !policy.include_rare
            &&& verdict is Included <==> value >= policy.min_value && !(has_inscription
                && !policy.include_inscribed) && !(rare && !policy.include_rare)
            &&& verdict matches VerdictView::Rare { kind, description } ==> rare_sat(value as nat)
                == Some((kind, description))
        }),
{
    law_rare_iff(value as nat);
}

/// A sweep that takes an output also takes it under a policy that asks for more.
pub proof fn law_wider_policy_takes_more(
    narrow: SweepPolicy,
    wide: SweepPolicy,
    value: u64,
    has_inscription: bool,
)
    requires
        wide.min_value <= narrow.min_value,
        narrow.include_inscribed ==> wide.include_inscribed,
        narrow.include_rare ==> wide.include_rare,
        verdict_of(narrow, value, has_inscription) is Included,
    ensures
        verdict_of(wide, value, has_inscription) is Included,
{
}

/// The numbers of the kinds are the numbers of outputs of each kind.
pub proof fn law_tally(classes: Seq<OrdinalClass>)
    ensures
        inscribed_count(classes) == classes.filter(
            |c: OrdinalClass| c matches OrdinalClass::Inscribed,
        ).len(),
        rare_count(classes) == classes.filter(
            |c: OrdinalClass| c matches OrdinalClass::Rare { .. },
        ).len(),
        normal_count(classes) == classes.filter(
            |c: OrdinalClass| c matches OrdinalClass::Normal,
        ).len(),
    decreases classes.len(),
{
    reveal(Seq::filter);
    if classes.len() > 0 {
        law_tally(classes.drop_last());
    }
}

} // verus!
