//! Laws of choosing coins by hand.

use crate::api::Utxo;
use crate::coin_control::{
    after_line, chosen, confirmed, lemma_choose_all, step_of, CoinControlView, Step,
};
use crate::send::utxos_total;
use crate::text::index_value;
use vstd::prelude::*;

verus! {

/// What is chosen is what is marked, in order.
pub proof fn law_chosen_is_what_is_marked(utxos: Seq<Utxo>, selected: Seq<bool>)
    ensures
        chosen(utxos, selected) == Seq::new(
            utxos.len(),
            |i: int| (utxos[i], selected[i]),
        ).filter(|p: (Utxo, bool)| p.1).map_values(|p: (Utxo, bool)| p.0),
    decreases utxos.len(),
{
    reveal(Seq::filter);
    let pairs = Seq::new(utxos.len(), |i: int| (utxos[i], selected[i]));
    let marked = |p: (Utxo, bool)| p.1;
    let first = |p: (Utxo, bool)| p.0;
    if utxos.len() > 0 {
        let front = utxos.drop_last();
        law_chosen_is_what_is_marked(front, selected);
        let front_pairs = Seq::new(front.len(), |i: int| (front[i], selected[i]));
        assert(pairs.drop_last() =~= front_pairs);
        assert(pairs.last() == (utxos.last(), selected[utxos.len() - 1]));
        if selected[utxos.len() - 1] {
            assert(pairs.filter(marked) == front_pairs.filter(marked).push(pairs.last()));
            assert(pairs.filter(marked).map_values(first) =~= front_pairs.filter(
                marked,
            ).map_values(first).push(utxos.last()));
        }
    } else {
        assert(pairs.filter(marked).map_values(first) =~= Seq::<Utxo>::empty());
    }
}

/// What a state has chosen is what is marked in it, in order, whatever the amount, the mode
/// and the cursor.
pub proof fn law_state_chooses_what_is_marked(state: CoinControlView)
    ensures
        state.chosen() == Seq::new(
            state.utxos.len(),
            |i: int| (state.utxos[i], state.selected[i]),
        ).filter(|p: (Utxo, bool)| p.1).map_values(|p: (Utxo, bool)| p.0),
{
    law_chosen_is_what_is_marked(state.utxos, state.selected);
}

/// Where nothing is marked, nothing is chosen.
pub proof fn law_nothing_marked(utxos: Seq<Utxo>, selected: Seq<bool>)
    requires
        forall|i: int| 0 <= i < utxos.len() ==> !#[trigger] selected[i],
    ensures
        chosen(utxos, selected).len() == 0,
    decreases utxos.len(),
{
    if utxos.len() > 0 {
        assert(!selected[utxos.len() - 1]);
        law_nothing_marked(utxos.drop_last(), selected);
    }
}

/// Where one output is marked, that one is chosen.
pub proof fn law_one_marked(utxos: Seq<Utxo>, selected: Seq<bool>, k: int)
    requires
        0 <= k < utxos.len(),
        forall|i: int| 0 <= i < utxos.len() ==> #[trigger] selected[i] == (i == k),
    ensures
        chosen(utxos, selected) == seq![utxos[k]],
    decreases utxos.len(),
{
    let front = utxos.drop_last();
    let last = utxos.len() - 1;
    assert(selected[last] == (last == k));
    if last == k {
        law_nothing_marked(front, selected);
        assert(chosen(utxos, selected) =~= seq![utxos[k]]);
    } else {
        law_one_marked(front, selected, k);
        assert(front[k] == utxos[k]);
    }
}

proof fn lemma_letters()
    ensures
        "a"@ == seq!['a'],
        "A"@ == seq!['A'],
        "n"@ == seq!['n'],
        "N"@ == seq!['N'],
        "r"@ == seq!['r'],
        "R"@ == seq!['R'],
        "q"@ == seq!['q'],
        "Q"@ == seq!['Q'],
{
    reveal_strlit("a");
    reveal_strlit("A");
    reveal_strlit("n");
    reveal_strlit("N");
    reveal_strlit("r");
    reveal_strlit("R");
    reveal_strlit("q");
    reveal_strlit("Q");
    assert("a"@ =~= seq!['a']);
    assert("A"@ =~= seq!['A']);
    assert("n"@ =~= seq!['n']);
    assert("N"@ =~= seq!['N']);
    assert("r"@ =~= seq!['r']);
    assert("R"@ =~= seq!['R']);
    assert("q"@ =~= seq!['q']);
    assert("Q"@ =~= seq!['Q']);
}

/// The letter a, of either case, selects every output, so that all are chosen, and changes
/// nothing else.
pub proof fn law_letter_a(state: CoinControlView, input: Seq<char>)
    requires
        input == seq!['a'] || input == seq!['A'],
    ensures
        ({
            let after = after_line(state, input);
            &&& after.selected.len() == state.utxos.len()
            &&& forall|i: int| 0 <= i < state.utxos.len() ==> #[trigger] after.selected[i]
            &&& after.chosen() == state.utxos
            &&& after.utxos == state.utxos
            &&& after.current == state.current
            &&& after.amount == state.amount
            &&& after.send_all == state.send_all
        }),
        step_of(state, input) is Continue,
{
    lemma_letters();
    assert(input[0] == 'a' || input[0] == 'A');
    let after = after_line(state, input);
    lemma_choose_all(after.utxos, after.selected);
}

/// The letter n, of either case, selects no output, so that none is chosen, and changes
/// nothing else.
pub proof fn law_letter_n(state: CoinControlView, input: Seq<char>)
    requires
        input == seq!['n'] || input == seq!['N'],
    ensures
        ({
            let after = after_line(state, input);
            &&& after.selected.len() == state.utxos.len()
            &&& forall|i: int| 0 <= i < state.utxos.len() ==> !#[trigger] after.selected[i]
            &&& after.chosen().len() == 0
            &&& after.utxos == state.utxos
            &&& after.current == state.current
            &&& after.amount == state.amount
            &&& after.send_all == state.send_all
        }),
        step_of(state, input) is Continue,
{
    lemma_letters();
    assert(input[0] == 'n' || input[0] == 'N');
    let after = after_line(state, input);
    law_nothing_marked(after.utxos, after.selected);
}

/// The letter r, of either case, selects the outputs that have an inscription or count as
/// rare, and no others, and changes nothing else.
pub proof fn law_letter_r(state: CoinControlView, input: Seq<char>)
    requires
        input == seq!['r'] || input == seq!['R'],
    ensures
        ({
            let after = after_line(state, input);
            &&& after.selected.len() == state.utxos.len()
            &&& forall|i: int|
                0 <= i < state.utxos.len() ==> #[trigger] after.selected[i] == (
                state.utxos[i].has_inscription || state.utxos[i].rare_info is Some)
            &&& after.utxos == state.utxos
            &&& after.current == state.current
            &&& after.amount == state.amount
            &&& after.send_all == state.send_all
        }),
        step_of(state, input) is Continue,
{
    lemma_letters();
    assert(input[0] == 'r' || input[0] == 'R');
}

/// A text that is a number of an output toggles that output and no other, and moves the
/// cursor to it; any other text that is none of the letters changes nothing.
pub proof fn law_other_lines(state: CoinControlView, input: Seq<char>)
    requires
        state.selected.len() == state.utxos.len(),
        input != seq!['a'] && input != seq!['A'],
        input != seq!['n'] && input != seq!['N'],
        input != seq!['r'] && input != seq!['R'],
    ensures
        index_value(input) matches Some(k) ==> (1 <= k <= state.utxos.len() ==> {
            let after = after_line(state, input);
            &&& after.selected.len() == state.selected.len()
            &&& forall|i: int|
                0 <= i < state.selected.len() ==> #[trigger] after.selected[i] == (if i == k - 1 {
                    !state.selected[i]
                } else {
                    state.selected[i]
                })
            &&& after.current == (k - 1) as usize
            &&& after.utxos == state.utxos
            &&& after.amount == state.amount
            &&& after.send_all == state.send_all
        }),
        !(index_value(input) matches Some(k) && 1 <= k <= state.utxos.len()) ==> after_line(
            state,
            input,
        ) == state,
{
    lemma_letters();
}

/// The letter q, of either case, and only that, gives the payment up; an empty line, and
/// only that, asks for the payment; after every other line the choice goes on.
pub proof fn law_steps(state: CoinControlView, input: Seq<char>)
    ensures
        step_of(state, input) is Cancelled <==> (input == seq!['q'] || input == seq!['Q']),
        step_of(state, input) is Continue <==> (input.len() > 0 && input != seq!['q'] && input
            != seq!['Q']),
        input.len() == 0 ==> step_of(state, input) == confirmed(state),
{
    lemma_letters();
    assert(seq!['q'].len() == 1 && seq!['Q'].len() == 1);
}

/// When a payment is asked for, it is made if and only if something is chosen and, where
/// everything is sent, that is worth more than a thousand satoshis, or otherwise the amount
/// is not zero and that is worth it; then everything less a thousand, or the amount, is
/// sent.
pub proof fn law_confirm(state: CoinControlView)
    requires
        utxos_total(state.chosen()) <= u64::MAX,
    ensures
        ({
            let worth = utxos_total(state.chosen());
            let any = state.chosen().len() > 0;
            let step = confirmed(state);
            &&& step is NothingSelected <==> !any
            &&& step is BelowAmount <==> any && !state.send_all && worth < state.amount
            &&& step is NotEnoughForFee <==> any && if state.send_all {
                worth <= 1000
            } else {
                state.amount == 0
            }
            &&& step is Send <==> any && if state.send_all {
                worth > 1000
            } else {
                state.amount > 0 && worth >= state.amount
            }
            &&& step matches Step::BelowAmount { selected, amount } ==> selected == worth && amount
                == state.amount
            &&& step matches Step::Send { amount } ==> if state.send_all {
                amount + 1000 == worth
            } else {
                amount == state.amount
            }
        }),
        state.send_amount() == if state.send_all {
            if utxos_total(state.chosen()) > 1000 {
                (utxos_total(state.chosen()) - 1000) as nat
            } else {
                0
            }
        } else {
            state.amount as nat
        },
{
}

/// A letter is no number.
proof fn lemma_letters_are_no_index(input: Seq<char>)
    ensures
        input.len() == 1 && input[0] != '+' && !(48 <= input[0] as u32 <= 57) ==> index_value(
            input,
        ) is None,
{
    if input.len() == 1 && input[0] != '+' {
        reveal_with_fuel(crate::text::digits_value, 2);
    }
}

/// Choosing nothing and then one output by its number chooses that output.
pub proof fn law_none_then_one(state: CoinControlView, input: Seq<char>, k: nat)
    requires
        state.selected.len() == state.utxos.len(),
        index_value(input) == Some(k),
        1 <= k <= state.utxos.len(),
    ensures
        after_line(after_line(state, seq!['n']), input).chosen() == seq![state.utxos[k - 1]],
{
    law_letter_n(state, seq!['n']);
    let none = after_line(state, seq!['n']);
    lemma_letters_are_no_index(input);
    assert(seq!['a'][0] == 'a' && seq!['A'][0] == 'A' && seq!['n'][0] == 'n' && seq!['N'][0] == 'N'
        && seq!['r'][0] == 'r' && seq!['R'][0] == 'R');
    law_other_lines(none, input);
    let after = after_line(none, input);
    assert forall|i: int| 0 <= i < state.utxos.len() implies #[trigger] after.selected[i] == (i == k
        - 1) by {
        assert(!none.selected[i]);
    }
    law_one_marked(after.utxos, after.selected, k - 1);
}

} // verus!
