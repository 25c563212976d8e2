//! Coin control: choosing by hand which unspent outputs a payment spends.

use crate::api::{Utxo, UtxoStatus};
use crate::send::{
    created_send_all, estimated_fee, has_txids, lemma_send_all, lemma_wallet_inputs_total,
    send_all_amount, send_all_value, spend_all_utxos, spend_utxos, spends, spends_all,
    utxos_total, wallet_inputs, Spend, SEND_ALL_FEE,
};
use crate::text::{
    concat, decimal, index_value, lemma_decimal_round_trip, lemma_index_round_trip, parse_index,
    same_text, to_decimal, trim, trimmed,
};
use crate::tx::{Address, AddressView, TxOutView};
use crate::wallet::Wallet;
use vstd::prelude::*;
use vstd::string::*;
use vstd::utf8::*;

verus! {

fn copy_text(text: &Option<String>) -> (copy: Option<String>)
    ensures
        copy == *text,
{
    match text {
        Some(text) => Some(text.clone()),
        None => None,
    }
}

impl Utxo {
    /// A copy.
    pub fn duplicate(&self) -> (copy: Utxo)
        ensures
            copy == *self,
    {
        let status: Option<UtxoStatus> = match &self.status {
            Some(status) => Some(
                UtxoStatus {
                    confirmed: status.confirmed,
                    block_height: status.block_height,
                    block_hash: copy_text(&status.block_hash),
                    block_time: status.block_time,
                },
            ),
            None => None,
        };
        let rare_info: Option<(String, String)> = match &self.rare_info {
            Some(info) => Some((info.0.clone(), info.1.clone())),
            None => None,
        };
        Utxo {
            txid: self.txid.clone(),
            vout: self.vout,
            value: self.value,
            status,
            has_inscription: self.has_inscription,
            rare_info,
        }
    }

    /// Whether the output carries an inscription or counts as a rare satoshi.
    pub open spec fn is_special(self) -> bool {
        self.has_inscription || self.rare_info is Some
    }

    /// Whether the identifier can be cut after eight bytes.
    pub open spec fn has_short_form(self) -> bool {
        is_char_boundary(encode_utf8(self.txid@), 8)
    }

    /// The start of the identifier and the index of the output.
    pub fn short_outpoint(&self) -> (text: String)
        requires
            self.has_short_form(),
        ensures
            text@ == decode_utf8(encode_utf8(self.txid@).subrange(0, 8)) + ":"@ + decimal(
                self.vout as nat,
            ),
    {
        let (start, _rest) = self.txid.as_str().split_at(8);
        proof {
            encode_utf8_decode_utf8(start@);
        }
        let text = concat(start, ":");
        concat(text.as_str(), to_decimal(self.vout as u64).as_str())
    }
}

/// The unspent outputs that are selected, in order.
pub open spec fn chosen(utxos: Seq<Utxo>, selected: Seq<bool>) -> Seq<Utxo>
    decreases utxos.len(),
{
    if utxos.len() == 0 {
        Seq::empty()
    } else if selected[utxos.len() - 1] {
        chosen(utxos.drop_last(), selected).push(utxos.last())
    } else {
        chosen(utxos.drop_last(), selected)
    }
}

/// What is chosen is a part of what there is.
pub proof fn lemma_chosen(utxos: Seq<Utxo>, selected: Seq<bool>)
    ensures
        chosen(utxos, selected).len() <= utxos.len(),
        utxos_total(chosen(utxos, selected)) <= utxos_total(utxos),
        has_txids(utxos) ==> has_txids(chosen(utxos, selected)),
    decreases utxos.len(),
{
    if utxos.len() > 0 {
        let front = utxos.drop_last();
        let rest = chosen(front, selected);
        lemma_chosen(front, selected);
        if has_txids(utxos) {
            assert(has_txids(front)) by {
                assert forall|i: int| 0 <= i < front.len() implies crate::tx::txid_bytes(
                    (#[trigger] front[i]).txid@,
                ) is Some by {
                    assert(front[i] == utxos[i]);
                }
            }
            assert(crate::tx::txid_bytes(utxos[utxos.len() - 1].txid@) is Some);
        }
        assert(rest.push(utxos.last()).drop_last() =~= rest);
    }
}

/// Selecting everything chooses everything.
pub proof fn lemma_choose_all(utxos: Seq<Utxo>, selected: Seq<bool>)
    requires
        forall|i: int| 0 <= i < utxos.len() ==> #[trigger] selected[i],
    ensures
        chosen(utxos, selected) == utxos,
    decreases utxos.len(),
{
    if utxos.len() > 0 {
        lemma_choose_all(utxos.drop_last(), selected);
        assert(selected[utxos.len() - 1]);
        assert(utxos.drop_last().push(utxos.last()) =~= utxos);
    } else {
        assert(utxos =~= Seq::<Utxo>::empty());
    }
}

/// What a choice of coins holds.
pub struct CoinControlView {
    pub utxos: Seq<Utxo>,
    pub selected: Seq<bool>,
    pub current: usize,
    pub amount: u64,
    pub send_all: bool,
}

impl CoinControlView {
    /// Whether there is something to choose from, every output is marked, the cursor
    /// stands on an output, and amounts can be added up.
    pub open spec fn wf(self) -> bool {
        &&& self.utxos.len() > 0
        &&& self.selected.len() == self.utxos.len()
        &&& self.current < self.utxos.len()
        &&& utxos_total(self.utxos) <= u64::MAX
    }

    /// The outputs that are selected.
    pub open spec fn chosen(self) -> Seq<Utxo> {
        chosen(self.utxos, self.selected)
    }

    /// The amount that is sent.
    pub open spec fn send_amount(self) -> nat {
        if self.send_all {
            send_all_value(utxos_total(self.chosen()))
        } else {
            self.amount as nat
        }
    }
}

/// What follows a line of input.
#[derive(Clone, Copy, Debug, PartialEq, Eq, Structural)]
pub enum Step {
    /// The choice goes on.
    Continue,
    /// The payment is given up.
    Cancelled,
    /// Nothing is selected.
    NothingSelected,
    /// What is selected is worth less than the amount.
    BelowAmount { selected: u64, amount: u64 },
    /// Nothing is left after the fee.
    NotEnoughForFee,
    /// The payment is made with what is selected.
    Send { amount: u64 },
}

/// What an empty line leads to.
pub open spec fn confirmed(state: CoinControlView) -> Step {
    let total = utxos_total(state.chosen());
    if state.chosen().len() == 0 {
        Step::NothingSelected
    } else if !state.send_all && total < state.amount {
        Step::BelowAmount { selected: total as u64, amount: state.amount }
    } else if state.send_amount() == 0 || (state.send_all && total <= SEND_ALL_FEE) {
        Step::NotEnoughForFee
    } else {
        Step::Send { amount: state.send_amount() as u64 }
    }
}

/// What a line does to the choice, the white space around it left out: a letter selects
/// all, nothing, or what is special, and a number toggles an output and moves the cursor
/// to it.
pub open spec fn after_line(state: CoinControlView, input: Seq<char>) -> CoinControlView {
    if input == "a"@ || input == "A"@ {
        CoinControlView { selected: Seq::new(state.utxos.len(), |i: int| true), ..state }
    } else if input == "n"@ || input == "N"@ {
        CoinControlView { selected: Seq::new(state.utxos.len(), |i: int| false), ..state }
    } else if input == "r"@ || input == "R"@ {
        CoinControlView {
            selected: Seq::new(state.utxos.len(), |i: int| state.utxos[i].is_special()),
            ..state
        }
    } else {
        match index_value(input) {
            Some(n) => if 1 <= n <= state.utxos.len() {
                CoinControlView {
                    selected: state.selected.update(n - 1, !state.selected[n - 1]),
                    current: (n - 1) as usize,
                    ..state
                }
            } else {
                state
            },
            None => state,
        }
    }
}

/// What follows a line, the white space around it left out.
pub open spec fn step_of(state: CoinControlView, input: Seq<char>) -> Step {
    if input == "q"@ || input == "Q"@ {
        Step::Cancelled
    } else if input.len() == 0 {
        confirmed(state)
    } else {
        Step::Continue
    }
}

/// What is shown above the list.
#[derive(Clone, Copy, Debug, PartialEq, Eq, Structural)]
pub struct Overview {
    /// The number of outputs that are selected.
    pub count: usize,
    /// What they are worth.
    pub total: u64,
    /// The amount that would be sent.
    pub send_amount: u64,
    /// Whether they are worth the amount.
    pub sufficient: bool,
}

/// A choice of coins for a payment.
#[derive(Debug)]
pub struct CoinControl {
    utxos: Vec<Utxo>,
    selected: Vec<bool>,
    current: usize,
    amount: u64,
    send_all: bool,
}

impl View for CoinControl {
    type V = CoinControlView;

    closed spec fn view(&self) -> CoinControlView {
        CoinControlView {
            utxos: self.utxos@,
            selected: self.selected@,
            current: self.current,
            amount: self.amount,
            send_all: self.send_all,
        }
    }
}

impl CoinControl {
    #[verifier::type_invariant]
    spec fn wf(self) -> bool {
        self@.wf()
    }

    /// A choice among unspent outputs, all of them selected.
    pub fn new(utxos: Vec<Utxo>, amount: u64, send_all: bool) -> (r: Result<CoinControl, String>)
        requires
            utxos_total(utxos@) <= u64::MAX,
        ensures
            match r {
                Ok(control) => utxos@.len() > 0 && control@.wf() && control@ == (CoinControlView {
                    utxos: utxos@,
                    selected: Seq::new(utxos@.len(), |i: int| true),
                    current: 0,
                    amount,
                    send_all,
                }),
                Err(e) => utxos@.len() == 0 && e@ == "No UTXOs available"@,
            },
    {
        if utxos.len() == 0 {
            return Err("No UTXOs available".to_owned());
        }
        let selected = marks(utxos.len(), true);
        Ok(CoinControl { utxos, selected, current: 0, amount, send_all })
    }

    /// The outputs to choose from.
    pub fn utxos(&self) -> (utxos: &Vec<Utxo>)
        ensures
            utxos@ == self@.utxos,
            self@.wf(),
    {
        proof {
            use_type_invariant(self);
        }
        &self.utxos
    }

    /// Whether an output is selected.
    pub fn is_selected(&self, i: usize) -> (selected: bool)
        requires
            i < self@.utxos.len(),
        ensures
            selected == self@.selected[i as int],
    {
        proof {
            use_type_invariant(self);
        }
        self.selected[i]
    }

    /// The output that the cursor stands on.
    pub fn current(&self) -> (current: usize)
        ensures
            current == self@.current,
            self@.wf(),
    {
        proof {
            use_type_invariant(self);
        }
        self.current
    }

    /// The outputs that are selected.
    pub fn selected_utxos(&self) -> (utxos: Vec<Utxo>)
        ensures
            utxos@ == self@.chosen(),
            utxos@.len() <= self@.utxos.len(),
            utxos_total(utxos@) <= u64::MAX,
            has_txids(self@.utxos) ==> has_txids(utxos@),
    {
        proof {
            use_type_invariant(self);
            lemma_chosen(self.utxos@, self.selected@);
        }
        let mut utxos: Vec<Utxo> = Vec::new();
        let mut i: usize = 0;
        assert(self.utxos@.take(0) =~= Seq::<Utxo>::empty());
        while i < self.utxos.len()
            invariant
                self@.wf(),
                i <= self.utxos@.len(),
                utxos@ == chosen(self.utxos@.take(i as int), self.selected@),
            decreases self.utxos.len() - i,
        {
            assert(self.utxos@.take(i + 1).drop_last() =~= self.utxos@.take(i as int));
            if self.selected[i] {
                utxos.push(self.utxos[i].duplicate());
            }
            i = i + 1;
        }
        assert(self.utxos@.take(i as int) =~= self.utxos@);
        utxos
    }

    /// What is shown above the list.
    pub fn overview(&self) -> (overview: Overview)
        ensures
            overview.count == self@.chosen().len(),
            overview.total == utxos_total(self@.chosen()),
            overview.send_amount == self@.send_amount(),
            overview.sufficient == (utxos_total(self@.chosen()) >= self@.amount),
    {
        let chosen = self.selected_utxos();
        let total: u64 = total_of(&chosen);
        let send_amount: u64 = if self.send_all {
            send_all_amount(total)
        } else {
            self.amount
        };
        Overview {
            count: chosen.len(),
            total,
            send_amount,
            sufficient: total >= self.amount,
        }
    }

    fn confirm(&self) -> (step: Step)
        ensures
            step == confirmed(self@),
    {
        let chosen = self.selected_utxos();
        if chosen.len() == 0 {
            return Step::NothingSelected;
        }
        let total: u64 = total_of(&chosen);
        if !self.send_all && total < self.amount {
            return Step::BelowAmount { selected: total, amount: self.amount };
        }
        let send_amount: u64 = if self.send_all {
            send_all_amount(total)
        } else {
            self.amount
        };
        if send_amount == 0 || (self.send_all && total <= SEND_ALL_FEE) {
            return Step::NotEnoughForFee;
        }
        Step::Send { amount: send_amount }
    }

    /// Acts on a line of input.
    pub fn handle(&mut self, line: &str) -> (step: Step)
        ensures
            final(self)@ == after_line(old(self)@, trimmed(line@)),
            step == step_of(old(self)@, trimmed(line@)),
            final(self)@.wf(),
    {
        proof {
            use_type_invariant(&*self);
        }
        let input = trim(line);
        proof {
            reveal_strlit("a");
            reveal_strlit("A");
            reveal_strlit("n");
            reveal_strlit("N");
            reveal_strlit("r");
            reveal_strlit("R");
            reveal_strlit("q");
            reveal_strlit("Q");
            lemma_letters_are_no_index(input@);
        }
        let n: usize = self.utxos.len();
        if same_text(input, "q") || same_text(input, "Q") {
            assert(self@ == after_line(self@, input@));
            return Step::Cancelled;
        }
        if input.unicode_len() == 0 {
            assert(self@ == after_line(self@, input@));
            return self.confirm();
        }
        if same_text(input, "a") || same_text(input, "A") {
            self.selected = marks(n, true);
        } else if same_text(input, "n") || same_text(input, "N") {
            self.selected = marks(n, false);
        } else if same_text(input, "r") || same_text(input, "R") {
            self.selected = special_marks(&self.utxos);
        } else if let Some(idx) = parse_index(input) {
            if idx >= 1 && idx <= n {
                self.selected = toggled(&self.selected, idx - 1);
                self.current = idx - 1;
            }
        }
        Step::Continue
    }

    /// Makes the transaction of the payment from what is selected.
    pub fn spend(&self, wallet: &Wallet, destination: &Address) -> (r: Result<Spend, String>)
        requires
            has_txids(self@.chosen()),
            !self@.send_all ==> 150 * self@.chosen().len() <= usize::MAX && self@.amount
                + estimated_fee(self@.chosen().len()) <= u64::MAX,
        ensures
            ({
                let inputs = wallet_inputs(self@.chosen(), wallet@.address.script_pubkey);
                if self@.send_all {
                    spends_all(wallet@, inputs, destination@, r)
                } else {
                    spends(wallet@, inputs, destination@, self@.amount, r)
                }
            }),
    {
        let utxos = self.selected_utxos();
        if self.send_all {
            spend_all_utxos(wallet, &utxos, destination)
        } else {
            spend_utxos(wallet, &utxos, destination, self.amount)
        }
    }
}

fn marks(n: usize, mark: bool) -> (marks: Vec<bool>)
    ensures
        marks@ == Seq::new(n as nat, |i: int| mark),
{
    let mut marks: Vec<bool> = Vec::new();
    while marks.len() < n
        invariant
            marks@.len() <= n,
            forall|i: int| 0 <= i < marks@.len() ==> #[trigger] marks@[i] == mark,
        decreases n - marks.len(),
    {
        marks.push(mark);
    }
    assert(marks@ =~= Seq::new(n as nat, |i: int| mark));
    marks
}

fn toggled(marks: &Vec<bool>, i: usize) -> (r: Vec<bool>)
    requires
        i < marks@.len(),
    ensures
        r@ == marks@.update(i as int, !marks@[i as int]),
{
    let mut r: Vec<bool> = marks.clone();
    assert(r@ =~= marks@);
    r.set(i, !marks[i]);
    r
}

fn special_marks(utxos: &Vec<Utxo>) -> (marks: Vec<bool>)
    ensures
        marks@ == Seq::new(utxos@.len(), |i: int| utxos@[i].is_special()),
{
    let mut marks: Vec<bool> = Vec::new();
    while marks.len() < utxos.len()
        invariant
            marks@.len() <= utxos@.len(),
            forall|i: int|
                0 <= i < marks@.len() ==> #[trigger] marks@[i] == utxos@[i].is_special(),
        decreases utxos.len() - marks.len(),
    {
        let utxo = &utxos[marks.len()];
        marks.push(utxo.has_inscription || utxo.rare_info.is_some());
    }
    assert(marks@ =~= Seq::new(utxos@.len(), |i: int| utxos@[i].is_special()));
    marks
}

fn total_of(utxos: &Vec<Utxo>) -> (total: u64)
    requires
        utxos_total(utxos@) <= u64::MAX,
    ensures
        total == utxos_total(utxos@),
{
    match crate::send::balance(utxos) {
        Some(total) => total,
        None => 0,
    }
}

/// A letter is no number, and neither is the empty text.
proof fn lemma_letters_are_no_index(input: Seq<char>)
    ensures
        input.len() == 0 ==> index_value(input) is None,
        input.len() == 1 && input[0] != '+' && !(48 <= input[0] as u32 <= 57) ==> index_value(
            input,
        ) is None,
{
    if input.len() == 1 && input[0] != '+' {
        reveal_with_fuel(crate::text::digits_value, 2);
    }
}

/// Toggling an output twice leaves the selection as it was.
pub proof fn lemma_toggle_twice(state: CoinControlView, input: Seq<char>)
    requires
        state.wf(),
        index_value(input) matches Some(n) && 1 <= n <= state.utxos.len(),
        input.len() > 0,
    ensures
        after_line(after_line(state, input), input).selected == state.selected,
        step_of(state, input) is Continue,
{
    reveal_strlit("a");
    reveal_strlit("A");
    reveal_strlit("n");
    reveal_strlit("N");
    reveal_strlit("r");
    reveal_strlit("R");
    reveal_strlit("q");
    reveal_strlit("Q");
    lemma_letters_are_no_index(input);
    assert(after_line(after_line(state, input), input).selected =~= state.selected);
}

/// The number that the list shows for an output toggles that output, no other, and
/// moves the cursor to it.
pub proof fn lemma_number_toggles(state: CoinControlView, i: int)
    requires
        state.wf(),
        0 <= i < state.utxos.len(),
        state.utxos.len() <= usize::MAX,
    ensures
        after_line(state, decimal((i + 1) as nat)) == (CoinControlView {
            selected: state.selected.update(i, !state.selected[i]),
            current: i as usize,
            ..state
        }),
        step_of(state, decimal((i + 1) as nat)) is Continue,
{
    reveal_strlit("a");
    reveal_strlit("A");
    reveal_strlit("n");
    reveal_strlit("N");
    reveal_strlit("r");
    reveal_strlit("R");
    reveal_strlit("q");
    reveal_strlit("Q");
    lemma_decimal_round_trip((i + 1) as nat);
    lemma_index_round_trip((i + 1) as nat);
    lemma_letters_are_no_index(decimal((i + 1) as nat));
}

/// No line changes the outputs, the amount or the mode, nor breaks the invariant.
pub proof fn lemma_line_keeps(state: CoinControlView, input: Seq<char>)
    requires
        state.wf(),
    ensures
        after_line(state, input).wf(),
        after_line(state, input).utxos == state.utxos,
        after_line(state, input).amount == state.amount,
        after_line(state, input).send_all == state.send_all,
        step_of(state, input) !is Continue ==> after_line(state, input) == state,
{
    reveal_strlit("a");
    reveal_strlit("A");
    reveal_strlit("n");
    reveal_strlit("N");
    reveal_strlit("r");
    reveal_strlit("R");
    reveal_strlit("q");
    reveal_strlit("Q");
    lemma_letters_are_no_index(input);
}

/// A payment that is confirmed is covered by what is selected: it sends at least one
/// satoshi, at most what is selected, and exactly the amount unless everything is sent.
pub proof fn lemma_confirmed_is_covered(state: CoinControlView, amount: u64)
    requires
        state.wf(),
        confirmed(state) == (Step::Send { amount }),
    ensures
        1 <= amount <= utxos_total(state.chosen()),
        state.send_all ==> amount + SEND_ALL_FEE == utxos_total(state.chosen()),
        !state.send_all ==> amount == state.amount,
        state.chosen().len() > 0,
{
    lemma_chosen(state.utxos, state.selected);
}

/// When everything is sent, a payment that is confirmed can be made, and its one output
/// pays the confirmed amount to the destination.
pub proof fn lemma_confirmed_sends_all(
    state: CoinControlView,
    amount: u64,
    script_pubkey: Seq<u8>,
    destination: AddressView,
)
    requires
        state.wf(),
        state.send_all,
        confirmed(state) == (Step::Send { amount }),
    ensures
        created_send_all(wallet_inputs(state.chosen(), script_pubkey), destination) matches Ok(psbt)
            && psbt.unsigned_tx.outputs == seq![
            TxOutView { value: amount, script_pubkey: destination.script_pubkey },
        ],
{
    lemma_confirmed_is_covered(state, amount);
    lemma_chosen(state.utxos, state.selected);
    lemma_wallet_inputs_total(state.chosen(), script_pubkey);
    lemma_send_all(wallet_inputs(state.chosen(), script_pubkey), destination);
}

} // verus!
