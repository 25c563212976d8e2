//! Sweeping and sorting: which unspent outputs a sweep takes, and how they divide into
//! inscribed, rare and normal ones.

use crate::api::{identify_rare_sat, rare_sat, Utxo};
use crate::send::{
    estimated_fee, has_txids, inputs_total, lemma_wallet_inputs_total, send_all_amount,
    send_all_value, spend_all_utxos, spend_utxos, spends, spends_all, utxos_total, wallet_inputs,
    Spend, SpendInputView, SEND_ALL_FEE,
};
use crate::tx::{Address, AddressView};
use crate::wallet::{Wallet, WalletView};
use vstd::prelude::*;

verus! {

/// What a sweep takes. Inscribed and rare outputs are left alone unless asked for.
#[derive(Clone, Copy, Debug, PartialEq, Eq, Structural)]
pub struct SweepPolicy {
    pub include_inscribed: bool,
    pub include_rare: bool,
    pub min_value: u64,
}

/// What a sweep makes of an output.
pub enum VerdictView {
    BelowMinimum,
    Inscribed,
    Rare { kind: Seq<char>, description: Seq<char> },
    Included,
}

/// What a sweep makes of an output.
#[derive(Clone, Debug)]
pub enum Verdict {
    /// It is worth less than the minimum.
    BelowMinimum,
    /// It carries an inscription.
    Inscribed,
    /// It counts as a rare satoshi.
    Rare { kind: String, description: String },
    /// It is swept.
    Included,
}

impl View for Verdict {
    type V = VerdictView;

    open spec fn view(&self) -> VerdictView {
        match self {
            Verdict::BelowMinimum => VerdictView::BelowMinimum,
            Verdict::Inscribed => VerdictView::Inscribed,
            Verdict::Rare { kind, description } => VerdictView::Rare {
                kind: kind@,
                description: description@,
            },
            Verdict::Included => VerdictView::Included,
        }
    }
}

/// What a sweep makes of an output of a value, with an inscription or without.
pub open spec fn verdict_of(policy: SweepPolicy, value: u64, has_inscription: bool) -> VerdictView {
    if value < policy.min_value {
        VerdictView::BelowMinimum
    } else if !policy.include_inscribed && has_inscription {
        VerdictView::Inscribed
    } else {
        match rare_sat(value as nat) {
            Some((kind, description)) => if policy.include_rare {
                VerdictView::Included
            } else {
                VerdictView::Rare { kind, description }
            },
            None => VerdictView::Included,
        }
    }
}

impl SweepPolicy {
    /// Whether the explorer has to be asked for an inscription: not for an output that
    /// is left out for its value.
    pub fn wants_lookup(&self, value: u64) -> (wanted: bool)
        ensures
            wanted == (value >= self.min_value),
            !wanted ==> forall|has_inscription: bool| #[trigger]
                verdict_of(*self, value, has_inscription) is BelowMinimum,
    {
        value >= self.min_value
    }

    /// What the sweep makes of an output.
    pub fn judge(&self, value: u64, has_inscription: bool, block_height: u64) -> (verdict: Verdict)
        ensures
            verdict@ == verdict_of(*self, value, has_inscription),
    {
        if value < self.min_value {
            return Verdict::BelowMinimum;
        }
        if !self.include_inscribed && has_inscription {
            return Verdict::Inscribed;
        }
        match identify_rare_sat(value, block_height) {
            Some((kind, description)) => if self.include_rare {
                Verdict::Included
            } else {
                Verdict::Rare { kind, description }
            },
            None => Verdict::Included,
        }
    }
}

/// An output is swept only if it is worth the minimum and neither carries an inscription
/// nor counts as rare, unless the policy asks for those; and it is swept if all of that
/// holds.
pub proof fn lemma_sweep_protects(policy: SweepPolicy, value: u64, has_inscription: bool)
    ensures
        verdict_of(policy, value, has_inscription) is Included <==> (value >= policy.min_value && (
        has_inscription ==> policy.include_inscribed) && (rare_sat(value as nat) is Some
            ==> policy.include_rare)),
{
}

/// What a sweep has gathered.
pub struct SweepView {
    pub policy: SweepPolicy,
    pub eligible: Seq<Utxo>,
}

/// A sweep: the outputs that it takes, and what they are worth.
#[derive(Debug)]
pub struct Sweep {
    policy: SweepPolicy,
    eligible: Vec<Utxo>,
    total: u64,
}

impl View for Sweep {
    type V = SweepView;

    closed spec fn view(&self) -> SweepView {
        SweepView { policy: self.policy, eligible: self.eligible@ }
    }
}

impl Sweep {
    #[verifier::type_invariant]
    spec fn wf(self) -> bool {
        self.total == utxos_total(self.eligible@)
    }

    /// A sweep that has gathered nothing.
    pub fn new(policy: SweepPolicy) -> (sweep: Sweep)
        ensures
            sweep@ == (SweepView { policy, eligible: Seq::empty() }),
    {
        let eligible: Vec<Utxo> = Vec::new();
        let sweep = Sweep { policy, eligible, total: 0 };
        assert(sweep@.eligible =~= Seq::<Utxo>::empty());
        sweep
    }

    /// The policy.
    pub fn policy(&self) -> (policy: SweepPolicy)
        ensures
            policy == self@.policy,
    {
        self.policy
    }

    /// Judges an output and takes it if it is to be swept.
    pub fn consider(self, utxo: &Utxo, has_inscription: bool, block_height: u64) -> (r: (
        Sweep,
        Verdict,
    ))
        requires
            verdict_of(self@.policy, utxo.value, has_inscription) is Included ==> utxos_total(
                self@.eligible,
            ) + utxo.value <= u64::MAX,
        ensures
            r.1@ == verdict_of(self@.policy, utxo.value, has_inscription),
            r.0@.policy == self@.policy,
            r.0@.eligible == if r.1 is Included {
                self@.eligible.push(*utxo)
            } else {
                self@.eligible
            },
    {
        proof {
            use_type_invariant(&self);
        }
        let verdict = self.policy.judge(utxo.value, has_inscription, block_height);
        if let Verdict::Included = verdict {
            let Sweep { policy, mut eligible, total } = self;
            let ghost before = eligible@;
            eligible.push(utxo.duplicate());
            assert(eligible@.drop_last() =~= before);
            (Sweep { policy, eligible, total: total + utxo.value }, verdict)
        } else {
            (self, verdict)
        }
    }

    /// The outputs that are swept.
    pub fn eligible(&self) -> (utxos: &Vec<Utxo>)
        ensures
            utxos@ == self@.eligible,
    {
        &self.eligible
    }

    /// What is swept, in all.
    pub fn total(&self) -> (total: u64)
        ensures
            total == utxos_total(self@.eligible),
    {
        proof {
            use_type_invariant(self);
        }
        self.total
    }

    /// The amount that reaches the destination.
    pub fn sweep_amount(&self) -> (amount: u64)
        ensures
            amount == send_all_value(utxos_total(self@.eligible)),
    {
        send_all_amount(self.total())
    }

    /// Makes the transaction of the sweep.
    pub fn spend(&self, wallet: &Wallet, destination: &Address) -> (r: Result<Spend, String>)
        requires
            has_txids(self@.eligible),
            utxos_total(self@.eligible) <= SEND_ALL_FEE ==> 150 * self@.eligible.len()
                <= usize::MAX && estimated_fee(self@.eligible.len()) <= u64::MAX,
        ensures
            sweeps(
                wallet@,
                wallet_inputs(self@.eligible, wallet@.address.script_pubkey),
                destination@,
                r,
            ),
    {
        proof {
            use_type_invariant(self);
            lemma_wallet_inputs_total(self.eligible@, wallet@.address.script_pubkey);
        }
        if self.total > SEND_ALL_FEE {
            spend_all_utxos(wallet, &self.eligible, destination)
        } else {
            spend_utxos(wallet, &self.eligible, destination, 0)
        }
    }
}

/// What sweeping outputs gives: everything but the fee goes to the destination. Where
/// nothing is left after the fee, the sweep is a payment of nothing, whose change goes to
/// the wallet.
pub open spec fn sweeps(
    wallet: WalletView,
    inputs: Seq<SpendInputView>,
    destination: AddressView,
    r: Result<Spend, String>,
) -> bool {
    if inputs_total(inputs) > SEND_ALL_FEE {
        spends_all(wallet, inputs, destination, r)
    } else {
        spends(wallet, inputs, destination, 0, r)
    }
}

/// What kind of output an output is.
pub enum OrdinalClassView {
    Inscribed,
    Rare { kind: Seq<char>, description: Seq<char> },
    Normal,
}

/// What kind of output an output is.
#[derive(Clone, Debug)]
pub enum OrdinalClass {
    /// It carries an inscription.
    Inscribed,
    /// It carries none and counts as a rare satoshi.
    Rare { kind: String, description: String },
    /// Neither.
    Normal,
}

impl View for OrdinalClass {
    type V = OrdinalClassView;

    open spec fn view(&self) -> OrdinalClassView {
        match self {
            OrdinalClass::Inscribed => OrdinalClassView::Inscribed,
            OrdinalClass::Rare { kind, description } => OrdinalClassView::Rare {
                kind: kind@,
                description: description@,
            },
            OrdinalClass::Normal => OrdinalClassView::Normal,
        }
    }
}

/// What kind an output of a value is, with an inscription or without.
pub open spec fn class_of(value: u64, has_inscription: bool) -> OrdinalClassView {
    if has_inscription {
        OrdinalClassView::Inscribed
    } else {
        match rare_sat(value as nat) {
            Some((kind, description)) => OrdinalClassView::Rare { kind, description },
            None => OrdinalClassView::Normal,
        }
    }
}

/// Sorts an output.
pub fn classify(value: u64, has_inscription: bool, block_height: u64) -> (class: OrdinalClass)
    ensures
        class@ == class_of(value, has_inscription),
{
    if has_inscription {
        return OrdinalClass::Inscribed;
    }
    match identify_rare_sat(value, block_height) {
        Some((kind, description)) => OrdinalClass::Rare { kind, description },
        None => OrdinalClass::Normal,
    }
}

/// The numbers of outputs of each kind, and of all.
#[derive(Clone, Copy, Debug, PartialEq, Eq, Structural)]
pub struct OrdinalTally {
    pub inscribed: usize,
    pub rare: usize,
    pub normal: usize,
    pub total: usize,
}

/// How many outputs are inscribed.
pub open spec fn inscribed_count(classes: Seq<OrdinalClass>) -> nat
    decreases classes.len(),
{
    if classes.len() == 0 {
        0
    } else {
        inscribed_count(classes.drop_last()) + if classes.last() is Inscribed {
            1nat
        } else {
            0
        }
    }
}

/// How many outputs are rare.
pub open spec fn rare_count(classes: Seq<OrdinalClass>) -> nat
    decreases classes.len(),
{
    if classes.len() == 0 {
        0
    } else {
        rare_count(classes.drop_last()) + if classes.last() is Rare {
            1nat
        } else {
            0
        }
    }
}

/// How many outputs are normal.
pub open spec fn normal_count(classes: Seq<OrdinalClass>) -> nat
    decreases classes.len(),
{
    if classes.len() == 0 {
        0
    } else {
        normal_count(classes.drop_last()) + if classes.last() is Normal {
            1nat
        } else {
            0
        }
    }
}

/// Every output is of exactly one kind: the numbers add up.
pub proof fn lemma_counts_add_up(classes: Seq<OrdinalClass>)
    ensures
        inscribed_count(classes) + rare_count(classes) + normal_count(classes) == classes.len(),
    decreases classes.len(),
{
    if classes.len() > 0 {
        lemma_counts_add_up(classes.drop_last());
    }
}

/// Counts outputs by kind.
pub fn tally(classes: &Vec<OrdinalClass>) -> (tally: OrdinalTally)
    ensures
        tally.inscribed == inscribed_count(classes@),
        tally.rare == rare_count(classes@),
        tally.normal == normal_count(classes@),
        tally.total == classes@.len(),
        tally.inscribed + tally.rare + tally.normal == tally.total,
{
    let mut inscribed: usize = 0;
    let mut rare: usize = 0;
    let mut i: usize = 0;
    assert(classes@.take(0) =~= Seq::<OrdinalClass>::empty());
    while i < classes.len()
        invariant
            i <= classes@.len(),
            inscribed == inscribed_count(classes@.take(i as int)),
            rare == rare_count(classes@.take(i as int)),
            inscribed + rare <= i,
        decreases classes.len() - i,
    {
        assert(classes@.take(i + 1).drop_last() =~= classes@.take(i as int));
        match &classes[i] {
            OrdinalClass::Inscribed => {
                inscribed = inscribed + 1;
            },
            OrdinalClass::Rare { .. } => {
                rare = rare + 1;
            },
            OrdinalClass::Normal => {},
        }
        i = i + 1;
    }
    assert(classes@.take(i as int) =~= classes@);
    proof {
        lemma_counts_add_up(classes@);
    }
    OrdinalTally { inscribed, rare, normal: classes.len() - inscribed - rare, total: classes.len() }
}

} // verus!
