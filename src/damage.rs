//! The hit-point ledger: an append-only log of attributed modifications.

use vstd::prelude::*;

verus! {

/// Source and origin of the entry that opens every ledger, and of damage
/// dealt by the world itself.
pub const SYSTEM_SOURCE: u64 = 0;

/// One change of hit points: what caused it (`source`), who is credited for
/// it (`source_origin`), and by how much.
#[derive(Clone, Copy, Debug, PartialEq, Eq, Structural)]
pub struct HpModification {
    pub source: u64,
    pub source_origin: u64,
    pub amount: i64,
}

/// Sum of the amounts of a sequence of modifications.
pub open spec fn sum_amounts(s: Seq<HpModification>) -> int
    decreases s.len(),
{
    if s.len() == 0 {
        0
    } else {
        sum_amounts(s.drop_last()) + s.last().amount
    }
}

/// Number of modifications of a sequence that come from `source`.
pub open spec fn count_source(s: Seq<HpModification>, source: u64) -> nat
    decreases s.len(),
{
    if s.len() == 0 {
        0
    } else {
        count_source(s.drop_last(), source) + if s.last().source == source {
            1nat
        } else {
            0nat
        }
    }
}

impl HpModification {
    pub fn new(source: u64, source_origin: u64, amount: i64) -> (r: HpModification)
        ensures
            r == (HpModification { source, source_origin, amount }),
    {
        HpModification { source, source_origin, amount }
    }

    pub fn is_of_source(&self, source: u64) -> (r: bool)
        ensures
            r == (self.source == source),
    {
        self.source == source
    }
}

/// Hit points, with the ledger of every change that made them.
#[derive(Debug)]
pub struct Hp {
    pub modifications: Vec<HpModification>,
    pub act_hp: i64,
}

impl Hp {
    /// The ledger opens with one entry and the current value is the sum of
    /// all entries.
    pub open spec fn wf(&self) -> bool {
        self.modifications@.len() > 0 && self.act_hp == sum_amounts(self.modifications@)
    }

    pub open spec fn alive(&self) -> bool {
        self.act_hp > 0
    }

    pub open spec fn modified_by(&self, source: u64) -> bool {
        exists|i: int| 0 <= i < self.modifications@.len() && #[trigger] self.modifications@[i].source == source
    }

    pub fn new(initial_hp: i64) -> (r: Hp)
        ensures
            r.wf(),
            r.act_hp == initial_hp,
            r.modifications@ == seq![HpModification { source: SYSTEM_SOURCE, source_origin: SYSTEM_SOURCE, amount: initial_hp }],
    {
        let modifications = vec![HpModification::new(SYSTEM_SOURCE, SYSTEM_SOURCE, initial_hp)];
        let r = Hp { act_hp: initial_hp, modifications };
        assert(r.modifications@.drop_last() =~= Seq::<HpModification>::empty());
        assert(sum_amounts(r.modifications@) == sum_amounts(r.modifications@.drop_last()) + initial_hp);
        r
    }

    pub fn is_alive(&self) -> (r: bool)
        ensures
            r == self.alive(),
    {
        self.act_hp > 0
    }

    pub fn current(&self) -> (r: i64)
        ensures
            r == self.act_hp,
    {
        self.act_hp
    }

    /// Appends a modification and applies its amount.
    pub fn modify(&mut self, source: u64, source_origin: u64, amount: i64)
        requires
            old(self).wf(),
            i64::MIN <= old(self).act_hp + amount <= i64::MAX,
        ensures
            final(self).wf(),
            final(self).modifications@ == old(self).modifications@.push(
                HpModification { source, source_origin, amount },
            ),
            final(self).act_hp == old(self).act_hp + amount,
    {
        let m = HpModification::new(source, source_origin, amount);
        self.modifications.push(m);
        self.act_hp = self.act_hp + amount;
        assert(self.modifications@.drop_last() =~= old(self).modifications@);
    }

    pub fn get_last_modification(&self) -> (r: Option<HpModification>)
        requires
            self.wf(),
        ensures
            r == Some(self.modifications@.last()),
    {
        let n = self.modifications.len();
        Some(self.modifications[n - 1])
    }

    pub fn has_been_modified_by_source(&self, source: u64) -> (r: bool)
        ensures
            r == self.modified_by(source),
    {
        let mut i: usize = 0;
        while i < self.modifications.len()
            invariant
                0 <= i <= self.modifications@.len(),
                forall|j: int| 0 <= j < i ==> self.modifications@[j].source != source,
            decreases self.modifications@.len() - i,
        {
            if self.modifications[i].is_of_source(source) {
                return true;
            }
            i = i + 1;
        }
        false
    }
}

/// Appending entries to a ledger adds their amounts to its sum: the hit
/// points after any run of modifications are the starting value plus every
/// amount applied since.
pub proof fn lemma_sum_after_modifications(h: Seq<HpModification>, extra: Seq<HpModification>)
    ensures
        sum_amounts(h + extra) == sum_amounts(h) + sum_amounts(extra),
    decreases extra.len(),
{
    if extra.len() == 0 {
        assert(h + extra =~= h);
    } else {
        lemma_sum_after_modifications(h, extra.drop_last());
        assert((h + extra).drop_last() =~= h + extra.drop_last());
        assert((h + extra).last() == extra.last());
    }
}

/// A source that no entry of a ledger comes from has no entry counted.
pub proof fn lemma_count_source_zero(s: Seq<HpModification>, source: u64)
    requires
        forall|i: int| 0 <= i < s.len() ==> #[trigger] s[i].source != source,
    ensures
        count_source(s, source) == 0,
    decreases s.len(),
{
    if s.len() > 0 {
        lemma_count_source_zero(s.drop_last(), source);
    }
}

/// A source that some entry comes from is counted at least once.
pub proof fn lemma_count_source_pos(s: Seq<HpModification>, source: u64, i: int)
    requires
        0 <= i < s.len(),
        s[i].source == source,
    ensures
        count_source(s, source) >= 1,
    decreases s.len(),
{
    if i < s.len() - 1 {
        lemma_count_source_pos(s.drop_last(), source, i);
    }
}

} // verus!
