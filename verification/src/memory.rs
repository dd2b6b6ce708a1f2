use vstd::prelude::*;
use crate::bridge::Bridge;
use crate::error::BridgeError;
use crate::ternary::TernaryValue;

verus! {

/// Short-term memory entry: simple key-value with a creation tick.
#[derive(Debug, Clone, PartialEq, Eq)]
pub struct StmEntry {
    pub key: String,
    pub value: Vec<TernaryValue>,
    pub created_at: u64,
}

/// Long-term memory entry: key-value with an access count and weight.
#[derive(Debug, Clone, PartialEq, Eq)]
pub struct LtmEntry {
    pub key: String,
    pub value: Vec<TernaryValue>,
    pub access_count: u32,
    pub weight: u32,
}

/// What an `StmEntry` holds, as mathematical values.
#[verifier::ext_equal]
pub struct StmEntryView {
    pub key: Seq<char>,
    pub value: Seq<TernaryValue>,
    pub created_at: u64,
}

/// What an `LtmEntry` holds, as mathematical values.
#[verifier::ext_equal]
pub struct LtmEntryView {
    pub key: Seq<char>,
    pub value: Seq<TernaryValue>,
    pub access_count: u32,
    pub weight: u32,
}

impl View for StmEntry {
    type V = StmEntryView;

    open spec fn view(&self) -> StmEntryView {
        StmEntryView { key: self.key@, value: self.value@, created_at: self.created_at }
    }
}

impl View for LtmEntry {
    type V = LtmEntryView;

    open spec fn view(&self) -> LtmEntryView {
        LtmEntryView {
            key: self.key@,
            value: self.value@,
            access_count: self.access_count,
            weight: self.weight,
        }
    }
}

/// The long-term entry that a short-term entry is promoted to: never
/// accessed yet, with weight 1.
pub open spec fn promoted(stm: StmEntryView) -> LtmEntryView {
    LtmEntryView { key: stm.key, value: stm.value, access_count: 0, weight: 1 }
}

/// The short-term entry that a long-term entry is brought back to: the
/// access metadata is dropped and the creation tick is 0.
pub open spec fn recalled(ltm: LtmEntryView) -> StmEntryView {
    StmEntryView { key: ltm.key, value: ltm.value, created_at: 0 }
}

/// Converts between short-term and long-term memory representations.
/// STM entries are ephemeral; when promoted to LTM, they gain access tracking.
pub struct MemoryBridge;

fn copy_trits(v: &Vec<TernaryValue>) -> (r: Vec<TernaryValue>)
    ensures
        r@ == v@,
{
    let r = v.clone();
    assert(r@ =~= v@);
    r
}

impl Bridge<StmEntry, LtmEntry> for MemoryBridge {
    type Error = BridgeError;

    open spec fn accepts_forward(&self, stm: &StmEntry) -> bool {
        true
    }

    fn forward(&mut self, stm: &StmEntry) -> (r: Result<LtmEntry, BridgeError>)
        ensures
            r matches Ok(ltm) && ltm@ == promoted(stm@),
    {
        Ok(LtmEntry { key: stm.key.clone(), value: copy_trits(&stm.value), access_count: 0, weight: 1 })
    }

    fn backward(&self, ltm: &LtmEntry) -> (r: Result<StmEntry, BridgeError>)
        ensures
            r matches Ok(stm) && stm@ == recalled(ltm@),
    {
        Ok(StmEntry { key: ltm.key.clone(), value: copy_trits(&ltm.value), created_at: 0 })
    }
}

/// Promoting a short-term entry and bringing it back keeps its key and value;
/// only the creation tick is lost (it becomes 0).
pub proof fn lemma_memory_roundtrip(stm: StmEntryView)
    ensures
        recalled(promoted(stm)) == (StmEntryView { created_at: 0, ..stm }),
{
}

/// Bringing a long-term entry back and promoting it again keeps its key and
/// value; the access metadata starts over (count 0, weight 1).
pub proof fn lemma_memory_repromote(ltm: LtmEntryView)
    ensures
        promoted(recalled(ltm)) == (LtmEntryView { access_count: 0, weight: 1, ..ltm }),
{
}

/// Promotion keeps key and value and always starts the access tracking at
/// count 0 and weight 1, whenever the entry was created.
pub proof fn lemma_promotion_fields(stm: StmEntryView)
    ensures
        promoted(stm).key == stm.key,
        promoted(stm).value == stm.value,
        promoted(stm).access_count == 0,
        promoted(stm).weight == 1,
{
}

/// Bringing an entry back keeps key and value and always sets the creation
/// tick to 0, whatever its access metadata was.
pub proof fn lemma_recall_fields(ltm: LtmEntryView)
    ensures
        recalled(ltm).key == ltm.key,
        recalled(ltm).value == ltm.value,
        recalled(ltm).created_at == 0,
{
}

} // verus!
