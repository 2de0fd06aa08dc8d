//! The library's laws, stated over the models that the public contracts
//! use: the rule sequences of `add_rule`/`snapshot` and the sender map of
//! `increment_sender_score`/`get_sender_score`.

use vstd::prelude::*;

use crate::store::spec_reputation;
use crate::store::spec_upsert;

verus! {

/// A rule appended by `add_rule` is contained in any later cache snapshot,
/// and the durable rule table grows by exactly one row. `cache` and `store`
/// are the models before the addition, equal by the write-through invariant.
pub proof fn lemma_added_rule_visible(
    cache: Seq<(Seq<char>, int)>,
    store: Seq<(Seq<char>, int)>,
    keyword: Seq<char>,
    score: int,
)
    requires
        cache == store,
    ensures
        cache.push((keyword, score)).contains((keyword, score)),
        store.push((keyword, score)).len() == store.len() + 1,
{
    assert(cache.push((keyword, score))[cache.len() as int] == (keyword, score));
}

/// Recording a spam outcome and then a clean outcome for one sender leaves
/// its message count two higher and its spam-flag count exactly one higher
/// (from zero for a sender with no record): the clean outcome never
/// decrements.
pub proof fn lemma_record_outcome_sequence(m: Map<Seq<char>, (int, int)>, id: Seq<char>)
    ensures
        ({
            let after = spec_upsert(spec_upsert(m, id, true), id, false);
            &&& after.contains_key(id)
            &&& after[id].0 == (if m.contains_key(id) {
                m[id].0 + 1
            } else {
                1
            })
            &&& after[id].1 == (if m.contains_key(id) {
                m[id].1 + 2
            } else {
                2
            })
        }),
{
}

/// Recording an outcome for one sender neither creates, removes, nor
/// changes any other sender's record: updates are isolated per key.
pub proof fn lemma_record_outcome_isolated(
    m: Map<Seq<char>, (int, int)>,
    id: Seq<char>,
    other: Seq<char>,
    flagged: bool,
)
    requires
        id != other,
    ensures
        spec_upsert(m, other, flagged).contains_key(id) == m.contains_key(id),
        m.contains_key(id) ==> spec_upsert(m, other, flagged)[id] == m[id],
{
}

/// Reading a reputation is a pure function of the ledger state: two reads
/// of the same state for the same sender give the same value.
pub proof fn lemma_reputation_read_pure(
    m: Map<Seq<char>, (int, int)>,
    id: Seq<char>,
    first: int,
    second: int,
)
    requires
        first == spec_reputation(m, id),
        second == spec_reputation(m, id),
    ensures
        first == second,
{
}

} // verus!
