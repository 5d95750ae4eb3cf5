//! Counting in the history of a run.

use vstd::prelude::*;
use crate::machine::Record;
use crate::status::Category;

verus! {

/// What is counted for an item.
pub enum Kind {
    /// Answers that ended the item: a success or a failure.
    Ended,
    /// Answers that ended the item with a success.
    Succeeded,
    /// Answers that were rate-limited.
    Limited,
    /// Cooldowns rested because of the item.
    Waited,
    /// Returns of the item to the back of the queue.
    Requeued,
}

impl Record {
    /// Whether the record is an answer that ends its item.
    pub open spec fn is_end(self) -> bool {
        self matches Record::Answered { category, .. } && category != Category::RateLimited
    }

    /// Whether the record is counted under `kind` for `item`.
    pub open spec fn tells(self, kind: Kind, item: nat) -> bool {
        match self {
            Record::Answered { item: i, category, .. } => i == item && match kind {
                Kind::Ended => category != Category::RateLimited,
                Kind::Succeeded => category == Category::Success,
                Kind::Limited => category == Category::RateLimited,
                _ => false,
            },
            Record::Waited { item: i, .. } => i == item && kind is Waited,
            Record::Requeued { item: i } => i == item && kind is Requeued,
        }
    }

    /// The seconds that the record says were rested because of `item`.
    pub open spec fn rest(self, item: nat) -> nat {
        match self {
            Record::Waited { item: i, seconds } => if i == item {
                seconds
            } else {
                0
            },
            _ => 0,
        }
    }
}

/// How many records of the history are counted under `kind` for `item`.
pub open spec fn count(history: Seq<Record>, kind: Kind, item: nat) -> nat
    decreases history.len(),
{
    if history.len() == 0 {
        0
    } else {
        count(history.drop_last(), kind, item) + if history.last().tells(kind, item) {
            1nat
        } else {
            0nat
        }
    }
}

/// How many answers of the history ended an item.
pub open spec fn ended(history: Seq<Record>) -> nat
    decreases history.len(),
{
    if history.len() == 0 {
        0
    } else {
        ended(history.drop_last()) + if history.last().is_end() {
            1nat
        } else {
            0nat
        }
    }
}

/// The seconds rested because of `item`, all cooldowns together.
pub open spec fn rested(history: Seq<Record>, item: nat) -> nat
    decreases history.len(),
{
    if history.len() == 0 {
        0
    } else {
        rested(history.drop_last(), item) + history.last().rest(item)
    }
}

/// Whether the answer at place `k` of the history belongs to one of `total`
/// items and carries the index it should: one more than the number of items
/// that had ended before it, and not more than `total`.
pub open spec fn well_placed(history: Seq<Record>, k: int, total: nat) -> bool {
    history[k] matches Record::Answered { item, position, .. } ==> {
        &&& item < total
        &&& position == ended(history.take(k)) + 1
        &&& position <= total
    }
}

/// One more record adds one to the count where it is counted, and nothing
/// where it is not.
pub proof fn lemma_count_push(history: Seq<Record>, record: Record, kind: Kind, item: nat)
    ensures
        count(history.push(record), kind, item) == count(history, kind, item) + if record.tells(
            kind,
            item,
        ) {
            1nat
        } else {
            0nat
        },
{
    assert(history.push(record).drop_last() =~= history);
}

/// One more record adds the seconds it says were rested.
pub proof fn lemma_rested_push(history: Seq<Record>, record: Record, item: nat)
    ensures
        rested(history.push(record), item) == rested(history, item) + record.rest(item),
{
    assert(history.push(record).drop_last() =~= history);
}

/// One more record adds one to the final answers where it is one.
pub proof fn lemma_ended_push(history: Seq<Record>, record: Record)
    ensures
        ended(history.push(record)) == ended(history) + if record.is_end() {
            1nat
        } else {
            0nat
        },
{
    assert(history.push(record).drop_last() =~= history);
}

/// Appending a record that carries the right index, or none, keeps every
/// answer well placed.
pub proof fn lemma_well_placed_push(history: Seq<Record>, record: Record, total: nat)
    requires
        forall|k: int| 0 <= k < history.len() ==> well_placed(history, k, total),
        record matches Record::Answered { item, position, .. } ==> item < total && position
            == ended(history) + 1 && position <= total,
    ensures
        forall|k: int| 0 <= k < history.len() + 1 ==> well_placed(history.push(record), k, total),
{
    let longer = history.push(record);
    assert forall|k: int| 0 <= k < history.len() + 1 implies well_placed(longer, k, total) by {
        if k < history.len() {
            assert(well_placed(history, k, total));
            assert(longer.take(k) =~= history.take(k));
        } else {
            assert(longer.take(k) =~= history);
        }
    }
}

} // verus!
