//! What holds of every state that a run can reach.

use vstd::prelude::*;
use crate::client::ClientView;
use crate::history::{
    count, ended, lemma_count_push, lemma_ended_push, lemma_rested_push, lemma_well_placed_push,
    rested, well_placed, Kind,
};
use crate::machine::{all_items, EventView, Machine, Phase, Record, COOLDOWN_SECONDS};
use crate::status::Category;

verus! {

impl Machine {
    /// Whether the item still has to reach its end: it waits in the queue or
    /// is in hand.
    pub open spec fn unfinished(self, item: nat) -> bool {
        self.pending.contains(item) || self.in_hand() == Some(item)
    }

    /// Whether the history accounts for the item: it has one final answer, or
    /// none while it still has to reach its end; each of its cooldowns took
    /// the fixed time and was followed by its return to the queue; and it has
    /// as many cooldowns as rate-limited answers, the one that is being
    /// rested not yet counted.
    pub open spec fn accounts_for(self, item: nat) -> bool {
        let h = self.history;
        &&& item < self.total() ==> count(h, Kind::Ended, item) == (if self.unfinished(item) {
            0nat
        } else {
            1nat
        })
        &&& count(h, Kind::Waited, item) == count(h, Kind::Requeued, item)
        &&& count(h, Kind::Limited, item) == count(h, Kind::Waited, item) + (if self.phase
            == Phase::Cooling(item) {
            1nat
        } else {
            0nat
        })
        &&& rested(h, item) == COOLDOWN_SECONDS * count(h, Kind::Waited, item)
    }

    /// Everything the invariant says but for the phase `Finished`.
    pub open spec fn sound(self) -> bool {
        &&& forall|k: int| 0 <= k < self.pending.len() ==> #[trigger] self.pending[k] < self.total()
        &&& self.pending.no_duplicates()
        &&& self.in_hand() matches Some(item) ==> item < self.total() && !self.pending.contains(
            item,
        )
        &&& self.completed + self.pending.len() + (if self.in_hand() is Some {
            1nat
        } else {
            0nat
        }) == self.total()
        &&& self.completed == ended(self.history)
        &&& forall|item: nat| #[trigger] self.accounts_for(item)
        &&& forall|k: int|
            0 <= k < self.history.len() ==> well_placed(self.history, k, self.total())
    }

    /// The invariant of a run.
    ///
    /// No item is lost or counted twice: every item waits in the queue, is in
    /// hand, or has ended exactly once, and the progress counter is the
    /// number of items that have ended. Every answer was logged at an index
    /// between one and the number of URLs. Every cooldown stands for one
    /// rate-limited answer and one return to the queue, and lasts the same
    /// fixed time. The run is finished exactly when nothing waits and nothing
    /// is in hand.
    pub open spec fn inv(self) -> bool {
        &&& self.sound()
        &&& self.phase is Finished ==> self.pending.len() == 0
    }
}

/// What is left of a queue without repeats when its front item leaves.
proof fn lemma_drop_first(s: Seq<nat>)
    requires
        s.len() > 0,
        s.no_duplicates(),
    ensures
        s.drop_first().no_duplicates(),
        !s.drop_first().contains(s[0]),
        forall|x: nat| x != s[0] ==> (s.drop_first().contains(x) <==> s.contains(x)),
        s.contains(s[0]),
{
    let rest = s.drop_first();
    assert forall|i: int| 0 <= i < rest.len() implies #[trigger] rest[i] == s[i + 1] by {}
    assert forall|x: nat| x != s[0] && s.contains(x) implies rest.contains(x) by {
        let i = choose|i: int| 0 <= i < s.len() && s[i] == x;
        assert(rest[i - 1] == x);
    }
}

/// What a queue without repeats holds when a new item joins it at the back.
proof fn lemma_push(s: Seq<nat>, x: nat)
    requires
        s.no_duplicates(),
        !s.contains(x),
    ensures
        s.push(x).no_duplicates(),
        forall|y: nat| s.push(x).contains(y) <==> (s.contains(y) || y == x),
{
    let longer = s.push(x);
    assert forall|y: nat| s.contains(y) || y == x implies longer.contains(y) by {
        if s.contains(y) {
            let i = choose|i: int| 0 <= i < s.len() && s[i] == y;
            assert(longer[i] == y);
        } else {
            assert(longer[s.len() as int] == y);
        }
    }
}

/// What one more record adds to everything that is counted for an item.
proof fn lemma_push_counts(history: Seq<Record>, record: Record, item: nat)
    ensures
        forall|kind: Kind| #[trigger]
            count(history.push(record), kind, item) == count(history, kind, item) + if record.tells(
                kind,
                item,
            ) {
                1nat
            } else {
                0nat
            },
        rested(history.push(record), item) == rested(history, item) + record.rest(item),
{
    assert forall|kind: Kind| #[trigger]
        count(history.push(record), kind, item) == count(history, kind, item) + if record.tells(
            kind,
            item,
        ) {
            1nat
        } else {
            0nat
        } by {
        lemma_count_push(history, record, kind, item);
    }
    lemma_rested_push(history, record, item);
}

/// Taking the next item in hand keeps the invariant.
pub proof fn lemma_dispatch_keeps_inv(m: Machine)
    requires
        m.sound(),
        m.phase is Finished,
    ensures
        m.dispatch().inv(),
{
    let next = m.dispatch();
    if m.pending.len() > 0 {
        lemma_drop_first(m.pending);
        assert forall|k: int| 0 <= k < next.pending.len() implies #[trigger] next.pending[k]
            < next.total() by {}
        assert forall|item: nat| #[trigger] next.accounts_for(item) by {
            assert(m.accounts_for(item));
        }
    }
}

/// The state before the first request satisfies the invariant.
pub proof fn lemma_initial_inv(client: ClientView, urls: Seq<Seq<char>>)
    ensures
        Machine::initial(client, urls).inv(),
{
    let m = Machine {
        client,
        urls,
        pending: all_items(urls.len()),
        phase: Phase::Finished,
        completed: 0,
        history: Seq::empty(),
    };
    assert forall|item: nat| #[trigger] m.accounts_for(item) by {
        if item < m.total() {
            assert(m.pending[item as int] == item);
        }
    }
    lemma_dispatch_keeps_inv(m);
}

/// An answer that ends the item in hand keeps the invariant.
proof fn lemma_end_keeps_inv(m: Machine, item: nat, category: Category)
    requires
        m.inv(),
        m.phase == Phase::Awaiting(item),
        category != Category::RateLimited,
    ensures
        m.end(item, category).inv(),
{
    let record = Record::Answered { item, position: m.index(), category };
    let settled = Machine {
        phase: Phase::Finished,
        completed: m.completed + 1,
        history: m.history.push(record),
        ..m
    };
    lemma_ended_push(m.history, record);
    lemma_well_placed_push(m.history, record, m.total());
    assert forall|other: nat| #[trigger] settled.accounts_for(other) by {
        assert(m.accounts_for(other));
        lemma_push_counts(m.history, record, other);
    }
    lemma_dispatch_keeps_inv(settled);
}

/// A rate-limited answer keeps the invariant.
proof fn lemma_limit_keeps_inv(m: Machine, item: nat)
    requires
        m.inv(),
        m.phase == Phase::Awaiting(item),
    ensures
        m.cool(item).inv(),
{
    let record = Record::Answered { item, position: m.index(), category: Category::RateLimited };
    let next = m.cool(item);
    lemma_ended_push(m.history, record);
    lemma_well_placed_push(m.history, record, m.total());
    assert forall|other: nat| #[trigger] next.accounts_for(other) by {
        assert(m.accounts_for(other));
        lemma_push_counts(m.history, record, other);
    }
}

/// The return of an item to the queue after its cooldown keeps the
/// invariant.
proof fn lemma_requeue_keeps_inv(m: Machine, item: nat)
    requires
        m.inv(),
        m.phase == Phase::Cooling(item),
    ensures
        m.requeue(item).inv(),
{
    let waited = Record::Waited { item, seconds: COOLDOWN_SECONDS as nat };
    let requeued = Record::Requeued { item };
    let middle = m.history.push(waited);
    let settled = Machine {
        phase: Phase::Finished,
        pending: m.pending.push(item),
        history: middle.push(requeued),
        ..m
    };
    lemma_ended_push(m.history, waited);
    lemma_ended_push(middle, requeued);
    lemma_well_placed_push(m.history, waited, m.total());
    lemma_well_placed_push(middle, requeued, m.total());
    lemma_push(m.pending, item);
    assert forall|k: int| 0 <= k < settled.pending.len() implies #[trigger] settled.pending[k]
        < settled.total() by {}
    assert forall|other: nat| #[trigger] settled.accounts_for(other) by {
        assert(m.accounts_for(other));
        lemma_push_counts(m.history, waited, other);
        lemma_push_counts(middle, requeued, other);
    }
    lemma_dispatch_keeps_inv(settled);
}

/// Whatever the event, the state that follows satisfies the invariant
/// again.
pub proof fn lemma_step_keeps_inv(m: Machine, event: EventView)
    requires
        m.inv(),
    ensures
        m.step(event).inv(),
{
    match (m.phase, event) {
        (Phase::Awaiting(item), EventView::Response(outcome)) => {
            if outcome.category() == Category::RateLimited {
                lemma_limit_keeps_inv(m, item);
            } else {
                lemma_end_keeps_inv(m, item, outcome.category());
            }
        },
        (Phase::Awaiting(item), EventView::TransportFailure) => {
            let next = m.abort(item);
            assert forall|other: nat| #[trigger] next.accounts_for(other) by {
                assert(m.accounts_for(other));
            }
        },
        (Phase::Cooling(item), EventView::CooldownElapsed) => {
            lemma_requeue_keeps_inv(m, item);
        },
        _ => {},
    }
}

} // verus!
