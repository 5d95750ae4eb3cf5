//! What holds of every run.

use vstd::prelude::*;
use crate::client::ClientView;
use crate::history::{count, ended, rested, well_placed, Kind};
use crate::machine::{all_items, EventView, Machine, Phase, Record, COOLDOWN_SECONDS};
use crate::run::Reply;
use crate::safety::{lemma_initial_inv, lemma_step_keeps_inv};
use crate::status::Category;

verus! {

/// Between two requests the invariant holds and no cooldown is open.
pub proof fn lemma_settle_keeps_inv(m: Machine, reply: Reply)
    requires
        m.inv(),
        !(m.phase is Cooling),
    ensures
        m.settle(reply).inv(),
        !(m.settle(reply).phase is Cooling),
        m.settle(reply).urls == m.urls,
        m.settle(reply).client == m.client,
{
    match reply {
        Reply::Failure => {
            lemma_step_keeps_inv(m, EventView::TransportFailure);
        },
        Reply::Answer(outcome) => {
            let next = m.step(EventView::Response(outcome));
            lemma_step_keeps_inv(m, EventView::Response(outcome));
            lemma_step_keeps_inv(next, EventView::CooldownElapsed);
        },
    }
}

/// Between two requests the invariant holds and no cooldown is open.
pub proof fn lemma_drive_keeps_inv(m: Machine, replies: Seq<Reply>)
    requires
        m.inv(),
        !(m.phase is Cooling),
    ensures
        m.drive(replies).inv(),
        !(m.drive(replies).phase is Cooling),
        m.drive(replies).urls == m.urls,
        m.drive(replies).client == m.client,
    decreases replies.len(),
{
    if replies.len() > 0 && m.phase is Awaiting {
        lemma_settle_keeps_inv(m, replies[0]);
        lemma_drive_keeps_inv(m.settle(replies[0]), replies.drop_first());
    }
}

/// A run can be cut in two at any reply.
pub proof fn lemma_drive_concat(m: Machine, first: Seq<Reply>, second: Seq<Reply>)
    ensures
        m.drive(first + second) == m.drive(first).drive(second),
    decreases first.len(),
{
    if first.len() == 0 {
        assert(first + second =~= second);
    } else if m.phase is Awaiting {
        assert((first + second).drop_first() =~= first.drop_first() + second);
        lemma_drive_concat(m.settle(first[0]), first.drop_first(), second);
    }
}

/// The history of a run in which the first `done` items were answered with
/// a success at the first attempt, in input order.
pub open spec fn served(done: nat) -> Seq<Record> {
    Seq::new(
        done,
        |k: int|
            Record::Answered {
                item: k as nat,
                position: (k + 1) as nat,
                category: Category::Success,
            },
    )
}

/// The state of a run in which the first `done` items were answered with a
/// success at the first attempt, and the next request, if any, is out.
pub open spec fn straight(client: ClientView, urls: Seq<Seq<char>>, done: nat) -> Machine
    recommends
        done <= urls.len(),
{
    Machine {
        client,
        urls,
        pending: Seq::new((urls.len() - done) as nat, |i: int| (done + i) as nat),
        phase: Phase::Finished,
        completed: done,
        history: served(done),
    }.dispatch()
}

proof fn lemma_straight_settle(client: ClientView, urls: Seq<Seq<char>>, done: nat, reply: Reply)
    requires
        done < urls.len(),
        reply.is_success(),
    ensures
        straight(client, urls, done).settle(reply) == straight(client, urls, done + 1),
{
    let after = straight(client, urls, done).settle(reply);
    let next = straight(client, urls, done + 1);
    assert(after.history =~= next.history);
    assert(after.pending =~= next.pending);
}

proof fn lemma_straight_drive(
    client: ClientView,
    urls: Seq<Seq<char>>,
    done: nat,
    replies: Seq<Reply>,
)
    requires
        done <= urls.len(),
        replies.len() >= urls.len() - done,
        forall|k: int| 0 <= k < replies.len() ==> (#[trigger] replies[k]).is_success(),
    ensures
        straight(client, urls, done).drive(replies) == straight(client, urls, urls.len()),
    decreases urls.len() - done,
{
    if done < urls.len() {
        lemma_straight_settle(client, urls, done, replies[0]);
        let rest = replies.drop_first();
        assert forall|k: int| 0 <= k < rest.len() implies (#[trigger] rest[k]).is_success() by {
            assert(rest[k] == replies[k + 1]);
        }
        lemma_straight_drive(client, urls, done + 1, rest);
    }
}

/// Where every request is answered with a success, the items are processed
/// in input order: the k-th answer belongs to the k-th URL and is logged at
/// index k, counted from one. The index rises from one to the number of
/// URLs, once for each, and the run ends with an empty queue.
pub proof fn law_all_success_in_order(
    client: ClientView,
    urls: Seq<Seq<char>>,
    replies: Seq<Reply>,
)
    requires
        urls.len() > 0,
        replies.len() >= urls.len(),
        forall|k: int| 0 <= k < replies.len() ==> (#[trigger] replies[k]).is_success(),
    ensures
        ({
            let end = Machine::initial(client, urls).drive(replies);
            &&& end.phase is Finished
            &&& end.pending.len() == 0
            &&& end.completed == urls.len()
            &&& end.history == served(urls.len())
        }),
{
    assert(all_items(urls.len()) =~= Seq::new((urls.len() - 0) as nat, |i: int| (0 + i) as nat));
    assert(served(0) =~= Seq::<Record>::empty());
    lemma_straight_drive(client, urls, 0, replies);
}

/// Whatever the replies, no item is lost and none is counted twice: at every
/// point between two requests, each item either still has to reach its end
/// and has no final answer, or has exactly one. The progress counter is the
/// number of final answers, and every log line carries an index between one
/// and the number of URLs.
pub proof fn law_no_item_lost(
    client: ClientView,
    urls: Seq<Seq<char>>,
    replies: Seq<Reply>,
    item: nat,
)
    requires
        item < urls.len(),
    ensures
        ({
            let now = Machine::initial(client, urls).drive(replies);
            &&& count(now.history, Kind::Ended, item) == (if now.unfinished(item) {
                0nat
            } else {
                1nat
            })
            &&& now.completed == ended(now.history)
            &&& now.completed + now.pending.len() + (if now.in_hand() is Some {
                1nat
            } else {
                0nat
            }) == urls.len()
        }),
{
    lemma_initial_inv(client, urls);
    lemma_drive_keeps_inv(Machine::initial(client, urls), replies);
    assert(Machine::initial(client, urls).drive(replies).accounts_for(item));
}

/// Whatever the replies, a run has finished exactly when every URL has got
/// its final answer, and then the queue is empty.
pub proof fn law_finished_when_all_ended(
    client: ClientView,
    urls: Seq<Seq<char>>,
    replies: Seq<Reply>,
)
    ensures
        ({
            let now = Machine::initial(client, urls).drive(replies);
            &&& now.phase is Finished <==> now.completed == urls.len()
            &&& now.phase is Finished ==> now.pending.len() == 0
            &&& now.completed <= urls.len()
        }),
{
    lemma_initial_inv(client, urls);
    lemma_drive_keeps_inv(Machine::initial(client, urls), replies);
}

/// A rate-limited item goes behind the items that wait: after its cooldown
/// the item that stood at the front is in hand, or the item itself where
/// none waited. The progress counter stays as it is.
pub proof fn law_rate_limited_item_goes_last(m: Machine, reply: Reply)
    requires
        m.phase is Awaiting,
        reply.is_rate_limited(),
    ensures
        m.settle(reply).phase is Awaiting,
        seq![m.settle(reply).phase->Awaiting_0] + m.settle(reply).pending == m.pending.push(
            m.phase->Awaiting_0,
        ),
        m.settle(reply).completed == m.completed,
{
    let item = m.phase->Awaiting_0;
    let next = m.settle(reply);
    assert(next == m.cool(item).requeue(item));
    assert(seq![next.phase->Awaiting_0] + next.pending =~= m.pending.push(item));
}

/// As long as the service answers every request with a rate limit, the run
/// goes on and nothing ends: there is no limit on the number of attempts.
pub proof fn law_rate_limits_never_end(m: Machine, replies: Seq<Reply>)
    requires
        m.phase is Awaiting,
        forall|k: int| 0 <= k < replies.len() ==> (#[trigger] replies[k]).is_rate_limited(),
    ensures
        m.drive(replies).phase is Awaiting,
        m.drive(replies).completed == m.completed,
        m.drive(replies).pending.len() == m.pending.len(),
    decreases replies.len(),
{
    if replies.len() > 0 {
        let next = m.settle(replies[0]);
        let rest = replies.drop_first();
        law_rate_limited_item_goes_last(m, replies[0]);
        assert(next.pending.len() + 1 == m.pending.len() + 1) by {
            assert((seq![next.phase->Awaiting_0] + next.pending).len() == m.pending.push(
                m.phase->Awaiting_0,
            ).len());
        }
        assert forall|k: int| 0 <= k < rest.len() implies (#[trigger] rest[k]).is_rate_limited() by {
            assert(rest[k] == replies[k + 1]);
        }
        law_rate_limits_never_end(next, rest);
    }
}

/// Whatever the replies, every answer is logged at an index between one and
/// the number of URLs: one more than the number of items that had got their
/// final answer before it. A rate-limited answer does not use up its index.
pub proof fn law_index_counts_final_answers(
    client: ClientView,
    urls: Seq<Seq<char>>,
    replies: Seq<Reply>,
    k: int,
)
    requires
        0 <= k < Machine::initial(client, urls).drive(replies).history.len(),
        Machine::initial(client, urls).drive(replies).history[k] is Answered,
    ensures
        ({
            let history = Machine::initial(client, urls).drive(replies).history;
            history[k] matches Record::Answered { item, position, .. } && item < urls.len() && 1
                <= position <= urls.len() && position == ended(history.take(k)) + 1
        }),
{
    lemma_initial_inv(client, urls);
    lemma_drive_keeps_inv(Machine::initial(client, urls), replies);
    let history = Machine::initial(client, urls).drive(replies).history;
    assert(well_placed(history, k, urls.len()));
}

/// When a run has finished, every item has got exactly one final answer, a
/// success or a failure, however often any item was rate-limited before; the
/// number of final answers and the progress counter equal the number of
/// URLs.
pub proof fn law_finished_run_ends_each_item_once(
    client: ClientView,
    urls: Seq<Seq<char>>,
    replies: Seq<Reply>,
)
    requires
        Machine::initial(client, urls).drive(replies).phase is Finished,
    ensures
        ({
            let end = Machine::initial(client, urls).drive(replies);
            &&& forall|item: nat|
                item < urls.len() ==> #[trigger] count(end.history, Kind::Ended, item) == 1
            &&& ended(end.history) == urls.len()
            &&& end.completed == urls.len()
            &&& end.pending.len() == 0
        }),
{
    lemma_initial_inv(client, urls);
    let end = Machine::initial(client, urls).drive(replies);
    lemma_drive_keeps_inv(Machine::initial(client, urls), replies);
    assert forall|item: nat| item < urls.len() implies #[trigger] count(
        end.history,
        Kind::Ended,
        item,
    ) == 1 by {
        assert(end.accounts_for(item));
    }
}

/// Every success is a final answer.
proof fn lemma_succeeded_at_most_ended(history: Seq<Record>, item: nat)
    ensures
        count(history, Kind::Succeeded, item) <= count(history, Kind::Ended, item),
    decreases history.len(),
{
    if history.len() > 0 {
        lemma_succeeded_at_most_ended(history.drop_last(), item);
    }
}

/// An item that was rate-limited `times` times has caused exactly `times`
/// cooldowns of the fixed length and has gone back to the queue exactly
/// `times` times, at every point between two requests.
pub proof fn law_cooldown_per_rate_limit(
    client: ClientView,
    urls: Seq<Seq<char>>,
    replies: Seq<Reply>,
    item: nat,
    times: nat,
)
    requires
        count(Machine::initial(client, urls).drive(replies).history, Kind::Limited, item) == times,
    ensures
        ({
            let now = Machine::initial(client, urls).drive(replies);
            &&& count(now.history, Kind::Waited, item) == times
            &&& count(now.history, Kind::Requeued, item) == times
            &&& rested(now.history, item) == COOLDOWN_SECONDS * times
        }),
{
    lemma_initial_inv(client, urls);
    let now = Machine::initial(client, urls).drive(replies);
    lemma_drive_keeps_inv(Machine::initial(client, urls), replies);
    assert(now.accounts_for(item));
}

/// An item that was rate-limited once and then answered with a success has
/// caused one cooldown of the fixed length, has gone back to the queue once
/// and has exactly one final answer: the progress counter has counted it
/// once.
pub proof fn law_one_rate_limit_then_success(
    client: ClientView,
    urls: Seq<Seq<char>>,
    replies: Seq<Reply>,
    item: nat,
)
    requires
        item < urls.len(),
        count(Machine::initial(client, urls).drive(replies).history, Kind::Limited, item) == 1,
        count(Machine::initial(client, urls).drive(replies).history, Kind::Succeeded, item) >= 1,
    ensures
        ({
            let now = Machine::initial(client, urls).drive(replies);
            &&& count(now.history, Kind::Waited, item) == 1
            &&& rested(now.history, item) == COOLDOWN_SECONDS
            &&& count(now.history, Kind::Requeued, item) == 1
            &&& count(now.history, Kind::Succeeded, item) == 1
            &&& count(now.history, Kind::Ended, item) == 1
            &&& !now.unfinished(item)
            &&& now.completed == ended(now.history)
        }),
{
    let now = Machine::initial(client, urls).drive(replies);
    law_cooldown_per_rate_limit(client, urls, replies, item, 1);
    law_no_item_lost(client, urls, replies, item);
    lemma_succeeded_at_most_ended(now.history, item);
}

/// A transport failure stops the run at once: the request that failed is
/// the last one, the items that still wait stay in the queue, nothing more
/// is logged or counted, and later replies change nothing.
pub proof fn law_failure_stops_run(m: Machine, before: Seq<Reply>, after: Seq<Reply>)
    requires
        m.drive(before).phase is Awaiting,
    ensures
        ({
            let at = m.drive(before);
            let end = m.drive(before.push(Reply::Failure) + after);
            &&& end.phase == Phase::Aborted(at.phase->Awaiting_0)
            &&& end.action() is Abort
            &&& end.pending == at.pending
            &&& end.history == at.history
            &&& end.completed == at.completed
            &&& forall|event: EventView| !end.accepts(event) && end.step(event) == end
        }),
{
    let at = m.drive(before);
    let failed = seq![Reply::Failure];
    assert(before.push(Reply::Failure) + after =~= before + (failed + after));
    lemma_drive_concat(m, before, failed + after);
    lemma_drive_concat(at, failed, after);
    let stopped = at.settle(Reply::Failure);
    assert(at.drive(failed) == stopped) by {
        assert(stopped.drive(failed.drop_first()) == stopped);
    }
}

} // verus!
