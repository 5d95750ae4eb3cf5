//! The run as a state machine over plain values.
//!
//! A [`Machine`] is the mathematical state of a run: the URLs, the items still
//! waiting, the item in hand, the progress counter and a record of all that
//! has happened. [`Machine::step`] says how one event changes it, and
//! [`Machine::action`] what the caller has to do next. The executable queue
//! follows this machine step by step.

use vstd::prelude::*;
use crate::client::{request_for, ClientView, RequestView};
use crate::level::Level;
use crate::outcome::OutcomeView;
use crate::status::{status_display, Category};
use crate::text::decimal;

verus! {

/// Seconds to wait after a rate-limited answer before the next request.
pub const COOLDOWN_SECONDS: u64 = 60;

/// Where the run stands. Items are named by their place in the input,
/// counted from zero.
pub enum Phase {
    /// A request for this item is out and its answer is awaited.
    Awaiting(nat),
    /// This item was rate-limited; the run rests before it goes on.
    Cooling(nat),
    /// Every item has reached its end.
    Finished,
    /// The request for this item failed below HTTP; the run has stopped.
    Aborted(nat),
}

/// One entry of the history of a run.
pub enum Record {
    /// An answer arrived for `item` and was logged at `position`.
    Answered { item: nat, position: nat, category: Category },
    /// The run rested for `seconds` because of `item`.
    Waited { item: nat, seconds: nat },
    /// `item` went to the back of the queue.
    Requeued { item: nat },
}

/// What the caller reports to the queue.
pub enum EventView {
    /// The request in flight was answered.
    Response(OutcomeView),
    /// The request in flight failed below HTTP.
    TransportFailure,
    /// The cooldown is over.
    CooldownElapsed,
}

/// What the caller has to do next.
pub enum ActionView {
    /// Send this request and report its answer.
    Submit(RequestView),
    /// Rest for this many seconds and report back.
    Wait(nat),
    /// Nothing is left to do.
    Finish,
    /// Stop with a failure.
    Abort,
}

/// A log line as plain text.
pub struct LineView {
    pub level: Level,
    pub text: Seq<char>,
}

/// What an event brought about, as plain values.
pub struct StepView {
    pub lines: Seq<LineView>,
    pub action: ActionView,
}

/// The severity at which an answer of this category is logged.
pub open spec fn level_of(category: Category) -> Level {
    match category {
        Category::Success => Level::Info,
        Category::RateLimited => Level::Warn,
        Category::Failure => Level::Error,
    }
}

/// The line that reports an answer: `<index>/<total>: <status> -> <url>`.
pub open spec fn position_line(index: nat, total: nat, status: u16, url: Seq<char>) -> Seq<char> {
    decimal(index) + "/"@ + decimal(total) + ": "@ + status_display(status) + " -> "@ + url
}

/// The items of a fresh queue: every place of the input, in order.
pub open spec fn all_items(total: nat) -> Seq<nat> {
    Seq::new(total, |i: int| i as nat)
}

/// The state of a run.
pub struct Machine {
    pub client: ClientView,
    /// The input, in order. It never changes.
    pub urls: Seq<Seq<char>>,
    /// The items that wait for their turn, next one first.
    pub pending: Seq<nat>,
    pub phase: Phase,
    /// How many items have reached their end.
    pub completed: nat,
    /// All that has happened, oldest first.
    pub history: Seq<Record>,
}

impl Machine {
    /// The state before the first request: every URL is queued in input
    /// order and the first one, if there is one, is taken in hand.
    pub open spec fn initial(client: ClientView, urls: Seq<Seq<char>>) -> Machine {
        Machine {
            client,
            urls,
            pending: all_items(urls.len()),
            phase: Phase::Finished,
            completed: 0,
            history: Seq::empty(),
        }.dispatch()
    }

    /// The number of URLs of the run.
    pub open spec fn total(self) -> nat {
        self.urls.len()
    }

    /// The 1-based index that the next log line carries.
    pub open spec fn index(self) -> nat {
        self.completed + 1
    }

    /// The item that has left the queue and has not reached its end.
    pub open spec fn in_hand(self) -> Option<nat> {
        match self.phase {
            Phase::Awaiting(item) => Some(item),
            Phase::Cooling(item) => Some(item),
            Phase::Aborted(item) => Some(item),
            Phase::Finished => None,
        }
    }

    /// Takes the item at the front in hand, or finishes when none is left.
    pub open spec fn dispatch(self) -> Machine {
        if self.pending.len() == 0 {
            Machine { phase: Phase::Finished, ..self }
        } else {
            Machine {
                phase: Phase::Awaiting(self.pending[0]),
                pending: self.pending.drop_first(),
                ..self
            }
        }
    }

    /// Whether the event can happen in this state.
    pub open spec fn accepts(self, event: EventView) -> bool {
        match (self.phase, event) {
            (Phase::Awaiting(_), EventView::Response(_)) => true,
            (Phase::Awaiting(_), EventView::TransportFailure) => true,
            (Phase::Cooling(_), EventView::CooldownElapsed) => true,
            _ => false,
        }
    }

    /// The history with one more answer for `item`, logged at the index of
    /// this state.
    pub open spec fn answered(self, item: nat, category: Category) -> Seq<Record> {
        self.history.push(Record::Answered { item, position: self.index(), category })
    }

    /// A success or a failure for the item in hand: the item has ended, the
    /// progress counter rises and the next item is taken in hand.
    pub open spec fn end(self, item: nat, category: Category) -> Machine {
        Machine {
            completed: self.completed + 1,
            history: self.answered(item, category),
            ..self
        }.dispatch()
    }

    /// A rate-limited answer for the item in hand: the progress counter
    /// stays and a cooldown begins.
    pub open spec fn cool(self, item: nat) -> Machine {
        Machine {
            phase: Phase::Cooling(item),
            history: self.answered(item, Category::RateLimited),
            ..self
        }
    }

    /// The end of a cooldown: the item goes to the back of the queue and the
    /// item at the front is taken in hand.
    pub open spec fn requeue(self, item: nat) -> Machine {
        Machine {
            pending: self.pending.push(item),
            history: self.history.push(
                Record::Waited { item, seconds: COOLDOWN_SECONDS as nat },
            ).push(Record::Requeued { item }),
            ..self
        }.dispatch()
    }

    /// A transport failure: the run stops where it is.
    pub open spec fn abort(self, item: nat) -> Machine {
        Machine { phase: Phase::Aborted(item), ..self }
    }

    /// The state after an event. An event that the state does not accept
    /// changes nothing.
    pub open spec fn step(self, event: EventView) -> Machine {
        match (self.phase, event) {
            (Phase::Awaiting(item), EventView::Response(outcome)) => {
                if outcome.category() == Category::RateLimited {
                    self.cool(item)
                } else {
                    self.end(item, outcome.category())
                }
            },
            (Phase::Awaiting(item), EventView::TransportFailure) => self.abort(item),
            (Phase::Cooling(item), EventView::CooldownElapsed) => self.requeue(item),
            _ => self,
        }
    }

    /// What the caller has to do in this state.
    pub open spec fn action(self) -> ActionView {
        match self.phase {
            Phase::Awaiting(item) => ActionView::Submit(
                request_for(self.client, self.urls[item as int]),
            ),
            Phase::Cooling(_) => ActionView::Wait(COOLDOWN_SECONDS as nat),
            Phase::Finished => ActionView::Finish,
            Phase::Aborted(_) => ActionView::Abort,
        }
    }

    /// The lines logged for an answer to the request for `item`: the
    /// position line, then the message of the body if it has one, both at the
    /// severity of the answer's category.
    pub open spec fn report(self, item: nat, outcome: OutcomeView) -> Seq<LineView> {
        let level = level_of(outcome.category());
        let first = LineView {
            level,
            text: position_line(self.index(), self.total(), outcome.status, self.urls[item as int]),
        };
        match outcome.message() {
            Some(message) => seq![first, LineView { level, text: message }],
            None => seq![first],
        }
    }

    /// The lines logged when an event arrives.
    pub open spec fn lines(self, event: EventView) -> Seq<LineView> {
        match (self.phase, event) {
            (Phase::Awaiting(item), EventView::Response(outcome)) => self.report(item, outcome),
            _ => Seq::empty(),
        }
    }

    /// What an event brings about: the lines to log and the next action.
    pub open spec fn output(self, event: EventView) -> StepView {
        StepView { lines: self.lines(event), action: self.step(event).action() }
    }
}

} // verus!
