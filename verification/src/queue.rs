//! The submission queue: the executable state of a run.
//!
//! The caller owns the loop. It asks the queue for the next [`Action`],
//! performs it, and reports what came of it as an [`Event`]:
//!
//! * `Submit`: send the request, then report `Response` with the answer, or
//!   `TransportFailure` when the request failed below HTTP;
//! * `Wait`: rest for the given seconds, then report `CooldownElapsed`;
//! * `Finish`: every URL has reached its end;
//! * `Abort`: the run has stopped on a transport failure.
//!
//! An item that is rate-limited goes back to the end of the queue after its
//! cooldown, as often as the service asks for it: there is no limit on the
//! number of attempts, so a run ends only when the service lets it.

use std::collections::VecDeque;
use vstd::prelude::*;
use vstd::string::*;
use crate::client::{Client, Request};
use crate::level::Level;
use crate::machine::{
    all_items, level_of, ActionView, EventView, LineView, Machine, Phase, Record, StepView,
    COOLDOWN_SECONDS,
};
use crate::outcome::Outcome;
use crate::safety::{lemma_initial_inv, lemma_step_keeps_inv};
use crate::status::Category;
use crate::text::format_decimal;

verus! {

/// One line for the log.
#[derive(Debug, PartialEq, Eq)]
pub struct LogLine {
    pub level: Level,
    pub text: String,
}

impl View for LogLine {
    type V = LineView;

    open spec fn view(&self) -> LineView {
        LineView { level: self.level, text: self.text@ }
    }
}

impl DeepView for LogLine {
    type V = LineView;

    open spec fn deep_view(&self) -> LineView {
        self@
    }
}

/// What the caller reports to the queue.
pub enum Event {
    /// The request in flight was answered.
    Response(Outcome),
    /// The request in flight failed below HTTP: no connection, or a body
    /// that could not be decoded.
    TransportFailure,
    /// The cooldown is over.
    CooldownElapsed,
}

impl View for Event {
    type V = EventView;

    open spec fn view(&self) -> EventView {
        match self {
            Event::Response(outcome) => EventView::Response(outcome@),
            Event::TransportFailure => EventView::TransportFailure,
            Event::CooldownElapsed => EventView::CooldownElapsed,
        }
    }
}

/// What the caller has to do next.
#[derive(Debug, PartialEq, Eq)]
pub enum Action {
    /// Send this request and report its answer.
    Submit(Request),
    /// Rest for this many seconds and report back.
    Wait(u64),
    /// Nothing is left to do.
    Finish,
    /// Stop with a failure.
    Abort,
}

impl View for Action {
    type V = ActionView;

    open spec fn view(&self) -> ActionView {
        match self {
            Action::Submit(request) => ActionView::Submit(request@),
            Action::Wait(seconds) => ActionView::Wait(*seconds as nat),
            Action::Finish => ActionView::Finish,
            Action::Abort => ActionView::Abort,
        }
    }
}

/// What an event brought about: the lines to log, in order, and the next
/// action.
#[derive(Debug, PartialEq, Eq)]
pub struct Step {
    pub lines: Vec<LogLine>,
    pub action: Action,
}

impl View for Step {
    type V = StepView;

    open spec fn view(&self) -> StepView {
        StepView { lines: self.lines.deep_view(), action: self.action@ }
    }
}

/// The severity at which an answer of this category is logged.
pub fn level_for(category: Category) -> (level: Level)
    ensures
        level == level_of(category),
{
    match category {
        Category::Success => Level::Info,
        Category::RateLimited => Level::Warn,
        Category::Failure => Level::Error,
    }
}

#[derive(Clone, Copy)]
enum Slot {
    Awaiting(usize),
    Cooling(usize),
    Finished,
    Aborted(usize),
}

impl View for Slot {
    type V = Phase;

    closed spec fn view(&self) -> Phase {
        match self {
            Slot::Awaiting(item) => Phase::Awaiting(*item as nat),
            Slot::Cooling(item) => Phase::Cooling(*item as nat),
            Slot::Finished => Phase::Finished,
            Slot::Aborted(item) => Phase::Aborted(*item as nat),
        }
    }
}

spec fn items(pending: Seq<usize>) -> Seq<nat> {
    Seq::new(pending.len(), |i: int| pending[i] as nat)
}

/// The URLs of a run with their progress.
pub struct Queue {
    client: Client,
    urls: Vec<String>,
    pending: VecDeque<usize>,
    slot: Slot,
    completed: usize,
    history: Ghost<Seq<Record>>,
}

impl View for Queue {
    type V = Machine;

    closed spec fn view(&self) -> Machine {
        Machine {
            client: self.client@,
            urls: self.urls.deep_view(),
            pending: items(self.pending@),
            phase: self.slot@,
            completed: self.completed as nat,
            history: self.history@,
        }
    }
}

impl Queue {
    /// Whether the queue is in a state that a run can reach.
    pub open spec fn wf(&self) -> bool {
        self@.inv()
    }

    /// The queue of a run over `urls`, in this order, with the first request
    /// ready to go out. An empty list gives a queue that has finished.
    pub fn new(client: Client, urls: Vec<String>) -> (queue: Queue)
        ensures
            queue.wf(),
            queue@ == Machine::initial(client@, urls.deep_view()),
    {
        let mut pending: VecDeque<usize> = VecDeque::new();
        let mut i: usize = 0;
        while i < urls.len()
            invariant
                i <= urls.len(),
                pending@.len() == i,
                forall|k: int| 0 <= k < i ==> pending@[k] == k,
            decreases urls.len() - i,
        {
            pending.push_back(i);
            i += 1;
        }
        let mut queue = Queue {
            client,
            urls,
            pending,
            slot: Slot::Finished,
            completed: 0,
            history: Ghost(Seq::empty()),
        };
        assert(queue@.pending =~= all_items(queue@.total()));
        queue.dispatch();
        proof {
            lemma_initial_inv(client@, urls.deep_view());
        }
        queue
    }

    /// Takes the item at the front in hand, or finishes when none is left.
    fn dispatch(&mut self)
        ensures
            final(self)@ == old(self)@.dispatch(),
    {
        let ghost before = self.pending@;
        match self.pending.pop_front() {
            Some(item) => {
                self.slot = Slot::Awaiting(item);
                assert(items(self.pending@) =~= items(before).drop_first());
            },
            None => {
                self.slot = Slot::Finished;
            },
        }
    }

    /// The number of URLs of the run.
    pub fn total(&self) -> (total: usize)
        ensures
            total == self@.total(),
    {
        self.urls.len()
    }

    /// How many URLs have reached their end, with a success or a failure.
    pub fn completed(&self) -> (completed: usize)
        requires
            self.wf(),
        ensures
            completed == self@.completed,
            completed <= self@.total(),
    {
        self.completed
    }

    /// How many URLs wait for their turn, the one in hand not counted.
    pub fn pending(&self) -> (pending: usize)
        ensures
            pending == self@.pending.len(),
    {
        self.pending.len()
    }

    /// Whether every URL has reached its end.
    pub fn is_finished(&self) -> (finished: bool)
        ensures
            finished == (self@.phase is Finished),
    {
        match self.slot {
            Slot::Finished => true,
            _ => false,
        }
    }

    /// Whether the run has stopped on a transport failure.
    pub fn is_aborted(&self) -> (aborted: bool)
        ensures
            aborted == (self@.phase is Aborted),
    {
        match self.slot {
            Slot::Aborted(_) => true,
            _ => false,
        }
    }

    /// What the caller has to do now.
    pub fn action(&self) -> (action: Action)
        requires
            self.wf(),
        ensures
            action@ == self@.action(),
    {
        match self.slot {
            Slot::Awaiting(item) => Action::Submit(self.client.request(self.urls[item].as_str())),
            Slot::Cooling(_) => Action::Wait(COOLDOWN_SECONDS),
            Slot::Finished => Action::Finish,
            Slot::Aborted(_) => Action::Abort,
        }
    }

    /// The lines for an answer to the request for `item`.
    fn report(&self, item: usize, outcome: &Outcome) -> (lines: Vec<LogLine>)
        requires
            self.wf(),
            self.slot == Slot::Awaiting(item),
        ensures
            lines.deep_view() == self@.report(item as nat, outcome@),
    {
        let level = level_for(outcome.category());
        assert(self@.in_hand() is Some && self@.total() == self.urls.len());
        let mut text = format_decimal(self.completed + 1);
        text.append("/");
        text.append(format_decimal(self.urls.len()).as_str());
        text.append(": ");
        text.append(outcome.status().text().as_str());
        text.append(" -> ");
        text.append(self.urls[item].as_str());
        let mut lines: Vec<LogLine> = Vec::new();
        lines.push(LogLine { level, text });
        match outcome.message() {
            Some(message) => {
                lines.push(LogLine { level, text: message.clone() });
            },
            None => {},
        }
        assert(lines.deep_view() =~= self@.report(item as nat, outcome@));
        lines
    }

    /// Takes in what happened and says what follows.
    ///
    /// * An answer to the request in flight is logged. A success or a
    ///   failure ends the item: the progress counter rises and the next item
    ///   is taken in hand. A rate-limited answer leaves the counter as it is
    ///   and asks for a cooldown.
    /// * A transport failure stops the run; what still waits stays in the
    ///   queue.
    /// * After a cooldown the item goes to the back of the queue and the item
    ///   at the front is taken in hand.
    ///
    /// An event that does not fit the state changes nothing and logs nothing:
    /// the action that is due is returned once more.
    pub fn advance(&mut self, event: Event) -> (step: Step)
        requires
            old(self).wf(),
        ensures
            final(self).wf(),
            final(self)@ == old(self)@.step(event@),
            step@ == old(self)@.output(event@),
    {
        proof {
            lemma_step_keeps_inv(self@, event@);
        }
        let mut lines: Vec<LogLine> = Vec::new();
        assert(lines.deep_view() =~= Seq::<LineView>::empty());
        match (self.slot, event) {
            (Slot::Awaiting(item), Event::Response(outcome)) => {
                lines = self.report(item, &outcome);
                assert(self@.in_hand() is Some && self@.total() == self.urls.len());
                let category = outcome.category();
                self.history = Ghost(
                    self.history@.push(
                        Record::Answered {
                            item: item as nat,
                            position: (self.completed + 1) as nat,
                            category,
                        },
                    ),
                );
                match category {
                    Category::RateLimited => {
                        self.slot = Slot::Cooling(item);
                    },
                    _ => {
                        self.completed = self.completed + 1;
                        self.dispatch();
                    },
                }
            },
            (Slot::Awaiting(item), Event::TransportFailure) => {
                self.slot = Slot::Aborted(item);
            },
            (Slot::Cooling(item), Event::CooldownElapsed) => {
                let ghost before = self.pending@;
                self.pending.push_back(item);
                assert(items(self.pending@) =~= items(before).push(item as nat));
                self.history = Ghost(
                    self.history@.push(
                        Record::Waited { item: item as nat, seconds: COOLDOWN_SECONDS as nat },
                    ).push(Record::Requeued { item: item as nat }),
                );
                self.dispatch();
            },
            _ => {},
        }
        let action = self.action();
        Step { lines, action }
    }
}

} // verus!
