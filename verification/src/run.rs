//! Whole runs: a machine fed with the replies of the service, one per
//! request, with every cooldown rested in full.

use vstd::prelude::*;
use crate::machine::{EventView, Machine};
use crate::outcome::OutcomeView;
use crate::status::Category;

verus! {

/// How one request ended.
pub enum Reply {
    /// The service answered.
    Answer(OutcomeView),
    /// The request failed below HTTP.
    Failure,
}

impl Reply {
    /// Whether the service answered with a success.
    pub open spec fn is_success(self) -> bool {
        self matches Reply::Answer(outcome) && outcome.category() == Category::Success
    }

    /// Whether the service answered that the caller has to slow down.
    pub open spec fn is_rate_limited(self) -> bool {
        self matches Reply::Answer(outcome) && outcome.category() == Category::RateLimited
    }
}

impl Machine {
    /// The state in which the next request goes out, or the run has ended,
    /// after the request in flight got this reply.
    pub open spec fn settle(self, reply: Reply) -> Machine {
        match reply {
            Reply::Failure => self.step(EventView::TransportFailure),
            Reply::Answer(outcome) => {
                let next = self.step(EventView::Response(outcome));
                if next.phase is Cooling {
                    next.step(EventView::CooldownElapsed)
                } else {
                    next
                }
            },
        }
    }

    /// The state after the requests of the run got these replies, in this
    /// order. Replies that are left when the run has ended are not used.
    pub open spec fn drive(self, replies: Seq<Reply>) -> Machine
        decreases replies.len(),
    {
        if replies.len() == 0 || !(self.phase is Awaiting) {
            self
        } else {
            self.settle(replies[0]).drive(replies.drop_first())
        }
    }
}

} // verus!
