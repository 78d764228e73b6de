//! The status client: one event at a time, held until the status bus has it.

use crate::hermes::status_command;
use crate::settings::RECONNECT_SECONDS;
use vstd::prelude::*;

verus! {

/// What the status client holds: the event that it is about to send, if
/// any, and whether it waits before it tries again.
#[derive(Debug)]
pub struct StatusLink {
    /// The identifier of a timer and the word for the outcome of its command.
    pub event: Option<(String, String)>,
    /// Whether the last try to send the event failed and the wait is not over.
    pub waiting: bool,
}

/// What the status client is to do next.
#[derive(Debug)]
pub enum Step {
    /// Take the next event from the queue.
    Receive,
    /// Connect, if need be, and send this command.
    Send(String),
    /// Close the connection and wait for this many seconds.
    Sleep(u64),
}

/// What a step of the status client is, as mathematical values.
pub ghost enum StepView {
    Receive,
    Send(Seq<char>),
    Sleep(nat),
}

impl View for Step {
    type V = StepView;

    open spec fn view(&self) -> StepView {
        match self {
            Step::Receive => StepView::Receive,
            Step::Send(command) => StepView::Send(command@),
            Step::Sleep(seconds) => StepView::Sleep(*seconds as nat),
        }
    }
}

impl StatusLink {
    /// The event in hand, as text.
    pub open spec fn held(self) -> Option<(Seq<char>, Seq<char>)> {
        match self.event {
            Some(event) => Some((event.0@, event.1@)),
            None => None,
        }
    }

    /// No event is in hand.
    pub open spec fn is_idle(self) -> bool {
        self.event is None
    }

    /// An event is in hand and is to be sent.
    pub open spec fn is_sending(self) -> bool {
        self.event is Some && !self.waiting
    }

    /// An event is in hand, and the wait after a failure is not over.
    pub open spec fn is_waiting(self) -> bool {
        self.event is Some && self.waiting
    }

    /// What the client is to do in this state, writing to the given table:
    /// without an event, take one from the queue; with one, send it, or
    /// wait first where the last try failed.
    pub open spec fn next(self, table: Seq<char>) -> StepView {
        match self.event {
            None => StepView::Receive,
            Some(event) => if self.waiting {
                StepView::Sleep(RECONNECT_SECONDS as nat)
            } else {
                StepView::Send(
                    "set data('timer_"@ + event.0@ + "', '"@ + event.1@ + "') in "@ + table + ";"@,
                )
            },
        }
    }

    /// A client without an event in hand.
    pub fn new() -> (link: StatusLink)
        ensures
            link.is_idle(),
            !link.waiting,
    {
        StatusLink { event: None, waiting: false }
    }

    /// What the client is to do next.
    pub fn step(&self, table: &str) -> (step: Step)
        ensures
            step@ == self.next(table@),
    {
        match &self.event {
            None => Step::Receive,
            Some(event) => if self.waiting {
                Step::Sleep(RECONNECT_SECONDS)
            } else {
                Step::Send(status_command(table, event.0.as_str(), event.1.as_str()))
            },
        }
    }

    /// Takes an event from the queue in hand, to be sent.
    pub fn received(&mut self, id: String, outcome: String)
        requires
            old(self).is_idle(),
        ensures
            final(self).is_sending(),
            final(self).held() == Some((id@, outcome@)),
    {
        self.event = Some((id, outcome));
        self.waiting = false;
    }

    /// Takes note of how the try to send the event ended. After a success
    /// the client has no event in hand. After a failure it keeps the event
    /// and waits.
    pub fn sent(&mut self, delivered: bool)
        requires
            old(self).is_sending(),
        ensures
            delivered ==> final(self).is_idle() && !final(self).waiting,
            !delivered ==> final(self).is_waiting() && final(self).held() == old(self).held(),
    {
        if delivered {
            self.event = None;
        } else {
            self.waiting = true;
        }
    }

    /// Takes note that the wait is over: the event in hand is to be sent again.
    pub fn woke(&mut self)
        requires
            old(self).is_waiting(),
        ensures
            final(self).is_sending(),
            final(self).held() == old(self).held(),
    {
        self.waiting = false;
    }
}

} // verus!
