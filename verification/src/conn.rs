use vstd::prelude::*;

verus! {

/// The phase a send is in.
#[derive(Clone, Copy, Debug, PartialEq, Eq, Structural)]
pub enum SendPhase {
    /// No usable connection: one must be established or re-established.
    Connecting,
    /// A live connection is up and the frame may be written.
    Writing,
    /// The frame was written.
    Succeeded,
    /// The retry budget is exhausted: the send failed permanently.
    Failed,
}

/// What the caller must do next to advance a send.
#[derive(Clone, Copy, Debug, PartialEq, Eq, Structural)]
pub enum ConnAction {
    /// Establish the TLS connection to the configured gateway.
    Connect,
    /// Write the frame to the live connection.
    Write,
    /// The send is complete.
    ReportSuccess,
    /// The send failed permanently and the caller must be told.
    ReportFailure,
}

/// The outcome of the action the caller performed.
#[derive(Clone, Copy, Debug, PartialEq, Eq, Structural)]
pub enum ConnEvent {
    ConnectSucceeded,
    ConnectFailed,
    WriteSucceeded,
    WriteFailed,
}

/// Drives one send over a single TLS connection: connect, write, and on any
/// write or reconnect failure discard the connection and start a new cycle,
/// under a shared budget of three cycles. The caller performs the I/O that
/// `next_action` asks for and reports each outcome through `step`; the
/// manager never asks for another write once the budget is exhausted.
pub struct ConnectionManager {
    pub phase: SendPhase,
    pub budget: u8,
}

impl ConnectionManager {
    /// A manager never holds more than the initial budget of three cycles.
    pub open spec fn wf(self) -> bool {
        self.budget <= 3
    }

    /// One failed write/reconnect cycle: the budget shrinks by one; with
    /// budget remaining the connection is rebuilt, otherwise the send is over.
    pub open spec fn spec_fail_cycle(self) -> ConnectionManager {
        if self.budget <= 1 {
            ConnectionManager { phase: SendPhase::Failed, budget: 0 }
        } else {
            ConnectionManager { phase: SendPhase::Connecting, budget: (self.budget - 1) as u8 }
        }
    }

    /// The state after the caller reports `event`. A terminal phase, or an
    /// event that does not answer the phase's action, leaves the state
    /// unchanged.
    pub open spec fn spec_step(self, event: ConnEvent) -> ConnectionManager {
        match self.phase {
            SendPhase::Connecting => match event {
                ConnEvent::ConnectSucceeded => ConnectionManager {
                    phase: SendPhase::Writing,
                    budget: self.budget,
                },
                ConnEvent::ConnectFailed => self.spec_fail_cycle(),
                _ => self,
            },
            SendPhase::Writing => match event {
                ConnEvent::WriteSucceeded => ConnectionManager {
                    phase: SendPhase::Succeeded,
                    budget: self.budget,
                },
                ConnEvent::WriteFailed => self.spec_fail_cycle(),
                _ => self,
            },
            _ => self,
        }
    }

    /// The action each phase calls for.
    pub open spec fn spec_action(self) -> ConnAction {
        match self.phase {
            SendPhase::Connecting => ConnAction::Connect,
            SendPhase::Writing => ConnAction::Write,
            SendPhase::Succeeded => ConnAction::ReportSuccess,
            SendPhase::Failed => ConnAction::ReportFailure,
        }
    }

    /// A terminal manager stays terminal: once a send has succeeded or
    /// failed, no event makes it ask for another connect or write.
    pub proof fn lemma_terminal_phase_is_final(self, event: ConnEvent)
        requires
            self.phase == SendPhase::Succeeded || self.phase == SendPhase::Failed,
        ensures
            self.spec_step(event) == self,
    {
    }

    /// Every failed write or failed reconnect either ends the send or
    /// strictly shrinks the budget, so a send performs at most as many
    /// write/reconnect cycles as the budget it started with.
    pub proof fn lemma_failure_consumes_budget(self, event: ConnEvent)
        requires
            (self.phase == SendPhase::Connecting && event == ConnEvent::ConnectFailed) || (
            self.phase == SendPhase::Writing && event == ConnEvent::WriteFailed),
        ensures
            self.spec_step(event).phase == SendPhase::Failed || self.spec_step(event).budget
                < self.budget,
            self.spec_step(event).budget <= self.budget,
    {
    }

    /// A fresh manager: no connection yet, and a budget of three cycles.
    pub fn new() -> (m: ConnectionManager)
        ensures
            m == (ConnectionManager { phase: SendPhase::Connecting, budget: 3u8 }),
            m.wf(),
    {
        ConnectionManager { phase: SendPhase::Connecting, budget: 3 }
    }

    /// What the caller must do next.
    pub fn next_action(&self) -> (a: ConnAction)
        ensures
            a == self.spec_action(),
    {
        match self.phase {
            SendPhase::Connecting => ConnAction::Connect,
            SendPhase::Writing => ConnAction::Write,
            SendPhase::Succeeded => ConnAction::ReportSuccess,
            SendPhase::Failed => ConnAction::ReportFailure,
        }
    }

    /// Advances the send by the reported outcome.
    pub fn step(&mut self, event: ConnEvent)
        ensures
            *final(self) == old(self).spec_step(event),
            old(self).wf() ==> final(self).wf(),
    {
        match self.phase {
            SendPhase::Connecting => {
                match event {
                    ConnEvent::ConnectSucceeded => {
                        self.phase = SendPhase::Writing;
                    },
                    ConnEvent::ConnectFailed => {
                        self.fail_cycle();
                    },
                    _ => {},
                }
            },
            SendPhase::Writing => {
                match event {
                    ConnEvent::WriteSucceeded => {
                        self.phase = SendPhase::Succeeded;
                    },
                    ConnEvent::WriteFailed => {
                        self.fail_cycle();
                    },
                    _ => {},
                }
            },
            _ => {},
        }
    }

    /// Ends one failed write/reconnect cycle.
    fn fail_cycle(&mut self)
        ensures
            *final(self) == old(self).spec_fail_cycle(),
    {
        if self.budget <= 1 {
            self.phase = SendPhase::Failed;
            self.budget = 0;
        } else {
            self.phase = SendPhase::Connecting;
            self.budget = self.budget - 1;
        }
    }
}

} // verus!
