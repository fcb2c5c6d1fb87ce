use vstd::prelude::*;

verus! {

/// The stage of an escrow record's life.
#[derive(Clone, Copy, Debug, PartialEq, Eq, Structural)]
pub enum EscrowState {
    Initialized,
    Funded,
    Assigned,
    Completed,
    Refunded,
}

impl EscrowState {
    /// A terminal state admits no further transition.
    pub open spec fn terminal(self) -> bool {
        self == EscrowState::Completed || self == EscrowState::Refunded
    }

    /// The record holds the bounty in custody in these states.
    pub open spec fn holds_funds(self) -> bool {
        self == EscrowState::Funded || self == EscrowState::Assigned
    }

    pub fn is_holding_funds(&self) -> (r: bool)
        ensures
            r == self.holds_funds(),
    {
        *self == EscrowState::Funded || *self == EscrowState::Assigned
    }

    pub fn is_terminal(&self) -> (r: bool)
        ensures
            r == self.terminal(),
    {
        *self == EscrowState::Completed || *self == EscrowState::Refunded
    }
}

} // verus!
