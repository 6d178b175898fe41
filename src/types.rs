use vstd::prelude::*;

verus! {

/// Identity of an account holder (a member, the admin or any other caller).
pub type Principal = u64;

/// Identity of the fungible asset in which contributions are made.
pub type AssetId = u64;

/// The fields of the persisted scheme record.
#[derive(Clone, Copy, Debug, PartialEq, Eq, Structural)]
pub enum DataKey {
    Admin,
    Members,
    ContributionAmt,
    Token,
    CurrentRound,
    PaidMembers,
    RoundDuration,
    RoundDeadline,
    Defaulters,
}

impl DataKey {
    /// The fields that round transitions rewrite; all others are fixed once
    /// the scheme is initialized.
    pub open spec fn mutable_spec(self) -> bool {
        ||| self is CurrentRound
        ||| self is PaidMembers
        ||| self is RoundDeadline
        ||| self is Defaulters
    }

    pub fn is_mutable(&self) -> (r: bool)
        ensures
            r == self.mutable_spec(),
    {
        match self {
            DataKey::CurrentRound | DataKey::PaidMembers | DataKey::RoundDeadline
            | DataKey::Defaulters => true,
            _ => false,
        }
    }
}

/// Why an operation of the engine was rejected. A rejected operation leaves
/// the scheme unchanged and moves no funds. Failures of the transfer service
/// itself are reported by that service and abort the host's operation.
#[derive(Clone, Copy, Debug, PartialEq, Eq, Structural)]
pub enum RoscaError {
    AlreadyInitialized,
    NotInitialized,
    Unauthorized,
    NotAMember,
    AlreadyContributed,
    DeadlinePassed,
    DeadlineNotYetPassed,
}

/// One side of a transfer: the scheme's own custody account, or a principal.
#[derive(Clone, Copy, Debug, PartialEq, Eq, Hash, Structural)]
pub enum Account {
    Custody,
    Party(Principal),
}

/// A movement of `amount` units of `asset` that the host must perform.
#[derive(Clone, Copy, Debug, PartialEq, Eq, Structural)]
pub struct Transfer {
    pub asset: AssetId,
    pub from: Account,
    pub to: Account,
    pub amount: i128,
}

} // verus!
