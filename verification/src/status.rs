//! The lifecycle states of a governance proposal.

use vstd::prelude::*;

verus! {

/// The state of a governance proposal, numbered as the chain numbers it:
/// 1 deposit period, 2 voting period, 3 passed, 4 rejected, 5 failed.
#[derive(Clone, Copy, Debug, PartialEq, Eq, Structural)]
pub enum ProposalStatus {
    Deposit,
    Voting,
    Passed,
    Rejected,
    Failed,
}

/// Every status, in the order in which a round of polling visits them.
pub open spec fn all_statuses() -> Seq<ProposalStatus> {
    seq![
        ProposalStatus::Deposit,
        ProposalStatus::Voting,
        ProposalStatus::Passed,
        ProposalStatus::Rejected,
        ProposalStatus::Failed,
    ]
}

/// The number by which the chain's query interface names a status.
pub open spec fn status_code(s: ProposalStatus) -> i32 {
    match s {
        ProposalStatus::Deposit => 1,
        ProposalStatus::Voting => 2,
        ProposalStatus::Passed => 3,
        ProposalStatus::Rejected => 4,
        ProposalStatus::Failed => 5,
    }
}

/// The status's name as it appears in messages.
pub open spec fn status_name(s: ProposalStatus) -> Seq<char> {
    match s {
        ProposalStatus::Deposit => "Deposit"@,
        ProposalStatus::Voting => "Voting"@,
        ProposalStatus::Passed => "Passed"@,
        ProposalStatus::Rejected => "Rejected"@,
        ProposalStatus::Failed => "Failed"@,
    }
}

/// The suffix of the file, named after the chain, that stores the ids seen in a status.
pub open spec fn store_suffix(s: ProposalStatus) -> Seq<char> {
    match s {
        ProposalStatus::Deposit => "_deposit_id"@,
        ProposalStatus::Voting => "_voting_id"@,
        ProposalStatus::Passed => "_passed_id"@,
        ProposalStatus::Rejected => "_rejected_id"@,
        ProposalStatus::Failed => "_failed_id"@,
    }
}

/// The status that a code names, if any.
pub open spec fn status_of_code(code: i32) -> Option<ProposalStatus> {
    if code == 1 {
        Some(ProposalStatus::Deposit)
    } else if code == 2 {
        Some(ProposalStatus::Voting)
    } else if code == 3 {
        Some(ProposalStatus::Passed)
    } else if code == 4 {
        Some(ProposalStatus::Rejected)
    } else if code == 5 {
        Some(ProposalStatus::Failed)
    } else {
        None
    }
}

impl ProposalStatus {
    /// The chain's number for this status.
    pub fn code(&self) -> (c: i32)
        ensures
            c == status_code(*self),
    {
        match self {
            ProposalStatus::Deposit => 1,
            ProposalStatus::Voting => 2,
            ProposalStatus::Passed => 3,
            ProposalStatus::Rejected => 4,
            ProposalStatus::Failed => 5,
        }
    }

    /// The status with the given number, or `None` for a number outside 1..=5.
    pub fn from_code(code: i32) -> (s: Option<ProposalStatus>)
        ensures
            s == status_of_code(code),
    {
        if code == 1 {
            Some(ProposalStatus::Deposit)
        } else if code == 2 {
            Some(ProposalStatus::Voting)
        } else if code == 3 {
            Some(ProposalStatus::Passed)
        } else if code == 4 {
            Some(ProposalStatus::Rejected)
        } else if code == 5 {
            Some(ProposalStatus::Failed)
        } else {
            None
        }
    }

    /// All statuses in polling order: deposit, voting, passed, rejected, failed.
    pub fn all() -> (v: Vec<ProposalStatus>)
        ensures
            v@ == all_statuses(),
    {
        let v = vec![
            ProposalStatus::Deposit,
            ProposalStatus::Voting,
            ProposalStatus::Passed,
            ProposalStatus::Rejected,
            ProposalStatus::Failed,
        ];
        assert(v@ =~= all_statuses());
        v
    }

    /// The status's name, as messages print it.
    pub fn name(&self) -> (s: &'static str)
        ensures
            s@ == status_name(*self),
    {
        match self {
            ProposalStatus::Deposit => "Deposit",
            ProposalStatus::Voting => "Voting",
            ProposalStatus::Passed => "Passed",
            ProposalStatus::Rejected => "Rejected",
            ProposalStatus::Failed => "Failed",
        }
    }

    /// The suffix of the id store's file name for this status.
    pub fn store_suffix(&self) -> (s: &'static str)
        ensures
            s@ == store_suffix(*self),
    {
        match self {
            ProposalStatus::Deposit => "_deposit_id",
            ProposalStatus::Voting => "_voting_id",
            ProposalStatus::Passed => "_passed_id",
            ProposalStatus::Rejected => "_rejected_id",
            ProposalStatus::Failed => "_failed_id",
        }
    }
}

/// Decoding a status's number gives the status back, and the numbers are 1 to 5.
pub proof fn lemma_code_round_trip(s: ProposalStatus)
    ensures
        status_of_code(status_code(s)) == Some(s),
        1 <= status_code(s) <= 5,
{
}

} // verus!
