//! The decision a vote makes, given the state of its post's tally.
use vstd::prelude::*;

verus! {

/// What a cast vote did to its tally.
#[derive(PartialEq, Eq, Structural, Clone, Copy, Debug)]
pub struct TallyResult {
    /// Votes of the kind on the post after this one.
    pub new_count: u64,
    /// Votes of the kind that trigger its action.
    pub quorum: u64,
    /// Whether this vote reached the quorum and fires the action.
    pub triggered: bool,
}

/// How the ledger changes for a vote.
#[derive(PartialEq, Eq, Structural, Clone, Copy, Debug)]
pub enum TallyStep {
    /// The voter had voted already: their vote is withdrawn.
    Retract,
    /// The vote reaches the quorum: the post's votes of the kind are purged.
    Trigger,
    /// The vote is recorded.
    Record,
}

/// The step and result of a vote on a tally of `count` votes, from a voter
/// who had voted there already exactly when `already_voted`. A vote that
/// brings the tally to the quorum or past it triggers, so that a quorum of
/// zero or one fires on the first vote.
pub open spec fn tally_decision(count: u64, already_voted: bool, quorum: u64) -> (TallyStep, TallyResult) {
    if already_voted {
        (TallyStep::Retract, TallyResult { new_count: (count - 1) as u64, quorum, triggered: false })
    } else if count + 1 >= quorum {
        (TallyStep::Trigger, TallyResult { new_count: quorum, quorum, triggered: true })
    } else {
        (TallyStep::Record, TallyResult { new_count: (count + 1) as u64, quorum, triggered: false })
    }
}

/// Decides a vote: `count` votes of its kind stand on the post, and
/// `already_voted` says whether one of them is the voter's.
pub fn decide(count: u64, already_voted: bool, quorum: u64) -> (r: (TallyStep, TallyResult))
    requires
        already_voted ==> count >= 1,
    ensures
        r == tally_decision(count, already_voted, quorum),
{
    if already_voted {
        (TallyStep::Retract, TallyResult { new_count: count - 1, quorum, triggered: false })
    } else if count >= quorum || count + 1 == quorum {
        (TallyStep::Trigger, TallyResult { new_count: quorum, quorum, triggered: true })
    } else {
        (TallyStep::Record, TallyResult { new_count: count + 1, quorum, triggered: false })
    }
}

} // verus!
