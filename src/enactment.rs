//! One scan of the enactment loop: which entries are due, what to ask of
//! the chat platform for each, and what the store keeps afterwards.
use vstd::prelude::*;
use crate::schedule::{without_id, ScheduleEntry, ScheduleStore};

verus! {

/// How the attempt to enact an entry ended.
#[derive(PartialEq, Eq, Structural, Clone, Copy, Debug)]
pub enum EnactOutcome {
    /// The member is restricted: the entry is done.
    Restricted,
    /// The entry belongs to another guild than the one scanned.
    ScopeMismatch,
    /// The member could not be found in the guild.
    MemberNotFound,
    /// The platform refused or failed the restriction.
    CapabilityFailed,
}

/// What to ask of the platform to enact an entry.
#[derive(PartialEq, Eq, Structural, Clone, Copy, Debug)]
pub struct Restriction {
    /// The entry being enacted.
    pub entry_id: u64,
    /// The member to restrict.
    pub victim_id: u64,
    /// Until when, in seconds since the Unix epoch.
    pub until: i64,
}

/// What the store holds after `outcome` for the entry `entry_id`: only a
/// successful restriction removes the entry.
pub open spec fn settle_one(s: Seq<ScheduleEntry>, entry_id: u64, outcome: EnactOutcome) -> Seq<
    ScheduleEntry,
> {
    if outcome == EnactOutcome::Restricted {
        without_id(s, entry_id)
    } else {
        s
    }
}

/// What the store holds after each entry of `due` ended as the outcome at
/// the same place in `outcomes`, taken in order.
pub open spec fn settle_all(
    s: Seq<ScheduleEntry>,
    due: Seq<ScheduleEntry>,
    outcomes: Seq<EnactOutcome>,
) -> Seq<ScheduleEntry>
    decreases due.len(),
{
    if due.len() == 0 || outcomes.len() == 0 {
        s
    } else {
        settle_one(
            settle_all(s, due.drop_last(), outcomes.drop_last()),
            due.last().id,
            outcomes.last(),
        )
    }
}

/// The restriction that enacts `entry` while scanning `active_guild`; an
/// entry of another guild is not enacted.
pub fn restriction_for(entry: &ScheduleEntry, active_guild: u64) -> (r: Result<
    Restriction,
    EnactOutcome,
>)
    ensures
        entry.guild_id != active_guild ==> r == Err::<Restriction, EnactOutcome>(
            EnactOutcome::ScopeMismatch,
        ),
        entry.guild_id == active_guild ==> r == Ok::<Restriction, EnactOutcome>(
            Restriction { entry_id: entry.id, victim_id: entry.victim_id, until: entry.ends_at },
        ),
{
    if entry.guild_id != active_guild {
        Err(EnactOutcome::ScopeMismatch)
    } else {
        Ok(Restriction { entry_id: entry.id, victim_id: entry.victim_id, until: entry.ends_at })
    }
}

impl ScheduleStore {
    /// Records how the attempt on `entry_id` ended: the entry is removed
    /// after a successful restriction and kept, unchanged, otherwise.
    pub fn settle(&mut self, entry_id: u64, outcome: EnactOutcome)
        requires
            old(self).wf(),
        ensures
            final(self).wf(),
            final(self)@ == settle_one(old(self)@, entry_id, outcome),
            final(self).next_id() == old(self).next_id(),
    {
        if outcome == EnactOutcome::Restricted {
            self.remove(entry_id);
        }
    }

    /// Records a whole scan: `outcomes[i]` is how the attempt on `due[i]`
    /// ended. Every entry is settled; one failure stops nothing.
    pub fn settle_scan(&mut self, due: &Vec<ScheduleEntry>, outcomes: &Vec<EnactOutcome>)
        requires
            old(self).wf(),
            due@.len() == outcomes@.len(),
        ensures
            final(self).wf(),
            final(self)@ == settle_all(old(self)@, due@, outcomes@),
            final(self).next_id() == old(self).next_id(),
    {
        let ghost start = self@;
        let mut i: usize = 0;
        proof {
            assert(due@.take(0).len() == 0);
        }
        while i < due.len()
            invariant
                self.wf(),
                self.next_id() == old(self).next_id(),
                due@.len() == outcomes@.len(),
                i <= due@.len(),
                self@ == settle_all(start, due@.take(i as int), outcomes@.take(i as int)),
            decreases due@.len() - i,
        {
            proof {
                assert(due@.take(i + 1).drop_last() =~= due@.take(i as int));
                assert(outcomes@.take(i + 1).drop_last() =~= outcomes@.take(i as int));
            }
            self.settle(due[i].id, outcomes[i]);
            i = i + 1;
        }
        proof {
            assert(due@.take(i as int) =~= due@);
            assert(outcomes@.take(i as int) =~= outcomes@);
        }
    }
}

} // verus!
