//! Properties of the moderation engine that hold over every input, stated
//! over the models that the operations' contracts use.
use vstd::prelude::*;
use crate::ledger::{
    cast_outcome, lemma_count_insert, lemma_count_purged, lemma_count_remove, lemma_counted,
    tally_count, VoteKey,
};
use crate::enactment::{settle_all, EnactOutcome};
use crate::schedule::{due_in, is_due, without_id, ScheduleEntry};
use crate::tally::TallyResult;
use crate::vote::VoteType;

verus! {

/// Casting the same vote twice in a row restores the ledger and the count,
/// as long as neither cast reaches the quorum: the first cast records the
/// vote (one more) or withdraws it (one fewer), and the second undoes it.
pub proof fn toggle_restores_ledger(
    s: Set<VoteKey>,
    post: u64,
    token: Seq<char>,
    kind: VoteType,
    quorum: u64,
)
    requires
        s.finite(),
        tally_count(s, post, kind) < quorum,
        !cast_outcome(s, post, token, kind, quorum).1.triggered,
    ensures
        ({
            let (s1, r1) = cast_outcome(s, post, token, kind, quorum);
            let (s2, r2) = cast_outcome(s1, post, token, kind, quorum);
            &&& !s.contains((post, token, kind)) ==> r1.new_count == tally_count(s, post, kind) + 1
            &&& s.contains((post, token, kind)) ==> r1.new_count == tally_count(s, post, kind) - 1
            &&& !r2.triggered
            &&& r2.new_count == tally_count(s, post, kind)
            &&& s2 == s
        }),
{
    let key = (post, token, kind);
    let (s1, r1) = cast_outcome(s, post, token, kind, quorum);
    if s.contains(key) {
        lemma_count_remove(s, key, post, kind);
        assert(s1 == s.remove(key));
        assert(s1.insert(key) =~= s);
    } else {
        lemma_count_insert(s, key, post, kind);
        assert(s1 == s.insert(key));
        assert(s1.remove(key) =~= s);
    }
}

/// With a quorum of three and no vote of the kind standing on the post,
/// three distinct voters who cast once each see the counts one, two and
/// three; only the third cast triggers, and it leaves no vote of the kind on
/// the post.
pub proof fn third_distinct_vote_triggers(
    s: Set<VoteKey>,
    post: u64,
    kind: VoteType,
    a: Seq<char>,
    b: Seq<char>,
    c: Seq<char>,
)
    requires
        s.finite(),
        tally_count(s, post, kind) == 0,
        a != b,
        b != c,
        a != c,
    ensures
        ({
            let (s1, r1) = cast_outcome(s, post, a, kind, 3);
            let (s2, r2) = cast_outcome(s1, post, b, kind, 3);
            let (s3, r3) = cast_outcome(s2, post, c, kind, 3);
            &&& r1 == (TallyResult { new_count: 1, quorum: 3, triggered: false })
            &&& r2 == (TallyResult { new_count: 2, quorum: 3, triggered: false })
            &&& r3 == (TallyResult { new_count: 3, quorum: 3, triggered: true })
            &&& tally_count(s3, post, kind) == 0
        }),
{
    let ka = (post, a, kind);
    let kb = (post, b, kind);
    let kc = (post, c, kind);
    if s.contains(ka) {
        lemma_counted(s, ka);
    }
    if s.contains(kb) {
        lemma_counted(s, kb);
    }
    if s.contains(kc) {
        lemma_counted(s, kc);
    }
    let s1 = s.insert(ka);
    lemma_count_insert(s, ka, post, kind);
    assert(cast_outcome(s, post, a, kind, 3).0 == s1);
    let s2 = s1.insert(kb);
    lemma_count_insert(s1, kb, post, kind);
    assert(cast_outcome(s1, post, b, kind, 3).0 == s2);
    let (s3, r3) = cast_outcome(s2, post, c, kind, 3);
    lemma_count_purged(s2, post, kind);
}

/// With a quorum of zero or one, a voter's first vote of a kind on a post
/// fires the action at once.
pub proof fn small_quorum_fires_on_first_vote(
    s: Set<VoteKey>,
    post: u64,
    token: Seq<char>,
    kind: VoteType,
    quorum: u64,
)
    requires
        quorum <= 1,
        !s.contains((post, token, kind)),
    ensures
        cast_outcome(s, post, token, kind, quorum).1.triggered,
{
}

/// What is left after a scan in which every attempt succeeded came from
/// the store before it, and shares its identifier with no entry of the scan.
proof fn lemma_settled_members(
    s: Seq<ScheduleEntry>,
    due: Seq<ScheduleEntry>,
    outcomes: Seq<EnactOutcome>,
    e: ScheduleEntry,
)
    requires
        due.len() == outcomes.len(),
        forall|j: int| 0 <= j < outcomes.len() ==> outcomes[j] == EnactOutcome::Restricted,
        settle_all(s, due, outcomes).contains(e),
    ensures
        s.contains(e),
        forall|j: int| 0 <= j < due.len() ==> due[j].id != e.id,
    decreases due.len(),
{
    if due.len() > 0 {
        let prev = settle_all(s, due.drop_last(), outcomes.drop_last());
        let id = due.last().id;
        assert(outcomes.last() == EnactOutcome::Restricted);
        assert(settle_all(s, due, outcomes) == without_id(prev, id));
        prev.lemma_filter_contains_rev(|x: ScheduleEntry| x.id != id, e);
        let k = choose|k: int| 0 <= k < without_id(prev, id).len() && without_id(prev, id)[k] == e;
        prev.lemma_filter_pred(|x: ScheduleEntry| x.id != id, k);
        lemma_settled_members(s, due.drop_last(), outcomes.drop_last(), e);
        assert forall|j: int| 0 <= j < due.len() implies due[j].id != e.id by {
            if j < due.len() - 1 {
                assert(due.drop_last()[j] == due[j]);
            }
        }
    }
}

/// A scan in which every due entry is enacted successfully deletes each of
/// them, and a second scan of the same store at the same time finds nothing
/// due.
pub proof fn enacted_entries_are_not_due_again(
    s: Seq<ScheduleEntry>,
    guild_id: u64,
    now: i64,
    outcomes: Seq<EnactOutcome>,
)
    requires
        outcomes.len() == due_in(s, guild_id, now).len(),
        forall|j: int| 0 <= j < outcomes.len() ==> outcomes[j] == EnactOutcome::Restricted,
    ensures
        ({
            let due = due_in(s, guild_id, now);
            let after = settle_all(s, due, outcomes);
            &&& forall|j: int| 0 <= j < due.len() ==> !after.contains(#[trigger] due[j])
            &&& due_in(after, guild_id, now).len() == 0
        }),
{
    let due = due_in(s, guild_id, now);
    let after = settle_all(s, due, outcomes);
    assert forall|j: int| 0 <= j < due.len() implies !after.contains(#[trigger] due[j]) by {
        if after.contains(due[j]) {
            lemma_settled_members(s, due, outcomes, due[j]);
        }
    }
    if due_in(after, guild_id, now).len() > 0 {
        let x = due_in(after, guild_id, now)[0];
        after.lemma_filter_pred(|e: ScheduleEntry| is_due(e, guild_id, now), 0);
        after.lemma_filter_contains_rev(|e: ScheduleEntry| is_due(e, guild_id, now), x);
        lemma_settled_members(s, due, outcomes, x);
        let i = choose|i: int| 0 <= i < s.len() && s[i] == x;
        s.lemma_filter_contains(|e: ScheduleEntry| is_due(e, guild_id, now), i);
        let j = choose|j: int| 0 <= j < due.len() && due[j] == x;
        assert(due[j].id != x.id);
    }
}

/// A scan in which no attempt succeeds leaves the store exactly as it was,
/// so the same entries stay due, unchanged, for every later scan.
pub proof fn failed_enactments_keep_the_store(
    s: Seq<ScheduleEntry>,
    due: Seq<ScheduleEntry>,
    outcomes: Seq<EnactOutcome>,
)
    requires
        due.len() == outcomes.len(),
        forall|j: int| 0 <= j < outcomes.len() ==> outcomes[j] != EnactOutcome::Restricted,
    ensures
        settle_all(s, due, outcomes) == s,
    decreases due.len(),
{
    if due.len() > 0 {
        failed_enactments_keep_the_store(s, due.drop_last(), outcomes.drop_last());
        assert(outcomes.last() != EnactOutcome::Restricted);
    }
}

} // verus!
