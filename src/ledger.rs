//! The vote ledger: who voted what on which post, keyed by voter token, and
//! the tally engine that casts votes against it.
use vstd::prelude::*;
use vstd::string::StringSliceAdditionalSpecFns;
use crate::config::{quorum_of, vote_counts, GuildConfig};
use crate::identity::{identity_token, tokenize, MAX_DIGEST_INPUT};
use crate::tally::{decide, tally_decision, TallyResult, TallyStep};
use crate::vote::VoteType;

verus! {

/// A vote as the ledger knows it: post, voter token, kind.
pub type VoteKey = (u64, Seq<char>, VoteType);

/// One recorded vote.
#[derive(Debug)]
pub struct Vote {
    /// The post voted on.
    pub post_id: u64,
    /// The voter's token, never their identifier.
    pub voter: String,
    /// What the vote asks for.
    pub kind: VoteType,
}

impl Vote {
    pub open spec fn key(&self) -> VoteKey {
        (self.post_id, self.voter@, self.kind)
    }
}

/// Why the ledger refused a change.
#[derive(PartialEq, Eq, Structural, Clone, Copy, Debug)]
pub enum LedgerError {
    /// The voter already has this vote on this post.
    Conflict,
}

pub open spec fn keys_of(votes: Seq<Vote>) -> Seq<VoteKey> {
    votes.map_values(|v: Vote| v.key())
}

/// Whether `k` is a vote of `kind` on `post`.
pub open spec fn in_tally(k: VoteKey, post: u64, kind: VoteType) -> bool {
    k.0 == post && k.2 == kind
}

/// The votes of `kind` on `post`.
pub open spec fn tally_votes(s: Set<VoteKey>, post: u64, kind: VoteType) -> Set<VoteKey> {
    s.filter(|k: VoteKey| in_tally(k, post, kind))
}

/// How many votes of `kind` stand on `post`.
pub open spec fn tally_count(s: Set<VoteKey>, post: u64, kind: VoteType) -> nat {
    tally_votes(s, post, kind).len()
}

/// `s` without any vote of `kind` on `post`.
pub open spec fn without_tally(s: Set<VoteKey>, post: u64, kind: VoteType) -> Set<VoteKey> {
    s.filter(|k: VoteKey| !in_tally(k, post, kind))
}

/// The ledger and result after `token` casts a vote of `kind` on `post`,
/// with `quorum` votes needed: a repeated vote is withdrawn, the vote that
/// reaches the quorum purges the post's votes of that kind, and any other
/// vote is recorded.
pub open spec fn cast_outcome(
    s: Set<VoteKey>,
    post: u64,
    token: Seq<char>,
    kind: VoteType,
    quorum: u64,
) -> (Set<VoteKey>, TallyResult) {
    let key = (post, token, kind);
    let (step, result) = tally_decision(tally_count(s, post, kind) as u64, s.contains(key), quorum);
    match step {
        TallyStep::Retract => (s.remove(key), result),
        TallyStep::Trigger => (without_tally(s, post, kind), result),
        TallyStep::Record => (s.insert(key), result),
    }
}

/// The votes that `voter` (or, with no voter, anyone) holds of `kind` on `post`.
spec fn doomed(k: VoteKey, post: u64, kind: VoteType, voter: Option<Seq<char>>) -> bool {
    in_tally(k, post, kind) && match voter {
        Some(t) => k.1 == t,
        None => true,
    }
}

spec fn voter_view(voter: Option<&String>) -> Option<Seq<char>> {
    match voter {
        Some(v) => Some(v@),
        None => None,
    }
}

/// Adding a vote adds one to its own tally and leaves the others alone.
pub proof fn lemma_count_insert(s: Set<VoteKey>, k: VoteKey, post: u64, kind: VoteType)
    requires
        s.finite(),
        !s.contains(k),
    ensures
        tally_count(s.insert(k), post, kind) == tally_count(s, post, kind) + if in_tally(
            k,
            post,
            kind,
        ) {
            1int
        } else {
            0int
        },
{
    s.lemma_len_filter(|x: VoteKey| in_tally(x, post, kind));
    if in_tally(k, post, kind) {
        assert(tally_votes(s.insert(k), post, kind) =~= tally_votes(s, post, kind).insert(k));
    } else {
        assert(tally_votes(s.insert(k), post, kind) =~= tally_votes(s, post, kind));
    }
}

/// Removing a vote takes one from its own tally and leaves the others alone.
pub proof fn lemma_count_remove(s: Set<VoteKey>, k: VoteKey, post: u64, kind: VoteType)
    requires
        s.finite(),
        s.contains(k),
    ensures
        tally_count(s.remove(k), post, kind) == tally_count(s, post, kind) - if in_tally(
            k,
            post,
            kind,
        ) {
            1int
        } else {
            0int
        },
{
    s.lemma_len_filter(|x: VoteKey| in_tally(x, post, kind));
    if in_tally(k, post, kind) {
        assert(tally_votes(s.remove(k), post, kind) =~= tally_votes(s, post, kind).remove(k));
    } else {
        assert(tally_votes(s.remove(k), post, kind) =~= tally_votes(s, post, kind));
    }
}

/// A purged tally is empty.
pub proof fn lemma_count_purged(s: Set<VoteKey>, post: u64, kind: VoteType)
    ensures
        tally_count(without_tally(s, post, kind), post, kind) == 0,
{
    assert(tally_votes(without_tally(s, post, kind), post, kind) =~= Set::<VoteKey>::empty());
}

/// A vote that stands is counted.
pub proof fn lemma_counted(s: Set<VoteKey>, k: VoteKey)
    requires
        s.finite(),
        s.contains(k),
    ensures
        tally_count(s, k.0, k.2) >= 1,
{
    s.lemma_len_filter(|x: VoteKey| in_tally(x, k.0, k.2));
    assert(tally_votes(s, k.0, k.2).contains(k));
}

proof fn lemma_push_unique(s: Seq<VoteKey>, x: VoteKey)
    requires
        s.no_duplicates(),
        !s.contains(x),
    ensures
        s.push(x).no_duplicates(),
{
    let t = s.push(x);
    assert forall|i: int, j: int| 0 <= i < t.len() && 0 <= j < t.len() && i != j implies t[i]
        != t[j] by {
        if i == s.len() {
            assert(s[j] == t[j]);
        } else if j == s.len() {
            assert(s[i] == t[i]);
        }
    }
}

proof fn lemma_drop_last_unique(s: Seq<VoteKey>)
    requires
        s.no_duplicates(),
        s.len() > 0,
    ensures
        s.drop_last().no_duplicates(),
        !s.drop_last().contains(s.last()),
{
    let d = s.drop_last();
    assert forall|i: int| 0 <= i < d.len() implies d[i] != s.last() by {
        assert(d[i] == s[i]);
    }
}

/// The ledger of standing votes.
pub struct VoteLedger {
    votes: Vec<Vote>,
}

impl View for VoteLedger {
    type V = Set<VoteKey>;

    closed spec fn view(&self) -> Set<VoteKey> {
        keys_of(self.votes@).to_set()
    }
}

impl VoteLedger {
    /// No vote is recorded twice.
    pub closed spec fn wf(&self) -> bool {
        keys_of(self.votes@).no_duplicates()
    }

    /// A well-formed ledger holds finitely many votes.
    pub proof fn lemma_wf_finite(&self)
        requires
            self.wf(),
        ensures
            self@.finite(),
    {
        vstd::seq_lib::seq_to_set_is_finite(keys_of(self.votes@));
    }

    /// An empty ledger.
    pub fn new() -> (r: VoteLedger)
        ensures
            r.wf(),
            r@ == Set::<VoteKey>::empty(),
    {
        let r = VoteLedger { votes: Vec::new() };
        assert(r@ =~= Set::<VoteKey>::empty());
        r
    }

    /// How many votes of `kind` stand on `post_id`.
    pub fn count(&self, post_id: u64, kind: VoteType) -> (r: u64)
        requires
            self.wf(),
        ensures
            r == tally_count(self@, post_id, kind),
    {
        let ghost ks = keys_of(self.votes@);
        let mut n: u64 = 0;
        let mut i: usize = 0;
        proof {
            assert(ks.take(0).to_set() =~= Set::<VoteKey>::empty());
            assert(tally_votes(Set::<VoteKey>::empty(), post_id, kind) =~= Set::<VoteKey>::empty());
        }
        while i < self.votes.len()
            invariant
                ks == keys_of(self.votes@),
                ks.no_duplicates(),
                i <= self.votes@.len(),
                n <= i,
                n == tally_count(ks.take(i as int).to_set(), post_id, kind),
            decreases self.votes@.len() - i,
        {
            proof {
                let pre = ks.take(i as int);
                assert(ks.take(i + 1) =~= pre.push(ks[i as int]));
                pre.lemma_push_to_set_commute(ks[i as int]);
                vstd::seq_lib::seq_to_set_is_finite(pre);
                assert(!pre.contains(ks[i as int])) by {
                    if pre.contains(ks[i as int]) {
                        let j = choose|j: int| 0 <= j < pre.len() && pre[j] == ks[i as int];
                        assert(ks[j] == ks[i as int]);
                    }
                }
                lemma_count_insert(pre.to_set(), ks[i as int], post_id, kind);
            }
            let v = &self.votes[i];
            if v.post_id == post_id && v.kind == kind {
                n = n + 1;
            }
            i = i + 1;
        }
        proof {
            assert(ks.take(i as int) =~= ks);
        }
        n
    }

    /// Whether `voter` has a vote of `kind` on `post_id`.
    pub fn has_voted(&self, post_id: u64, voter: &String, kind: VoteType) -> (r: bool)
        requires
            self.wf(),
        ensures
            r == self@.contains((post_id, voter@, kind)),
    {
        let ghost ks = keys_of(self.votes@);
        let ghost key = (post_id, voter@, kind);
        let mut i: usize = 0;
        while i < self.votes.len()
            invariant
                ks == keys_of(self.votes@),
                key == (post_id, voter@, kind),
                i <= self.votes@.len(),
                forall|j: int| 0 <= j < i ==> ks[j] != key,
            decreases self.votes@.len() - i,
        {
            let v = &self.votes[i];
            proof {
                assert(ks[i as int] == self.votes@[i as int].key());
            }
            if v.post_id == post_id && v.kind == kind && v.voter == *voter {
                return true;
            }
            i = i + 1;
        }
        false
    }

    /// Records a vote, unless the voter already has it.
    pub fn insert(&mut self, post_id: u64, voter: String, kind: VoteType) -> (r: Result<(), LedgerError>)
        requires
            old(self).wf(),
        ensures
            final(self).wf(),
            old(self)@.contains((post_id, voter@, kind)) ==> r == Err::<(), LedgerError>(
                LedgerError::Conflict,
            ) && final(self)@ == old(self)@,
            !old(self)@.contains((post_id, voter@, kind)) ==> r == Ok::<(), LedgerError>(())
                && final(self)@ == old(self)@.insert((post_id, voter@, kind)),
    {
        if self.has_voted(post_id, &voter, kind) {
            return Err(LedgerError::Conflict);
        }
        let ghost ks = keys_of(self.votes@);
        let ghost key = (post_id, voter@, kind);
        self.votes.push(Vote { post_id, voter, kind });
        proof {
            assert(keys_of(self.votes@) =~= ks.push(key));
            lemma_push_unique(ks, key);
            ks.lemma_push_to_set_commute(key);
        }
        Ok(())
    }

    /// Drops the votes of `kind` on `post_id` that `voter` holds, or that
    /// anyone holds when no voter is given.
    fn remove_matching(&mut self, post_id: u64, kind: VoteType, voter: Option<&String>)
        requires
            old(self).wf(),
        ensures
            final(self).wf(),
            final(self)@ == old(self)@.filter(
                |k: VoteKey| !doomed(k, post_id, kind, voter_view(voter)),
            ),
    {
        let ghost old_set = old(self)@;
        let ghost target = voter_view(voter);
        let mut rest: Vec<Vote> = Vec::new();
        std::mem::swap(&mut self.votes, &mut rest);
        proof {
            assert(keys_of(self.votes@) =~= Seq::<VoteKey>::empty());
        }
        while rest.len() > 0
            invariant
                keys_of(rest@).no_duplicates(),
                keys_of(self.votes@).no_duplicates(),
                forall|k: VoteKey| keys_of(rest@).contains(k) ==> old_set.contains(k),
                forall|k: VoteKey|
                    #![trigger keys_of(self.votes@).contains(k)]
                    #![trigger keys_of(rest@).contains(k)]
                    #![trigger old_set.contains(k)]
                    keys_of(self.votes@).contains(k) <==> (old_set.contains(k) && !keys_of(
                        rest@,
                    ).contains(k) && !doomed(k, post_id, kind, target)),
                target == voter_view(voter),
            decreases rest@.len(),
        {
            let ghost before = keys_of(rest@);
            let v = rest.pop().unwrap();
            proof {
                assert(before =~= keys_of(rest@).push(v.key()));
                assert(keys_of(rest@) =~= before.drop_last());
                lemma_drop_last_unique(before);
                assert(before.contains(v.key())) by {
                    assert(before[before.len() - 1] == v.key());
                }
                assert forall|k: VoteKey| before.contains(k) && k != v.key() implies keys_of(
                    rest@,
                ).contains(k) by {
                    let j = choose|j: int| 0 <= j < before.len() && before[j] == k;
                    assert(j != before.len() - 1);
                    assert(keys_of(rest@)[j] == k);
                }
            }
            let gone = v.post_id == post_id && v.kind == kind && match voter {
                Some(t) => v.voter == *t,
                None => true,
            };
            assert(gone == doomed(v.key(), post_id, kind, target));
            if !gone {
                let ghost kept = keys_of(self.votes@);
                let ghost key = v.key();
                assert(!kept.contains(key)) by {
                    if kept.contains(key) {
                        assert(!before.contains(key));
                    }
                }
                self.votes.push(v);
                proof {
                    assert(keys_of(self.votes@) =~= kept.push(key));
                    lemma_push_unique(kept, key);
                    assert forall|k: VoteKey| #[trigger]
                        keys_of(self.votes@).contains(k) <==> kept.contains(k) || k == key by {
                        if keys_of(self.votes@).contains(k) {
                            let j = choose|j: int|
                                0 <= j < keys_of(self.votes@).len() && keys_of(self.votes@)[j]
                                    == k;
                            if j < kept.len() {
                                assert(kept[j] == k);
                            }
                        }
                        if k == key {
                            assert(keys_of(self.votes@)[kept.len() as int] == k);
                        }
                        if kept.contains(k) {
                            let j = choose|j: int| 0 <= j < kept.len() && kept[j] == k;
                            assert(keys_of(self.votes@)[j] == k);
                        }
                    }
                }
            }
        }
        proof {
            assert(keys_of(rest@) =~= Seq::<VoteKey>::empty());
            assert forall|k: VoteKey| #[trigger] self@.contains(k) <==> old_set.contains(k) && !doomed(
                k,
                post_id,
                kind,
                target,
            ) by {
                assert(!keys_of(rest@).contains(k));
            }
            assert(self@ =~= old_set.filter(|k: VoteKey| !doomed(k, post_id, kind, target)));
        }
    }

    /// Withdraws `voter`'s vote of `kind` on `post_id`, if they have one.
    pub fn delete(&mut self, post_id: u64, voter: &String, kind: VoteType)
        requires
            old(self).wf(),
        ensures
            final(self).wf(),
            final(self)@ == old(self)@.remove((post_id, voter@, kind)),
    {
        self.remove_matching(post_id, kind, Some(voter));
        assert(self@ =~= old(self)@.remove((post_id, voter@, kind)));
    }

    /// Drops every vote of `kind` on `post_id`.
    pub fn purge(&mut self, post_id: u64, kind: VoteType)
        requires
            old(self).wf(),
        ensures
            final(self).wf(),
            final(self)@ == without_tally(old(self)@, post_id, kind),
    {
        self.remove_matching(post_id, kind, None);
        assert(self@ =~= without_tally(old(self)@, post_id, kind));
    }

    /// Casts a vote of `kind` on `post_id` from the voter whose token is
    /// `token`, with `quorum` votes needed: withdraws the voter's standing
    /// vote, or fires the action and purges the tally when the quorum is
    /// reached, or records the vote.
    pub fn record_vote(&mut self, post_id: u64, token: String, kind: VoteType, quorum: u64) -> (r:
        TallyResult)
        requires
            old(self).wf(),
        ensures
            final(self).wf(),
            (final(self)@, r) == cast_outcome(old(self)@, post_id, token@, kind, quorum),
    {
        let count = self.count(post_id, kind);
        let voted = self.has_voted(post_id, &token, kind);
        proof {
            if voted {
                self.lemma_wf_finite();
                lemma_counted(self@, (post_id, token@, kind));
            }
        }
        let (step, result) = decide(count, voted, quorum);
        match step {
            TallyStep::Retract => self.delete(post_id, &token, kind),
            TallyStep::Trigger => self.purge(post_id, kind),
            TallyStep::Record => {
                let _ = self.insert(post_id, token, kind);
            },
        }
        result
    }

    /// Casts a vote of `kind` on `post_id` from the member `voter_id`, under
    /// the guild's `config`. An expose vote from a member without the
    /// configured expose role changes nothing and reports the standing
    /// count; any other vote is cast under the voter's token.
    pub fn cast_vote(
        &mut self,
        config: &GuildConfig,
        post_id: u64,
        voter_id: &str,
        kind: VoteType,
        holds_expose_role: bool,
    ) -> (r: TallyResult)
        requires
            old(self).wf(),
            voter_id.spec_bytes().len() <= MAX_DIGEST_INPUT,
        ensures
            final(self).wf(),
            vote_counts(*config, kind, holds_expose_role) ==> (final(self)@, r) == cast_outcome(
                old(self)@,
                post_id,
                identity_token(voter_id.spec_bytes()),
                kind,
                quorum_of(*config, kind) as u64,
            ),
            !vote_counts(*config, kind, holds_expose_role) ==> final(self)@ == old(self)@ && r == (
            TallyResult {
                new_count: tally_count(old(self)@, post_id, kind) as u64,
                quorum: quorum_of(*config, kind) as u64,
                triggered: false,
            }),
    {
        let quorum = config.quorum(kind);
        if !config.counts_vote(kind, holds_expose_role) {
            let count = self.count(post_id, kind);
            return TallyResult { new_count: count, quorum, triggered: false };
        }
        let token = tokenize(voter_id);
        self.record_vote(post_id, token, kind, quorum)
    }
}

} // verus!
