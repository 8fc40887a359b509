//! The two kinds of vote a member can cast on a post, and their labels.
use vstd::prelude::*;

verus! {

/// Label of a delete vote, as carried by the vote button.
pub const DELETE_VOTE_STR: &'static str = "delete_vote";

/// Label of an expose vote, as carried by the vote button.
pub const EXPOSE_VOTE_STR: &'static str = "expose_vote";

/// What a vote asks for once its quorum is reached.
#[derive(PartialEq, Eq, Structural, Clone, Copy, Debug)]
pub enum VoteType {
    /// Remove the post.
    DELETE,
    /// Reveal who wrote the post.
    EXPOSE,
}

/// The label of each kind.
pub open spec fn vote_label(kind: VoteType) -> Seq<char> {
    match kind {
        VoteType::DELETE => DELETE_VOTE_STR@,
        VoteType::EXPOSE => EXPOSE_VOTE_STR@,
    }
}

/// The kind whose label is exactly `label`, if any.
pub open spec fn kind_of_label(label: Seq<char>) -> Option<VoteType> {
    if label == DELETE_VOTE_STR@ {
        Some(VoteType::DELETE)
    } else if label == EXPOSE_VOTE_STR@ {
        Some(VoteType::EXPOSE)
    } else {
        None
    }
}

/// What lower-casing `s` gives.
pub uninterp spec fn lowercase_of(s: Seq<char>) -> Seq<char>;

/// Relies on `str::to_lowercase`: the result depends on the characters alone.
#[verifier::external_body]
fn lowercase(s: &str) -> (r: String)
    ensures
        r@ == lowercase_of(s@),
{
    s.to_lowercase()
}

impl VoteType {
    /// The label of this kind.
    pub fn as_str(&self) -> (r: &'static str)
        ensures
            r@ == vote_label(*self),
    {
        match self {
            VoteType::DELETE => DELETE_VOTE_STR,
            VoteType::EXPOSE => EXPOSE_VOTE_STR,
        }
    }

    /// The label of this kind, owned.
    pub fn to_label(self) -> (r: String)
        ensures
            r@ == vote_label(self),
    {
        self.as_str().to_owned()
    }

    /// The kind whose label is `label`, compared exactly.
    pub fn from_lowercase(label: &String) -> (r: Option<VoteType>)
        ensures
            r == kind_of_label(label@),
    {
        let delete = DELETE_VOTE_STR.to_owned();
        let expose = EXPOSE_VOTE_STR.to_owned();
        if *label == delete {
            Some(VoteType::DELETE)
        } else if *label == expose {
            Some(VoteType::EXPOSE)
        } else {
            None
        }
    }

    /// The kind named by a button identifier, whatever its letter case.
    pub fn from_custom_id(custom_id: &str) -> (r: Option<VoteType>)
        ensures
            r == kind_of_label(lowercase_of(custom_id@)),
    {
        let lower = lowercase(custom_id);
        VoteType::from_lowercase(&lower)
    }
}

} // verus!
