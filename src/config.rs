//! Per-guild moderation settings.
use vstd::prelude::*;
use crate::vote::VoteType;

verus! {

/// Delete votes a new guild needs.
pub const DEFAULT_DELETE_VOTE_MIN: i32 = 10;

/// Expose votes a new guild needs.
pub const DEFAULT_EXPOSE_VOTE_MIN: i32 = 50;

/// The thresholds and roles a guild moderates with.
#[derive(Clone, Debug)]
pub struct GuildConfig {
    /// Delete votes that remove a post.
    pub delete_vote_min: i32,
    /// Expose votes that reveal a post's author.
    pub expose_vote_min: i32,
    /// Role a member must hold for an expose vote to count, if any.
    pub expose_vote_role: Option<String>,
    /// Role to notify of new posts, if any.
    pub role_ping: Option<String>,
}

/// Why a configuration change was refused.
#[derive(PartialEq, Eq, Structural, Clone, Copy, Debug)]
pub enum ConfigError {
    /// A vote threshold below zero.
    NegativeThreshold,
}

/// The quorum a configured threshold stands for: a threshold below zero
/// counts as zero.
pub open spec fn quorum_of_min(min: i32) -> nat {
    if min <= 0 {
        0
    } else {
        min as nat
    }
}

/// The quorum `config` sets for `kind`.
pub open spec fn quorum_of(config: GuildConfig, kind: VoteType) -> nat {
    match kind {
        VoteType::DELETE => quorum_of_min(config.delete_vote_min),
        VoteType::EXPOSE => quorum_of_min(config.expose_vote_min),
    }
}

/// Whether a vote of `kind` counts, for a voter who holds the expose role
/// exactly when `holds_expose_role`.
pub open spec fn vote_counts(config: GuildConfig, kind: VoteType, holds_expose_role: bool) -> bool {
    kind == VoteType::DELETE || config.expose_vote_role.is_none() || holds_expose_role
}

/// `old` with each given setting replaced.
pub open spec fn updated_config(
    old: GuildConfig,
    delete_vote_min: Option<i32>,
    expose_vote_min: Option<i32>,
    expose_vote_role: Option<String>,
    role_ping: Option<String>,
) -> GuildConfig {
    GuildConfig {
        delete_vote_min: match delete_vote_min {
            Some(m) => m,
            None => old.delete_vote_min,
        },
        expose_vote_min: match expose_vote_min {
            Some(m) => m,
            None => old.expose_vote_min,
        },
        expose_vote_role: match expose_vote_role {
            Some(r) => Some(r),
            None => old.expose_vote_role,
        },
        role_ping: match role_ping {
            Some(r) => Some(r),
            None => old.role_ping,
        },
    }
}

/// Whether a given threshold is below zero.
pub open spec fn negative_threshold(m: Option<i32>) -> bool {
    match m {
        Some(v) => v < 0,
        None => false,
    }
}

impl Default for GuildConfig {
    /// The settings of a guild that has not been configured.
    fn default() -> (r: GuildConfig)
        ensures
            r.delete_vote_min == DEFAULT_DELETE_VOTE_MIN,
            r.expose_vote_min == DEFAULT_EXPOSE_VOTE_MIN,
            r.expose_vote_role.is_none(),
            r.role_ping.is_none(),
    {
        GuildConfig {
            delete_vote_min: DEFAULT_DELETE_VOTE_MIN,
            expose_vote_min: DEFAULT_EXPOSE_VOTE_MIN,
            expose_vote_role: None,
            role_ping: None,
        }
    }
}

impl GuildConfig {
    /// The number of votes of `kind` that triggers its action.
    pub fn quorum(&self, kind: VoteType) -> (r: u64)
        ensures
            r == quorum_of(*self, kind),
    {
        let min = match kind {
            VoteType::DELETE => self.delete_vote_min,
            VoteType::EXPOSE => self.expose_vote_min,
        };
        if min <= 0 {
            0
        } else {
            min as u64
        }
    }

    /// Whether a vote of `kind` counts toward its quorum; an expose vote
    /// counts only from a holder of the configured expose role.
    pub fn counts_vote(&self, kind: VoteType, holds_expose_role: bool) -> (r: bool)
        ensures
            r == vote_counts(*self, kind, holds_expose_role),
    {
        match kind {
            VoteType::DELETE => true,
            VoteType::EXPOSE => self.expose_vote_role.is_none() || holds_expose_role,
        }
    }

    /// Replaces each setting that is given. A threshold below zero is
    /// refused, and then nothing changes.
    pub fn update(
        &mut self,
        delete_vote_min: Option<i32>,
        expose_vote_min: Option<i32>,
        expose_vote_role: Option<String>,
        role_ping: Option<String>,
    ) -> (r: Result<(), ConfigError>)
        ensures
            negative_threshold(delete_vote_min) || negative_threshold(expose_vote_min) ==> {
                &&& r == Err::<(), ConfigError>(ConfigError::NegativeThreshold)
                &&& *final(self) == *old(self)
            },
            !(negative_threshold(delete_vote_min) || negative_threshold(expose_vote_min)) ==> {
                &&& r == Ok::<(), ConfigError>(())
                &&& *final(self) == updated_config(
                    *old(self),
                    delete_vote_min,
                    expose_vote_min,
                    expose_vote_role,
                    role_ping,
                )
            },
    {
        let bad_delete = match delete_vote_min {
            Some(v) => v < 0,
            None => false,
        };
        let bad_expose = match expose_vote_min {
            Some(v) => v < 0,
            None => false,
        };
        if bad_delete || bad_expose {
            return Err(ConfigError::NegativeThreshold);
        }
        if let Some(m) = delete_vote_min {
            self.delete_vote_min = m;
        }
        if let Some(m) = expose_vote_min {
            self.expose_vote_min = m;
        }
        if let Some(role) = expose_vote_role {
            self.expose_vote_role = Some(role);
        }
        if let Some(role) = role_ping {
            self.role_ping = Some(role);
        }
        Ok(())
    }
}

} // verus!
