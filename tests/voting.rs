use confession_bot::config::{ConfigError, GuildConfig};
use confession_bot::identity::{decimal_bytes, find_member, tokenize, tokenize_member};
use confession_bot::ledger::{LedgerError, VoteLedger};
use confession_bot::tally::{decide, TallyResult, TallyStep};
use confession_bot::vote::{VoteType, DELETE_VOTE_STR, EXPOSE_VOTE_STR};

fn config(delete_min: i32, expose_min: i32) -> GuildConfig {
    GuildConfig {
        delete_vote_min: delete_min,
        expose_vote_min: expose_min,
        expose_vote_role: None,
        role_ping: None,
    }
}

fn result(new_count: u64, quorum: u64, triggered: bool) -> TallyResult {
    TallyResult { new_count, quorum, triggered }
}

#[test]
fn vote_labels() {
    assert_eq!(VoteType::DELETE.as_str(), DELETE_VOTE_STR);
    assert_eq!(VoteType::EXPOSE.as_str(), "expose_vote");
    assert_eq!(VoteType::DELETE.to_label(), "delete_vote".to_string());
    assert_eq!(EXPOSE_VOTE_STR, "expose_vote");
}

#[test]
fn vote_kind_from_button_id() {
    assert_eq!(VoteType::from_custom_id("delete_vote"), Some(VoteType::DELETE));
    assert_eq!(VoteType::from_custom_id("Expose_Vote"), Some(VoteType::EXPOSE));
    assert_eq!(VoteType::from_custom_id("DELETE_VOTE"), Some(VoteType::DELETE));
    assert_eq!(VoteType::from_custom_id("delete"), None);
    assert_eq!(VoteType::from_custom_id(""), None);
}

#[test]
fn vote_kind_from_exact_label() {
    assert_eq!(VoteType::from_lowercase(&"expose_vote".to_string()), Some(VoteType::EXPOSE));
    assert_eq!(VoteType::from_lowercase(&"EXPOSE_VOTE".to_string()), None);
}

#[test]
fn decimal_rendering() {
    assert_eq!(decimal_bytes(0), b"0".to_vec());
    assert_eq!(decimal_bytes(1234), b"1234".to_vec());
    assert_eq!(decimal_bytes(u64::MAX), b"18446744073709551615".to_vec());
}

#[test]
fn tokens_are_deterministic_and_hide_the_identifier() {
    let a = tokenize("123456789");
    assert_eq!(a, tokenize("123456789"));
    assert_ne!(a, "123456789".to_string());
    assert_ne!(a, tokenize("123456780"));
    assert_eq!(tokenize_member(123456789), a);
}

#[test]
fn member_search_within_a_page() {
    let token = tokenize_member(42);
    assert_eq!(find_member(&vec![7, 42, 9, 42], &token), Some(1));
    assert_eq!(find_member(&vec![7, 9], &token), None);
    assert_eq!(find_member(&vec![], &token), None);
}

#[test]
fn default_guild_config() {
    let c = GuildConfig::default();
    assert_eq!(c.delete_vote_min, 10);
    assert_eq!(c.expose_vote_min, 50);
    assert!(c.expose_vote_role.is_none());
    assert!(c.role_ping.is_none());
}

#[test]
fn quorum_per_kind() {
    let c = config(3, 7);
    assert_eq!(c.quorum(VoteType::DELETE), 3);
    assert_eq!(c.quorum(VoteType::EXPOSE), 7);
    assert_eq!(config(-4, 0).quorum(VoteType::DELETE), 0);
}

#[test]
fn expose_role_gate() {
    let mut c = config(3, 3);
    assert!(c.counts_vote(VoteType::EXPOSE, false));
    c.expose_vote_role = Some("555".to_string());
    assert!(!c.counts_vote(VoteType::EXPOSE, false));
    assert!(c.counts_vote(VoteType::EXPOSE, true));
    assert!(c.counts_vote(VoteType::DELETE, false));
}

#[test]
fn config_update() {
    let mut c = GuildConfig::default();
    assert_eq!(c.update(Some(4), None, Some("9".to_string()), None), Ok(()));
    assert_eq!(c.delete_vote_min, 4);
    assert_eq!(c.expose_vote_min, 50);
    assert_eq!(c.expose_vote_role, Some("9".to_string()));
    assert!(c.role_ping.is_none());
    assert_eq!(c.update(None, Some(-1), None, Some("8".to_string())), Err(ConfigError::NegativeThreshold));
    assert_eq!(c.expose_vote_min, 50);
    assert!(c.role_ping.is_none());
}

#[test]
fn decisions() {
    assert_eq!(decide(2, true, 5), (TallyStep::Retract, result(1, 5, false)));
    assert_eq!(decide(3, false, 5), (TallyStep::Record, result(4, 5, false)));
    assert_eq!(decide(4, false, 5), (TallyStep::Trigger, result(5, 5, true)));
    assert_eq!(decide(0, false, 0), (TallyStep::Trigger, result(0, 0, true)));
    assert_eq!(decide(0, false, 1), (TallyStep::Trigger, result(1, 1, true)));
}

#[test]
fn ledger_operations() {
    let mut l = VoteLedger::new();
    let t = "tok".to_string();
    assert_eq!(l.insert(1, t.clone(), VoteType::DELETE), Ok(()));
    assert_eq!(l.insert(1, t.clone(), VoteType::DELETE), Err(LedgerError::Conflict));
    assert_eq!(l.insert(1, t.clone(), VoteType::EXPOSE), Ok(()));
    assert_eq!(l.insert(1, "other".to_string(), VoteType::DELETE), Ok(()));
    assert_eq!(l.insert(2, t.clone(), VoteType::DELETE), Ok(()));
    assert_eq!(l.count(1, VoteType::DELETE), 2);
    assert!(l.has_voted(1, &t, VoteType::EXPOSE));
    l.delete(1, &t, VoteType::DELETE);
    assert!(!l.has_voted(1, &t, VoteType::DELETE));
    assert_eq!(l.count(1, VoteType::DELETE), 1);
    l.purge(1, VoteType::DELETE);
    assert_eq!(l.count(1, VoteType::DELETE), 0);
    assert_eq!(l.count(1, VoteType::EXPOSE), 1);
    assert_eq!(l.count(2, VoteType::DELETE), 1);
}

#[test]
fn toggle_returns_to_the_starting_count() {
    let mut l = VoteLedger::new();
    let c = config(5, 5);
    l.cast_vote(&c, 9, "100", VoteType::DELETE, false);
    assert_eq!(l.cast_vote(&c, 9, "200", VoteType::DELETE, false), result(2, 5, false));
    assert_eq!(l.cast_vote(&c, 9, "200", VoteType::DELETE, false), result(1, 5, false));
    assert_eq!(l.count(9, VoteType::DELETE), 1);
    assert_eq!(l.cast_vote(&c, 9, "100", VoteType::DELETE, false), result(0, 5, false));
    assert_eq!(l.cast_vote(&c, 9, "100", VoteType::DELETE, false), result(1, 5, false));
}

#[test]
fn quorum_of_three_triggers_on_third_voter() {
    let mut l = VoteLedger::new();
    let c = config(3, 3);
    assert_eq!(l.cast_vote(&c, 1, "11", VoteType::EXPOSE, false), result(1, 3, false));
    assert_eq!(l.cast_vote(&c, 1, "22", VoteType::EXPOSE, false), result(2, 3, false));
    assert_eq!(l.cast_vote(&c, 1, "33", VoteType::EXPOSE, false), result(3, 3, true));
    assert_eq!(l.count(1, VoteType::EXPOSE), 0);
}

#[test]
fn quorum_of_one_or_less_triggers_at_once() {
    let mut l = VoteLedger::new();
    assert_eq!(l.cast_vote(&config(1, 0), 4, "7", VoteType::DELETE, false), result(1, 1, true));
    assert_eq!(l.cast_vote(&config(1, 0), 4, "7", VoteType::EXPOSE, false), result(0, 0, true));
    assert_eq!(l.cast_vote(&config(-2, 0), 5, "7", VoteType::DELETE, false), result(0, 0, true));
    assert_eq!(l.count(4, VoteType::DELETE), 0);
}

#[test]
fn delete_scenario_with_retraction() {
    let mut l = VoteLedger::new();
    let c = config(3, 50);
    let post = 77;
    assert_eq!(l.cast_vote(&c, post, "A", VoteType::DELETE, false), result(1, 3, false));
    assert_eq!(l.cast_vote(&c, post, "B", VoteType::DELETE, false), result(2, 3, false));
    assert_eq!(l.cast_vote(&c, post, "A", VoteType::DELETE, false), result(1, 3, false));
    assert_eq!(l.cast_vote(&c, post, "A", VoteType::DELETE, false), result(2, 3, false));
    assert_eq!(l.cast_vote(&c, post, "C", VoteType::DELETE, false), result(3, 3, true));
    assert_eq!(l.count(post, VoteType::DELETE), 0);
}

#[test]
fn expose_vote_without_role_changes_nothing() {
    let mut l = VoteLedger::new();
    let mut c = config(3, 2);
    c.expose_vote_role = Some("1".to_string());
    assert_eq!(l.cast_vote(&c, 3, "A", VoteType::EXPOSE, true), result(1, 2, false));
    assert_eq!(l.cast_vote(&c, 3, "B", VoteType::EXPOSE, false), result(1, 2, false));
    assert_eq!(l.count(3, VoteType::EXPOSE), 1);
    assert_eq!(l.cast_vote(&c, 3, "B", VoteType::EXPOSE, true), result(2, 2, true));
}

#[test]
fn votes_are_kept_under_tokens() {
    let mut l = VoteLedger::new();
    let c = config(5, 5);
    l.cast_vote(&c, 1, "31337", VoteType::DELETE, false);
    assert!(l.has_voted(1, &tokenize("31337"), VoteType::DELETE));
    assert!(!l.has_voted(1, &"31337".to_string(), VoteType::DELETE));
}

#[test]
fn vote_kinds_at_the_crate_root() {
    assert_eq!(confession_bot::VoteType::EXPOSE.as_str(), confession_bot::EXPOSE_VOTE_STR);
    assert_eq!(confession_bot::DELETE_VOTE_STR, "delete_vote");
}
