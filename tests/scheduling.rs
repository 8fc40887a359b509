use confession_bot::enactment::{restriction_for, EnactOutcome, Restriction};
use confession_bot::expose::{AuthorSearch, SearchStep};
use confession_bot::identity::tokenize_member;
use confession_bot::schedule::{ScheduleEntry, ScheduleError, ScheduleStore};
use confession_bot::timeout::{parse_i64, plan_timeout, TimeoutDuration, TimeoutPlan};

const NOW: i64 = 1_700_000_000;
const ME: u64 = 1;
const BOT: u64 = 2;
const VICTIM: u64 = 3;

fn entry(id: u64, guild_id: u64, start_at: i64) -> ScheduleEntry {
    ScheduleEntry { id, guild_id, victim_id: VICTIM, start_at, ends_at: start_at + 60 }
}

#[test]
fn create_rejects_window_that_ends_first() {
    let mut s = ScheduleStore::new();
    assert_eq!(s.create(10, VICTIM, 100, 200), Ok(1));
    assert_eq!(s.create(10, VICTIM, 300, 299), Err(ScheduleError::InvalidWindow));
    assert_eq!(s.due_entries(10, i64::MAX), vec![ScheduleEntry { id: 1, guild_id: 10, victim_id: VICTIM, start_at: 100, ends_at: 200 }]);
    assert_eq!(s.create(10, VICTIM, 300, 300), Ok(2));
}

#[test]
fn due_entries_by_guild_and_time() {
    let mut s = ScheduleStore::new();
    assert_eq!(s.restore(entry(5, 10, 100)), Ok(()));
    assert_eq!(s.restore(entry(6, 11, 100)), Ok(()));
    assert_eq!(s.restore(entry(7, 10, 500)), Ok(()));
    assert_eq!(s.restore(entry(8, 10, 50)), Ok(()));
    assert_eq!(s.due_entries(10, 100), vec![entry(5, 10, 100), entry(8, 10, 50)]);
    assert_eq!(s.due_entries(10, 49), vec![]);
    assert_eq!(s.create(10, VICTIM, 1, 2), Ok(9));
}

#[test]
fn restore_refuses_bad_entries() {
    let mut s = ScheduleStore::new();
    let mut bad = entry(1, 10, 100);
    bad.ends_at = 99;
    assert_eq!(s.restore(bad), Err(ScheduleError::InvalidWindow));
    assert_eq!(s.restore(entry(u64::MAX, 10, 100)), Err(ScheduleError::IdsExhausted));
    assert_eq!(s.due_entries(10, i64::MAX), vec![]);
}

#[test]
fn successful_scan_enacts_each_entry_once() {
    let mut s = ScheduleStore::new();
    s.restore(entry(1, 10, 100)).unwrap();
    s.restore(entry(2, 10, 200)).unwrap();
    s.restore(entry(3, 10, 900)).unwrap();
    let due = s.due_entries(10, 300);
    assert_eq!(due.len(), 2);
    let outcomes = vec![EnactOutcome::Restricted, EnactOutcome::Restricted];
    s.settle_scan(&due, &outcomes);
    assert_eq!(s.due_entries(10, 300), vec![]);
    assert_eq!(s.due_entries(10, 900), vec![entry(3, 10, 900)]);
}

#[test]
fn failed_scans_keep_entries_unchanged() {
    let mut s = ScheduleStore::new();
    s.restore(entry(1, 10, 100)).unwrap();
    s.restore(entry(2, 10, 200)).unwrap();
    for _ in 0..3 {
        let due = s.due_entries(10, 300);
        let outcomes = vec![EnactOutcome::CapabilityFailed, EnactOutcome::MemberNotFound];
        s.settle_scan(&due, &outcomes);
    }
    assert_eq!(s.due_entries(10, 300), vec![entry(1, 10, 100), entry(2, 10, 200)]);
}

#[test]
fn mixed_scan_settles_every_entry() {
    let mut s = ScheduleStore::new();
    s.restore(entry(1, 10, 100)).unwrap();
    s.restore(entry(2, 10, 200)).unwrap();
    let due = s.due_entries(10, 300);
    s.settle_scan(&due, &vec![EnactOutcome::ScopeMismatch, EnactOutcome::Restricted]);
    assert_eq!(s.due_entries(10, 300), vec![entry(1, 10, 100)]);
    s.settle(1, EnactOutcome::CapabilityFailed);
    assert_eq!(s.due_entries(10, 300), vec![entry(1, 10, 100)]);
    s.settle(1, EnactOutcome::Restricted);
    assert_eq!(s.due_entries(10, 300), vec![]);
}

#[test]
fn remove_by_id() {
    let mut s = ScheduleStore::new();
    s.restore(entry(1, 10, 100)).unwrap();
    s.restore(entry(2, 10, 100)).unwrap();
    s.remove(1);
    s.remove(40);
    assert_eq!(s.due_entries(10, 100), vec![entry(2, 10, 100)]);
}

#[test]
fn restriction_checks_the_guild() {
    let e = entry(4, 10, 100);
    assert_eq!(restriction_for(&e, 11), Err(EnactOutcome::ScopeMismatch));
    assert_eq!(restriction_for(&e, 10), Ok(Restriction { entry_id: 4, victim_id: VICTIM, until: 160 }));
}

#[test]
fn integer_parsing() {
    assert_eq!(parse_i64("0"), Some(0));
    assert_eq!(parse_i64("42"), Some(42));
    assert_eq!(parse_i64("+7"), Some(7));
    assert_eq!(parse_i64("-15"), Some(-15));
    assert_eq!(parse_i64("9223372036854775807"), Some(i64::MAX));
    assert_eq!(parse_i64("-9223372036854775808"), Some(i64::MIN));
    assert_eq!(parse_i64("9223372036854775808"), None);
    assert_eq!(parse_i64("123456789012345678901234567890"), None);
    assert_eq!(parse_i64(""), None);
    assert_eq!(parse_i64("-"), None);
    assert_eq!(parse_i64("1a"), None);
    assert_eq!(parse_i64(" 1"), None);
}

#[test]
fn timeout_lengths_and_labels() {
    assert_eq!(i64::from(TimeoutDuration::SECONDS_60), 60);
    assert_eq!(i64::from(TimeoutDuration::MINS_5), 300);
    assert_eq!(i64::from(TimeoutDuration::MINS_10), 600);
    assert_eq!(i64::from(TimeoutDuration::HOURS_1), 3600);
    assert_eq!(i64::from(TimeoutDuration::DAYS_1), 86400);
    assert_eq!(i64::from(TimeoutDuration::WEEKS_1), 604800);
    assert_eq!(TimeoutDuration::MINS_10.label(), "10 minutes");
    assert_eq!(TimeoutDuration::WEEKS_1.label(), "1 week");
}

#[test]
fn planning_a_timeout() {
    let plan = |s: &str| plan_timeout(NOW, ME, BOT, VICTIM, s, TimeoutDuration::HOURS_1);
    assert_eq!(plan("30s"), Ok(TimeoutPlan { start_at: 1_700_000_030, ends_at: 1_700_003_630 }));
    assert_eq!(plan("10m"), Ok(TimeoutPlan { start_at: 1_700_000_600, ends_at: 1_700_004_200 }));
    assert_eq!(plan("2h"), Ok(TimeoutPlan { start_at: 1_700_007_200, ends_at: 1_700_010_800 }));
    assert_eq!(plan("1d"), Ok(TimeoutPlan { start_at: 1_700_086_400, ends_at: 1_700_090_000 }));
    assert_eq!(plan("-1m"), Ok(TimeoutPlan { start_at: 1_699_999_940, ends_at: 1_700_003_540 }));
}

#[test]
fn planning_errors() {
    let plan = |s: &str, victim: u64| plan_timeout(NOW, ME, BOT, victim, s, TimeoutDuration::MINS_5);
    assert_eq!(plan("", VICTIM), Err(ScheduleError::EmptyOffset));
    assert_eq!(plan("m", VICTIM), Err(ScheduleError::InvalidNumber));
    assert_eq!(plan("1.5h", VICTIM), Err(ScheduleError::InvalidNumber));
    assert_eq!(plan("10x", VICTIM), Err(ScheduleError::InvalidUnit));
    assert_eq!(plan("10é", VICTIM), Err(ScheduleError::InvalidUnit));
    assert_eq!(plan("10m", ME), Err(ScheduleError::SelfTarget));
    assert_eq!(plan("10m", BOT), Err(ScheduleError::SystemTarget));
    assert_eq!(plan("9999d", VICTIM), Err(ScheduleError::OutOfRange));
    assert_eq!(plan("9223372036854775807d", VICTIM), Err(ScheduleError::OutOfRange));
}

#[test]
fn planned_window_fits_the_store() {
    let p = plan_timeout(NOW, ME, BOT, VICTIM, "5m", TimeoutDuration::DAYS_1).unwrap();
    let mut s = ScheduleStore::new();
    let id = s.create(10, VICTIM, p.start_at as i64, p.ends_at as i64).unwrap();
    assert_eq!(s.due_entries(10, NOW + 300), vec![ScheduleEntry { id, guild_id: 10, victim_id: VICTIM, start_at: NOW + 300, ends_at: NOW + 300 + 86400 }]);
}

#[test]
fn author_found_on_second_page() {
    let token = tokenize_member(1005);
    let mut search = AuthorSearch::new(10);
    assert_eq!(search.step(&vec![1001, 1002, 1003], &token), SearchStep::NextPage(1003));
    assert_eq!(search.cursor, Some(1003));
    assert_eq!(search.step(&vec![1004, 1005], &token), SearchStep::Found(1005));
    assert_eq!(search.pages_left, 8);
}

#[test]
fn author_search_gives_up() {
    let token = tokenize_member(9);
    let mut search = AuthorSearch::new(2);
    assert_eq!(search.step(&vec![1, 2], &token), SearchStep::NextPage(2));
    assert_eq!(search.step(&vec![], &token), SearchStep::GiveUp);
    assert_eq!(search.step(&vec![1, 2], &token), SearchStep::GiveUp);
    assert_eq!(search.step(&vec![3], &token), SearchStep::NextPage(3));
    assert_eq!(search.step(&vec![4], &token), SearchStep::GiveUp);
    assert_eq!(search.pages_left, 0);
}

#[test]
fn identifiers_run_out() {
    let mut s = ScheduleStore::new();
    s.restore(entry(u64::MAX - 1, 10, 100)).unwrap();
    assert_eq!(s.create(10, VICTIM, 1, 2), Err(ScheduleError::IdsExhausted));
    assert_eq!(s.create(10, VICTIM, 3, 2), Err(ScheduleError::InvalidWindow));
    assert_eq!(s.due_entries(10, i64::MAX), vec![entry(u64::MAX - 1, 10, 100)]);
}

#[test]
fn identifiers_follow_restored_entries() {
    let mut s = ScheduleStore::new();
    s.restore(entry(41, 10, 100)).unwrap();
    s.restore(entry(7, 10, 100)).unwrap();
    assert_eq!(s.create(10, VICTIM, 1, 2), Ok(42));
    assert_eq!(s.create(10, VICTIM, 1, 2), Ok(43));
}
