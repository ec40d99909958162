use poll_registry::registry::{rocket, PollMap};
use poll_registry::stats::PollStats;
use poll_registry::status::PollData;

const ALL: [PollData; 5] = [
    PollData::NoWebtech,
    PollData::NotStarted,
    PollData::Started,
    PollData::Done,
    PollData::DoneWebtech,
];

fn stats_of(no_webtech: usize, not_started: usize, started: usize, done: usize, done_webtech: usize) -> PollStats {
    PollStats { no_webtech, not_started, started, done, done_webtech }
}

fn sum(stats: &PollStats) -> usize {
    stats.no_webtech + stats.not_started + stats.started + stats.done + stats.done_webtech
}

#[test]
fn new_registry_is_empty() {
    let polls = PollMap::new();
    assert_eq!(polls.len(), 0);
    assert_eq!(polls.get(0), None);
    assert_eq!(polls.stats(), stats_of(0, 0, 0, 0, 0));
}

#[test]
fn nth_insert_returns_n() {
    let mut polls = PollMap::new();
    for n in 0..200usize {
        let id = polls.insert(ALL[n % 5]);
        assert_eq!(id, n);
        assert_eq!(polls.len(), n + 1);
    }
}

#[test]
fn insert_numbers_do_not_depend_on_updates() {
    let mut polls = PollMap::new();
    assert_eq!(polls.insert(PollData::Started), 0);
    assert!(polls.update(0, PollData::Done));
    assert!(!polls.update(9, PollData::Done));
    assert_eq!(polls.insert(PollData::Started), 1);
    assert!(polls.update(1, PollData::NoWebtech));
    assert_eq!(polls.insert(PollData::Started), 2);
    assert_eq!(polls.len(), 3);
}

#[test]
fn get_after_insert_returns_the_status() {
    let mut polls = PollMap::new();
    for status in ALL {
        let id = polls.insert(status);
        assert_eq!(polls.get(id), Some(status));
    }
    for (id, status) in ALL.iter().enumerate() {
        assert_eq!(polls.get(id), Some(*status));
    }
}

#[test]
fn get_of_unknown_id_is_none() {
    let mut polls = PollMap::new();
    polls.insert(PollData::Started);
    polls.insert(PollData::Done);
    assert_eq!(polls.get(2), None);
    assert_eq!(polls.get(5), None);
    assert_eq!(polls.get(usize::MAX), None);
}

#[test]
fn update_of_existing_poll_replaces_its_status() {
    let mut polls = PollMap::new();
    let first = polls.insert(PollData::NotStarted);
    let second = polls.insert(PollData::NotStarted);
    for status in ALL {
        assert!(polls.update(first, status));
        assert_eq!(polls.get(first), Some(status));
        assert_eq!(polls.get(second), Some(PollData::NotStarted));
        assert_eq!(polls.len(), 2);
    }
}

#[test]
fn update_accepts_any_transition() {
    let mut polls = PollMap::new();
    let id = polls.insert(PollData::DoneWebtech);
    assert!(polls.update(id, PollData::NoWebtech));
    assert_eq!(polls.get(id), Some(PollData::NoWebtech));
    assert!(polls.update(id, PollData::NoWebtech));
    assert_eq!(polls.get(id), Some(PollData::NoWebtech));
}

#[test]
fn update_of_unknown_poll_changes_nothing() {
    let mut polls = PollMap::new();
    polls.insert(PollData::NotStarted);
    polls.insert(PollData::Started);
    polls.insert(PollData::Done);
    let before = polls.stats();
    for missing in [3usize, 4, 100, usize::MAX] {
        assert!(!polls.update(missing, PollData::DoneWebtech));
        assert_eq!(polls.len(), 3);
        assert_eq!(polls.get(missing), None);
        assert_eq!(polls.get(0), Some(PollData::NotStarted));
        assert_eq!(polls.get(1), Some(PollData::Started));
        assert_eq!(polls.get(2), Some(PollData::Done));
        assert_eq!(polls.stats(), before);
    }
}

#[test]
fn update_on_empty_registry_fails() {
    let mut polls = PollMap::new();
    assert!(!polls.update(0, PollData::Done));
    assert_eq!(polls.len(), 0);
    assert_eq!(polls.get(0), None);
}

#[test]
fn update_never_creates_a_poll() {
    let mut polls = PollMap::new();
    polls.insert(PollData::Started);
    assert!(!polls.update(1, PollData::Done));
    assert_eq!(polls.insert(PollData::NoWebtech), 1);
    assert_eq!(polls.get(1), Some(PollData::NoWebtech));
}

#[test]
fn stats_count_each_status() {
    let mut polls = PollMap::new();
    for _ in 0..1 {
        polls.insert(PollData::NoWebtech);
    }
    for _ in 0..2 {
        polls.insert(PollData::NotStarted);
    }
    for _ in 0..3 {
        polls.insert(PollData::Started);
    }
    for _ in 0..4 {
        polls.insert(PollData::Done);
    }
    for _ in 0..5 {
        polls.insert(PollData::DoneWebtech);
    }
    assert_eq!(polls.stats(), stats_of(1, 2, 3, 4, 5));
}

#[test]
fn stats_follow_updates() {
    let mut polls = PollMap::new();
    for _ in 0..4 {
        polls.insert(PollData::NotStarted);
    }
    assert_eq!(polls.stats(), stats_of(0, 4, 0, 0, 0));
    assert!(polls.update(2, PollData::Started));
    assert_eq!(polls.stats(), stats_of(0, 3, 1, 0, 0));
    assert!(polls.update(2, PollData::Done));
    assert_eq!(polls.stats(), stats_of(0, 3, 0, 1, 0));
    assert!(polls.update(0, PollData::DoneWebtech));
    assert_eq!(polls.stats(), stats_of(0, 2, 0, 1, 1));
    assert!(polls.update(3, PollData::NoWebtech));
    assert_eq!(polls.stats(), stats_of(1, 1, 0, 1, 1));
}

#[test]
fn stats_sum_to_the_number_of_polls() {
    let mut polls = PollMap::new();
    assert_eq!(sum(&polls.stats()), polls.len());
    for step in 0..60usize {
        polls.insert(ALL[(step * 7) % 5]);
        assert_eq!(sum(&polls.stats()), polls.len());
        polls.update(step / 2, ALL[(step * 3) % 5]);
        assert_eq!(sum(&polls.stats()), polls.len());
        polls.update(step + 10, ALL[step % 5]);
        assert_eq!(sum(&polls.stats()), polls.len());
    }
    assert_eq!(polls.len(), 60);
}

#[test]
fn stats_do_not_change_the_registry() {
    let mut polls = PollMap::new();
    polls.insert(PollData::Started);
    polls.insert(PollData::Done);
    let first = polls.stats();
    let second = polls.stats();
    assert_eq!(first, second);
    assert_eq!(polls.len(), 2);
    assert_eq!(polls.get(0), Some(PollData::Started));
    assert_eq!(polls.get(1), Some(PollData::Done));
}

#[test]
fn insert_update_stats_scenario() {
    let mut polls = PollMap::new();
    assert_eq!(polls.insert(PollData::NotStarted), 0);
    assert_eq!(polls.insert(PollData::Started), 1);
    assert_eq!(polls.stats(), stats_of(0, 1, 1, 0, 0));
    assert!(polls.update(0, PollData::Done));
    assert_eq!(polls.stats(), stats_of(0, 0, 1, 1, 0));
    assert!(!polls.update(5, PollData::Done));
    assert_eq!(polls.get(5), None);
}

#[test]
fn launched_registry_is_empty() {
    let mut polls = rocket();
    assert_eq!(polls.len(), 0);
    assert_eq!(polls.stats(), stats_of(0, 0, 0, 0, 0));
    assert_eq!(polls.insert(PollData::Done), 0);
}
