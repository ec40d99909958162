//! Counting the polls of each status.

use std::collections::HashMap;
use vstd::prelude::*;
use vstd::set_lib::lemma_subset_equality;
use vstd::std_specs::hash::spec_hash_map_len;
use crate::registry::ID;
use crate::status::PollData;

verus! {

broadcast use vstd::std_specs::hash::group_hash_axioms;

/// The identifiers of the polls in `polls` that hold `status`.
pub open spec fn polls_with(polls: Map<ID, PollData>, status: PollData) -> Set<ID> {
    Set::new(|id: ID| polls.contains_key(id) && polls[id] == status)
}

/// How many polls in `polls` hold `status`.
pub open spec fn count_of(polls: Map<ID, PollData>, status: PollData) -> nat {
    polls_with(polls, status).len()
}

/// Among no identifiers at all, no poll holds `status`.
proof fn lemma_count_among_none(polls: Map<ID, PollData>, status: PollData)
    ensures
        Set::<ID>::empty().intersect(polls_with(polls, status)).len() == 0,
{
    assert(Set::<ID>::empty().intersect(polls_with(polls, status)) =~= Set::<ID>::empty());
}

/// Taking one more poll into account raises the count of its own status by
/// one and leaves the count of every other status as it was.
proof fn lemma_count_one_more(polls: Map<ID, PollData>, seen: Set<ID>, id: ID, status: PollData)
    requires
        seen.finite(),
        !seen.contains(id),
        polls.contains_key(id),
    ensures
        seen.insert(id).intersect(polls_with(polls, status)).len() == seen.intersect(
            polls_with(polls, status),
        ).len() + (if polls[id] == status { 1nat } else { 0nat }),
{
    let holders = polls_with(polls, status);
    if polls[id] == status {
        assert(seen.insert(id).intersect(holders) =~= seen.intersect(holders).insert(id));
    } else {
        assert(seen.insert(id).intersect(holders) =~= seen.intersect(holders));
    }
}

/// Among all identifiers of `polls`, the polls that hold `status` are all
/// the polls that hold it.
proof fn lemma_count_among_all(polls: Map<ID, PollData>, status: PollData)
    ensures
        polls.dom().intersect(polls_with(polls, status)).len() == count_of(polls, status),
{
    assert(polls.dom().intersect(polls_with(polls, status)) =~= polls_with(polls, status));
}

/// A count of polls for each status.
#[derive(Clone, Copy, Debug, PartialEq, Eq)]
pub struct PollStats {
    pub no_webtech: usize,
    pub not_started: usize,
    pub started: usize,
    pub done: usize,
    pub done_webtech: usize,
}

impl Default for PollStats {
    /// All counts zero.
    fn default() -> (stats: PollStats)
        ensures
            stats.no_webtech == 0,
            stats.not_started == 0,
            stats.started == 0,
            stats.done == 0,
            stats.done_webtech == 0,
    {
        PollStats { no_webtech: 0, not_started: 0, started: 0, done: 0, done_webtech: 0 }
    }
}

impl PollStats {
    /// The sum of the five counts.
    pub open spec fn total(self) -> int {
        self.no_webtech + self.not_started + self.started + self.done + self.done_webtech
    }

    /// Whether each count is the number of polls among `ids` that hold its
    /// status in `polls`.
    spec fn counts_among(self, polls: Map<ID, PollData>, ids: Set<ID>) -> bool {
        &&& self.no_webtech == ids.intersect(polls_with(polls, PollData::NoWebtech)).len()
        &&& self.not_started == ids.intersect(polls_with(polls, PollData::NotStarted)).len()
        &&& self.started == ids.intersect(polls_with(polls, PollData::Started)).len()
        &&& self.done == ids.intersect(polls_with(polls, PollData::Done)).len()
        &&& self.done_webtech == ids.intersect(polls_with(polls, PollData::DoneWebtech)).len()
    }

    /// Counts the polls of each status in one pass over `map`.
    pub fn from(map: &HashMap<ID, PollData>) -> (stats: PollStats)
        ensures
            stats.no_webtech == count_of(map@, PollData::NoWebtech),
            stats.not_started == count_of(map@, PollData::NotStarted),
            stats.started == count_of(map@, PollData::Started),
            stats.done == count_of(map@, PollData::Done),
            stats.done_webtech == count_of(map@, PollData::DoneWebtech),
            stats.total() == map@.len(),
    {
        let mut stats = PollStats::default();
        let ghost mut seen: Set<ID> = Set::empty();
        proof {
            assert(map@.len() == spec_hash_map_len(map));
            lemma_count_among_none(map@, PollData::NoWebtech);
            lemma_count_among_none(map@, PollData::NotStarted);
            lemma_count_among_none(map@, PollData::Started);
            lemma_count_among_none(map@, PollData::Done);
            lemma_count_among_none(map@, PollData::DoneWebtech);
        }
        for entry in it: map.iter()
            invariant
                map@.len() <= usize::MAX,
                it.seq().len() == map@.len(),
                it.seq().no_duplicates(),
                forall|j: int|
                    0 <= j < it.seq().len() ==> map@.contains_key(*#[trigger] it.seq()[j].0)
                        && map@[*it.seq()[j].0] == *it.seq()[j].1,
                seen.finite(),
                seen.len() == it.index(),
                seen.subset_of(map@.dom()),
                forall|id: ID|
                    seen.contains(id) ==> exists|j: int|
                        0 <= j < it.index() && *#[trigger] it.seq()[j].0 == id,
                stats.counts_among(map@, seen),
                stats.total() == seen.len(),
        {
            let (id, status) = entry;
            match *status {
                PollData::NoWebtech => stats.no_webtech += 1,
                PollData::NotStarted => stats.not_started += 1,
                PollData::Started => stats.started += 1,
                PollData::Done => stats.done += 1,
                PollData::DoneWebtech => stats.done_webtech += 1,
            };
            proof {
                lemma_count_one_more(map@, seen, *id, PollData::NoWebtech);
                lemma_count_one_more(map@, seen, *id, PollData::NotStarted);
                lemma_count_one_more(map@, seen, *id, PollData::Started);
                lemma_count_one_more(map@, seen, *id, PollData::Done);
                lemma_count_one_more(map@, seen, *id, PollData::DoneWebtech);
                seen = seen.insert(*id);
            }
        }
        proof {
            lemma_subset_equality(seen, map@.dom());
            lemma_count_among_all(map@, PollData::NoWebtech);
            lemma_count_among_all(map@, PollData::NotStarted);
            lemma_count_among_all(map@, PollData::Started);
            lemma_count_among_all(map@, PollData::Done);
            lemma_count_among_all(map@, PollData::DoneWebtech);
        }
        stats
    }
}

} // verus!
