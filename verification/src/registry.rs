//! The registry: a map from poll identifiers to poll statuses.

use std::collections::HashMap;
use vstd::prelude::*;
use vstd::std_specs::hash::spec_hash_map_len;
use crate::stats::{count_of, PollStats};
use crate::status::PollData;

verus! {

broadcast use vstd::std_specs::hash::group_hash_axioms;

/// The identifier of a poll. The registry assigns it; callers never pick one.
pub type ID = usize;

/// What makes a map a registry state: it holds finitely many polls, and
/// their identifiers are exactly the numbers below its size.
pub open spec fn well_numbered(polls: Map<ID, PollData>) -> bool {
    &&& polls.dom().finite()
    &&& polls.len() <= usize::MAX
    &&& forall|id: ID| polls.contains_key(id) <==> id < polls.len()
}

/// The identifier that the next inserted poll receives.
pub open spec fn next_id(polls: Map<ID, PollData>) -> ID {
    polls.len() as ID
}

/// The polls after one more poll with `status` has been inserted.
pub open spec fn inserted(polls: Map<ID, PollData>, status: PollData) -> Map<ID, PollData> {
    polls.insert(next_id(polls), status)
}

/// The polls after a request to give poll `id` the status `status`: the
/// status is replaced where the poll exists, and nothing changes where it
/// does not.
pub open spec fn updated(polls: Map<ID, PollData>, id: ID, status: PollData) -> Map<
    ID,
    PollData,
> {
    if polls.contains_key(id) {
        polls.insert(id, status)
    } else {
        polls
    }
}

/// The registry of all polls.
pub struct PollMap {
    map: HashMap<ID, PollData>,
}

impl View for PollMap {
    type V = Map<ID, PollData>;

    closed spec fn view(&self) -> Map<ID, PollData> {
        self.map@
    }
}

impl PollMap {
    #[verifier::type_invariant]
    spec fn numbered(self) -> bool {
        well_numbered(self.map@)
    }

    /// Creates a registry without polls.
    pub fn new() -> (polls: PollMap)
        ensures
            polls@ == Map::<ID, PollData>::empty(),
            well_numbered(polls@),
    {
        PollMap { map: HashMap::new() }
    }

    /// The number of polls in the registry. The polls are numbered from
    /// zero up to it.
    pub fn len(&self) -> (n: usize)
        ensures
            n == self@.len(),
            well_numbered(self@),
    {
        proof {
            use_type_invariant(self);
        }
        self.map.len()
    }

    /// Adds a poll with the given status and returns its identifier, which
    /// is the number of polls that were there before.
    pub fn insert(&mut self, status: PollData) -> (id: ID)
        ensures
            id == next_id(old(self)@),
            id == old(self)@.len(),
            !old(self)@.contains_key(id),
            final(self)@ == inserted(old(self)@, status),
            final(self)@.len() == old(self)@.len() + 1,
            well_numbered(final(self)@),
    {
        proof {
            use_type_invariant(&*self);
        }
        let mut map = HashMap::new();
        std::mem::swap(&mut map, &mut self.map);
        let id = map.len();
        map.insert(id, status);
        proof {
            let before = old(self).map@;
            assert(map@.dom() =~= before.dom().insert(id));
            assert(map@.len() == before.len() + 1);
            assert(map@.len() == spec_hash_map_len(&map));
        }
        self.map = map;
        id
    }

    /// The status of poll `id`, or `None` where there is no such poll.
    pub fn get(&self, id: ID) -> (status: Option<PollData>)
        ensures
            status == self@.get(id),
            status.is_some() == (id < self@.len()),
    {
        proof {
            use_type_invariant(self);
        }
        match self.map.get(&id) {
            Some(value) => Some(*value),
            None => None,
        }
    }

    /// Replaces the status of poll `id` and returns `true`; or, where there
    /// is no such poll, changes nothing and returns `false`.
    pub fn update(&mut self, id: ID, status: PollData) -> (found: bool)
        ensures
            found == old(self)@.contains_key(id),
            final(self)@ == updated(old(self)@, id, status),
            !found ==> final(self)@ == old(self)@,
            final(self)@.dom() == old(self)@.dom(),
            well_numbered(final(self)@),
    {
        proof {
            use_type_invariant(&*self);
        }
        if self.map.contains_key(&id) {
            let mut map = HashMap::new();
            std::mem::swap(&mut map, &mut self.map);
            map.insert(id, status);
            self.map = map;
            true
        } else {
            false
        }
    }

    /// Counts the polls of each status.
    pub fn stats(&self) -> (stats: PollStats)
        ensures
            stats.no_webtech == count_of(self@, PollData::NoWebtech),
            stats.not_started == count_of(self@, PollData::NotStarted),
            stats.started == count_of(self@, PollData::Started),
            stats.done == count_of(self@, PollData::Done),
            stats.done_webtech == count_of(self@, PollData::DoneWebtech),
            stats.total() == self@.len(),
    {
        PollStats::from(&self.map)
    }
}

/// The registry that a service holds when it is launched: one without
/// polls. It is made once and lives as long as the service does.
pub fn rocket() -> (polls: PollMap)
    ensures
        polls@ == Map::<ID, PollData>::empty(),
        well_numbered(polls@),
{
    PollMap::new()
}

} // verus!
