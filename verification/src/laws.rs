//! Laws that relate the registry's operations to one another.
//!
//! They are stated over the maps that the operations' contracts speak of,
//! so each of them holds of every registry and every call.

use vstd::prelude::*;
use vstd::set_lib::lemma_set_disjoint_lens;
use crate::registry::{inserted, next_id, updated, well_numbered, ID};
use crate::stats::{count_of, polls_with};
use crate::status::PollData;

verus! {

/// The polls after the statuses in `statuses` have been inserted into
/// `start`, one after the other.
pub open spec fn after_inserts(start: Map<ID, PollData>, statuses: Seq<PollData>) -> Map<
    ID,
    PollData,
>
    decreases statuses.len(),
{
    if statuses.len() == 0 {
        start
    } else {
        inserted(after_inserts(start, statuses.drop_last()), statuses.last())
    }
}

/// Inserting into a registry that has room for one more identifier gives a
/// registry again, larger by one poll.
pub proof fn lemma_insert_keeps_numbering(polls: Map<ID, PollData>, status: PollData)
    requires
        well_numbered(polls),
        polls.len() < usize::MAX,
    ensures
        well_numbered(inserted(polls, status)),
        inserted(polls, status).len() == polls.len() + 1,
        !polls.contains_key(next_id(polls)),
{
    assert(inserted(polls, status).dom() =~= polls.dom().insert(next_id(polls)));
}

/// An update never adds or removes an identifier: whether or not poll `id`
/// exists, the registry has the same identifiers and the same size after it.
pub proof fn lemma_update_keeps_ids(polls: Map<ID, PollData>, id: ID, status: PollData)
    ensures
        updated(polls, id, status).dom() == polls.dom(),
        updated(polls, id, status).len() == polls.len(),
        well_numbered(polls) ==> well_numbered(updated(polls, id, status)),
{
    assert(updated(polls, id, status).dom() =~= polls.dom());
}

/// Starting from a registry `start`, the insert that follows `n` earlier
/// inserts returns the identifier `start.len() + n`, and the registry then
/// holds that many polls, numbered without a gap.
pub proof fn lemma_inserts_number_consecutively(
    start: Map<ID, PollData>,
    statuses: Seq<PollData>,
    n: int,
)
    requires
        well_numbered(start),
        0 <= n <= statuses.len(),
        start.len() + n <= usize::MAX,
    ensures
        next_id(after_inserts(start, statuses.take(n))) == start.len() + n,
        after_inserts(start, statuses.take(n)).len() == start.len() + n,
        well_numbered(after_inserts(start, statuses.take(n))),
    decreases n,
{
    let prefix = statuses.take(n);
    if n > 0 {
        lemma_inserts_number_consecutively(start, statuses, n - 1);
        assert(prefix.drop_last() =~= statuses.take(n - 1));
        lemma_insert_keeps_numbering(after_inserts(start, statuses.take(n - 1)), prefix.last());
    }
}

/// In a registry that starts empty, the `n`-th insert (counting from zero)
/// returns `n`.
pub proof fn lemma_nth_insert_returns_n(statuses: Seq<PollData>, n: int)
    requires
        0 <= n < statuses.len(),
        n <= usize::MAX,
    ensures
        next_id(after_inserts(Map::empty(), statuses.take(n))) == n,
{
    lemma_inserts_number_consecutively(Map::empty(), statuses, n);
}

/// After `statuses.len()` inserts into an empty registry, the identifiers
/// handed out are exactly the numbers below `statuses.len()`, each once, and
/// poll `i` holds the `i`-th status.
pub proof fn lemma_inserts_cover_prefix(statuses: Seq<PollData>)
    requires
        statuses.len() <= usize::MAX,
    ensures
        after_inserts(Map::empty(), statuses).len() == statuses.len(),
        forall|id: ID|
            after_inserts(Map::empty(), statuses).contains_key(id) <==> id < statuses.len(),
        forall|id: ID|
            id < statuses.len() ==> after_inserts(Map::empty(), statuses)[id]
                == statuses[id as int],
    decreases statuses.len(),
{
    lemma_inserts_number_consecutively(Map::empty(), statuses, statuses.len() as int);
    assert(statuses.take(statuses.len() as int) =~= statuses);
    if statuses.len() > 0 {
        let earlier = statuses.drop_last();
        lemma_inserts_cover_prefix(earlier);
        lemma_inserts_number_consecutively(Map::empty(), earlier, earlier.len() as int);
        assert(earlier.take(earlier.len() as int) =~= earlier);
    }
}

/// Reading a poll right after it was inserted gives the status it was
/// inserted with.
pub proof fn lemma_get_after_insert(polls: Map<ID, PollData>, status: PollData)
    ensures
        inserted(polls, status).get(next_id(polls)) == Some(status),
{
}

/// An insert leaves every poll that was there before as it was.
pub proof fn lemma_insert_keeps_others(polls: Map<ID, PollData>, status: PollData, id: ID)
    requires
        well_numbered(polls),
        polls.contains_key(id),
    ensures
        inserted(polls, status).get(id) == polls.get(id),
{
}

/// Reading a poll right after a successful update gives the new status.
pub proof fn lemma_get_after_update(polls: Map<ID, PollData>, id: ID, status: PollData)
    requires
        polls.contains_key(id),
    ensures
        updated(polls, id, status).get(id) == Some(status),
{
}

/// An update leaves every other poll as it was.
pub proof fn lemma_update_keeps_others(
    polls: Map<ID, PollData>,
    id: ID,
    status: PollData,
    other: ID,
)
    requires
        other != id,
    ensures
        updated(polls, id, status).get(other) == polls.get(other),
{
}

/// An update of a poll that does not exist changes nothing.
pub proof fn lemma_update_of_missing_poll(polls: Map<ID, PollData>, id: ID, status: PollData)
    requires
        !polls.contains_key(id),
    ensures
        updated(polls, id, status) == polls,
        updated(polls, id, status).len() == polls.len(),
{
}

/// The five counts add up to the number of polls.
pub proof fn lemma_counts_sum_to_len(polls: Map<ID, PollData>)
    requires
        polls.dom().finite(),
    ensures
        count_of(polls, PollData::NoWebtech) + count_of(polls, PollData::NotStarted) + count_of(
            polls,
            PollData::Started,
        ) + count_of(polls, PollData::Done) + count_of(polls, PollData::DoneWebtech)
            == polls.len(),
{
    let a = polls_with(polls, PollData::NoWebtech);
    let b = polls_with(polls, PollData::NotStarted);
    let c = polls_with(polls, PollData::Started);
    let d = polls_with(polls, PollData::Done);
    let e = polls_with(polls, PollData::DoneWebtech);
    assert(a.subset_of(polls.dom()) && b.subset_of(polls.dom()) && c.subset_of(polls.dom())
        && d.subset_of(polls.dom()) && e.subset_of(polls.dom()));
    vstd::set_lib::lemma_len_subset(a, polls.dom());
    vstd::set_lib::lemma_len_subset(b, polls.dom());
    vstd::set_lib::lemma_len_subset(c, polls.dom());
    vstd::set_lib::lemma_len_subset(d, polls.dom());
    vstd::set_lib::lemma_len_subset(e, polls.dom());
    lemma_set_disjoint_lens(a, b);
    lemma_set_disjoint_lens(a + b, c);
    lemma_set_disjoint_lens(a + b + c, d);
    lemma_set_disjoint_lens(a + b + c + d, e);
    assert(a + b + c + d + e =~= polls.dom());
}

/// An insert raises the count of the inserted status by one and leaves the
/// other four counts as they were.
pub proof fn lemma_counts_after_insert(
    polls: Map<ID, PollData>,
    status: PollData,
    counted: PollData,
)
    requires
        well_numbered(polls),
    ensures
        count_of(inserted(polls, status), counted) == count_of(polls, counted) + (if counted
            == status {
            1nat
        } else {
            0nat
        }),
{
    let id = next_id(polls);
    let before = polls_with(polls, counted);
    let after = polls_with(inserted(polls, status), counted);
    assert(before.subset_of(polls.dom()));
    vstd::set_lib::lemma_len_subset(before, polls.dom());
    if counted == status {
        assert(after =~= before.insert(id));
    } else {
        assert(after =~= before);
    }
}

/// A successful update moves one poll from the count of its old status to
/// the count of its new status; every other count stays as it was.
pub proof fn lemma_counts_after_update(
    polls: Map<ID, PollData>,
    id: ID,
    status: PollData,
    counted: PollData,
)
    requires
        polls.dom().finite(),
        polls.contains_key(id),
    ensures
        count_of(updated(polls, id, status), counted) == count_of(polls, counted) - (if polls[id]
            == counted {
            1int
        } else {
            0int
        }) + (if status == counted {
            1int
        } else {
            0int
        }),
{
    let before = polls_with(polls, counted);
    let after = polls_with(updated(polls, id, status), counted);
    assert(before.subset_of(polls.dom()));
    vstd::set_lib::lemma_len_subset(before, polls.dom());
    if polls[id] == counted {
        if status == counted {
            assert(after =~= before);
        } else {
            assert(after =~= before.remove(id));
        }
    } else {
        if status == counted {
            assert(after =~= before.insert(id));
        } else {
            assert(after =~= before);
        }
    }
}

} // verus!
