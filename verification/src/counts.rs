//! How often each event of a career has been triggered.

use hashbrown::HashMap;
use vstd::prelude::*;

verus! {

/// Trigger counts by event id, held in a `hashbrown` map.
///
/// Nothing is known of the inside of a value; `recorded_counts` names what it holds.
#[verifier::external_body]
#[derive(Debug, PartialEq)]
pub struct EventCounts {
    map: HashMap<u32, u32>,
}

/// The counts that the map holds: an event that was never triggered has no entry.
pub uninterp spec fn recorded_counts(counts: EventCounts) -> Map<u32, u32>;

impl View for EventCounts {
    type V = Map<u32, u32>;

    open spec fn view(&self) -> Map<u32, u32> {
        recorded_counts(*self)
    }
}

/// The counts of a career in which nothing has been triggered.
pub open spec fn no_counts() -> Map<u32, u32> {
    Map::empty()
}

/// How often the event was triggered, by these counts.
pub open spec fn times_in(counts: Map<u32, u32>, id: u32) -> u32 {
    if counts.contains_key(id) {
        counts[id]
    } else {
        0
    }
}

/// The counts after one more trigger of the event.
pub open spec fn with_one_more(counts: Map<u32, u32>, id: u32) -> Map<u32, u32> {
    counts.insert(id, (times_in(counts, id) + 1) as u32)
}

/// `hashbrown::HashMap::new`: the map holds nothing.
#[verifier::external_body]
fn new_map() -> (counts: EventCounts)
    ensures
        recorded_counts(counts) == no_counts(),
{
    EventCounts { map: HashMap::new() }
}

/// `hashbrown::HashMap::get`: the value under the key, or `None` where the key is absent.
#[verifier::external_body]
fn lookup(counts: &EventCounts, id: u32) -> (count: Option<u32>)
    ensures
        count == (if recorded_counts(*counts).contains_key(id) {
            Some(recorded_counts(*counts)[id])
        } else {
            None::<u32>
        }),
{
    counts.map.get(&id).copied()
}

/// Adds one to a count in place.
fn increment(count: &mut u32)
    requires
        *old(count) < u32::MAX,
    ensures
        *final(count) == *old(count) + 1,
{
    *count = *count + 1;
}

/// `hashbrown::HashMap::entry` with `Entry::and_modify` and `Entry::or_insert`: a value that
/// is there is changed by `increment`, an absent one becomes `first`; every other key
/// keeps what it had.
#[verifier::external_body]
fn modify_or_insert(counts: &mut EventCounts, id: u32, first: u32)
    requires
        recorded_counts(*old(counts)).contains_key(id) ==> recorded_counts(*old(counts))[id]
            < u32::MAX,
    ensures
        recorded_counts(*final(counts)) == recorded_counts(*old(counts)).insert(
            id,
            if recorded_counts(*old(counts)).contains_key(id) {
                (recorded_counts(*old(counts))[id] + 1) as u32
            } else {
                first
            },
        ),
{
    counts.map.entry(id).and_modify(increment).or_insert(first);
}

/// `Clone` of `hashbrown::HashMap`: the copy holds the same counts.
#[verifier::external_body]
fn copy_map(counts: &EventCounts) -> (copy: EventCounts)
    ensures
        recorded_counts(copy) == recorded_counts(*counts),
{
    EventCounts { map: counts.map.clone() }
}

impl EventCounts {
    /// Counts of a career in which nothing has been triggered.
    pub fn new() -> (counts: Self)
        ensures
            counts@ == no_counts(),
    {
        new_map()
    }

    /// How often the event was triggered; zero where it never was.
    pub fn times(&self, id: u32) -> (count: u32)
        ensures
            count == times_in(self@, id),
    {
        match lookup(self, id) {
            Some(count) => count,
            None => 0,
        }
    }

    /// Counts one more trigger of the event.
    pub fn record(&mut self, id: u32)
        requires
            times_in(old(self)@, id) < u32::MAX,
        ensures
            final(self)@ == with_one_more(old(self)@, id),
    {
        modify_or_insert(self, id, 1);
    }
}

impl Clone for EventCounts {
    fn clone(&self) -> (copy: Self)
        ensures
            copy@ == self@,
    {
        copy_map(self)
    }
}

impl Default for EventCounts {
    fn default() -> (counts: Self)
        ensures
            counts@ == no_counts(),
    {
        EventCounts::new()
    }
}

} // verus!
