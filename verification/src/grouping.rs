//! Grouping annotations by the address they are attached to.

use std::collections::BTreeMap;
use itertools::Itertools;
use vstd::prelude::*;
use crate::annotations::{records_of, Annotation, Record};

verus! {

/// The records at a location, in the order in which they stand.
pub open spec fn at_location(records: Seq<Record>, location: usize) -> Seq<Record> {
    records.filter(|record: Record| record.location == location)
}

/// Whether the records stand in ascending order of location.
pub open spec fn ascending(records: Seq<Record>) -> bool {
    forall|i: int, j: int|
        0 <= i < j < records.len() ==> (#[trigger] records[i]).location <= (
        #[trigger] records[j]).location
}

/// Whether the group is a run: at least one record, each at the group's
/// location.
pub open spec fn is_run(group: (usize, Seq<Record>)) -> bool {
    &&& group.1.len() > 0
    &&& forall|j: int| 0 <= j < group.1.len() ==> (#[trigger] group.1[j]).location == group.0
}

/// Whether the groups are runs and no two neighbours share a location.
pub open spec fn are_runs(groups: Seq<(usize, Seq<Record>)>) -> bool {
    &&& forall|i: int| 0 <= i < groups.len() ==> is_run(#[trigger] groups[i])
    &&& forall|i: int| 0 <= i < groups.len() - 1 ==> (#[trigger] groups[i]).0 != groups[i + 1].0
}

/// The records of the groups, one group behind the other.
pub open spec fn flatten(groups: Seq<(usize, Seq<Record>)>) -> Seq<Record>
    decreases groups.len(),
{
    if groups.len() == 0 {
        Seq::empty()
    } else {
        flatten(groups.drop_last()) + groups.last().1
    }
}

/// The groups as plain values.
pub open spec fn groups_of(groups: Seq<(usize, Vec<Annotation>)>) -> Seq<(usize, Seq<Record>)> {
    groups.map_values(|group: (usize, Vec<Annotation>)| (group.0, records_of(group.1@)))
}

/// Whether one of the groups has the location as its key.
pub open spec fn has_key(groups: Seq<(usize, Seq<Record>)>, location: usize) -> bool {
    exists|i: int| 0 <= i < groups.len() && (#[trigger] groups[i]).0 == location
}

/// Whether the map groups the records by location: its keys are the
/// locations at which a record stands, and each key leads to the records
/// at that location, in the order in which they stand.
pub open spec fn groups_by_location(
    map: Map<usize, Vec<Annotation>>,
    records: Seq<Record>,
) -> bool {
    forall|location: usize|
        if at_location(records, location).len() > 0 {
            map.contains_key(location) && records_of(map[location]@) == #[trigger] at_location(
                records,
                location,
            )
        } else {
            !map.contains_key(location)
        }
}

/// Calls itertools' `sorted_by_key` with the location as the key. The
/// call sorts in ascending order of the key and is stable: records with
/// one location keep their order.
#[verifier::external_body]
fn sorted_by_location(annotations: Vec<Annotation>) -> (sorted: Vec<Annotation>)
    ensures
        ascending(records_of(sorted@)),
        forall|location: usize| #[trigger]
            at_location(records_of(sorted@), location) == at_location(
                records_of(annotations@),
                location,
            ),
{
    annotations.into_iter().sorted_by_key(|annotation| annotation.location).collect()
}

/// Calls itertools' `group_by` with the location as the key. The call
/// cuts the sequence into its runs: consecutive records with one location
/// form one group, which has that location as its key.
#[verifier::external_body]
fn grouped_by_location(annotations: Vec<Annotation>) -> (groups: Vec<(usize, Vec<Annotation>)>)
    ensures
        are_runs(groups_of(groups@)),
        flatten(groups_of(groups@)) == records_of(annotations@),
{
    let runs = annotations.into_iter().group_by(|annotation| annotation.location);
    runs.into_iter().map(|(location, run)| (location, run.collect())).collect()
}

/// Of a run, the records at the run's location are the whole run, and no
/// record stands at another location.
proof fn lemma_filter_run(records: Seq<Record>, key: usize, location: usize)
    requires
        forall|j: int| 0 <= j < records.len() ==> (#[trigger] records[j]).location == key,
    ensures
        at_location(records, location) == if location == key {
            records
        } else {
            Seq::empty()
        },
    decreases records.len(),
{
    reveal(Seq::filter);
    if records.len() > 0 {
        lemma_filter_run(records.drop_last(), key, location);
        assert(records.drop_last().push(records.last()) =~= records);
    }
}

/// The front of a sequence of runs is a sequence of runs, and its last
/// group is a run.
proof fn lemma_front_runs(groups: Seq<(usize, Seq<Record>)>)
    requires
        are_runs(groups),
        groups.len() > 0,
    ensures
        are_runs(groups.drop_last()),
        is_run(groups.last()),
{
    let front = groups.drop_last();
    assert(is_run(groups[groups.len() - 1]));
    assert forall|i: int| 0 <= i < front.len() implies is_run(#[trigger] front[i]) by {
        assert(front[i] == groups[i]);
    }
    assert forall|i: int| 0 <= i < front.len() - 1 implies (#[trigger] front[i]).0 != front[i
        + 1].0 by {
        assert(front[i] == groups[i]);
        assert(front[i + 1] == groups[i + 1]);
    }
}

/// The front of an ascending sequence ascends.
proof fn lemma_front_ascending(head: Seq<Record>, tail: Seq<Record>)
    requires
        ascending(head + tail),
    ensures
        ascending(head),
{
    let whole = head + tail;
    assert forall|i: int, j: int| 0 <= i < j < head.len() implies (#[trigger] head[i]).location <= (
    #[trigger] head[j]).location by {
        assert(head[i] == whole[i]);
        assert(head[j] == whole[j]);
    }
}

/// Of two neighbouring runs of an ascending sequence, the second has the
/// greater key.
proof fn lemma_neighbours_ascend(
    head: Seq<Record>,
    prev: (usize, Seq<Record>),
    last: (usize, Seq<Record>),
)
    requires
        is_run(prev),
        is_run(last),
        prev.0 != last.0,
        ascending((head + prev.1) + last.1),
    ensures
        prev.0 < last.0,
{
    let whole = (head + prev.1) + last.1;
    let at = head.len() + prev.1.len() - 1;
    assert(whole[at] == prev.1[prev.1.len() - 1]);
    assert(whole[at + 1] == last.1[0]);
    assert(whole[at].location <= whole[at + 1].location);
}

/// The keys of the runs of an ascending sequence ascend strictly.
proof fn lemma_keys_ascend(groups: Seq<(usize, Seq<Record>)>)
    requires
        are_runs(groups),
        ascending(flatten(groups)),
    ensures
        forall|i: int, j: int|
            0 <= i < j < groups.len() ==> (#[trigger] groups[i]).0 < (#[trigger] groups[j]).0,
    decreases groups.len(),
{
    if groups.len() > 0 {
        let front = groups.drop_last();
        let last = groups.last();
        lemma_front_runs(groups);
        lemma_front_ascending(flatten(front), last.1);
        lemma_keys_ascend(front);
        if front.len() > 0 {
            let prev = front.last();
            lemma_front_runs(front);
            assert(prev == groups[groups.len() - 2]);
            assert(prev.0 != last.0);
            lemma_neighbours_ascend(flatten(front.drop_last()), prev, last);
        }
        assert forall|i: int, j: int| 0 <= i < j < groups.len() implies (#[trigger] groups[i]).0 < (
        #[trigger] groups[j]).0 by {
            assert(groups[i] == front[i]);
            if j < front.len() {
                assert(groups[j] == front[j]);
            } else if i < front.len() - 1 {
                assert(front[i].0 < front[front.len() - 1].0);
            }
        }
    }
}

/// The records at a location, of a sequence that ends in a run.
proof fn lemma_at_location_add(head: Seq<Record>, last: (usize, Seq<Record>), location: usize)
    requires
        is_run(last),
    ensures
        at_location(head + last.1, location) == if location == last.0 {
            at_location(head, location) + last.1
        } else {
            at_location(head, location)
        },
{
    Seq::filter_distributes_over_add(head, last.1, |record: Record| record.location == location);
    lemma_filter_run(last.1, last.0, location);
    assert(at_location(head, location) + Seq::<Record>::empty() =~= at_location(head, location));
}

/// No record of a sequence of runs stands at a location that is not the
/// key of a run.
proof fn lemma_no_key_no_record(groups: Seq<(usize, Seq<Record>)>, location: usize)
    requires
        are_runs(groups),
        !has_key(groups, location),
    ensures
        at_location(flatten(groups), location).len() == 0,
    decreases groups.len(),
{
    if groups.len() == 0 {
        lemma_filter_run(flatten(groups), 0, location);
    } else {
        let front = groups.drop_last();
        let last = groups.last();
        lemma_front_runs(groups);
        assert(groups[groups.len() - 1] == last);
        assert(!has_key(front, location)) by {
            if has_key(front, location) {
                let k = choose|k: int| 0 <= k < front.len() && (#[trigger] front[k]).0 == location;
                assert(groups[k] == front[k]);
            }
        }
        lemma_no_key_no_record(front, location);
        lemma_at_location_add(flatten(front), last, location);
    }
}

/// A run whose key no other run has holds all the records at its key.
proof fn lemma_run_holds_location(groups: Seq<(usize, Seq<Record>)>, index: int)
    requires
        are_runs(groups),
        0 <= index < groups.len(),
        forall|j: int|
            0 <= j < groups.len() && j != index ==> (#[trigger] groups[j]).0 != groups[index].0,
    ensures
        at_location(flatten(groups), groups[index].0) == groups[index].1,
    decreases groups.len(),
{
    let front = groups.drop_last();
    let last = groups.last();
    let key = groups[index].0;
    lemma_front_runs(groups);
    lemma_at_location_add(flatten(front), last, key);
    if index == groups.len() - 1 {
        assert(!has_key(front, key)) by {
            if has_key(front, key) {
                let k = choose|k: int| 0 <= k < front.len() && (#[trigger] front[k]).0 == key;
                assert(groups[k] == front[k]);
            }
        }
        lemma_no_key_no_record(front, key);
        assert(at_location(flatten(front), key) + last.1 =~= last.1);
    } else {
        assert(groups[groups.len() - 1] == last);
        assert(front[index] == groups[index]);
        assert forall|j: int| 0 <= j < front.len() && j != index implies (#[trigger] front[j]).0
            != front[index].0 by {
            assert(front[j] == groups[j]);
        }
        lemma_run_holds_location(front, index);
    }
}

/// Machine words are totally ordered, as the keys of an ordered map must
/// be.
proof fn lemma_locations_ordered()
    ensures
        vstd::laws_cmp::obeys_cmp::<usize>(),
{
    broadcast use vstd::laws_cmp::group_laws_cmp;

}

/// Collects groups with distinct keys into a map.
fn collect_groups(groups: Vec<(usize, Vec<Annotation>)>) -> (map: BTreeMap<
    usize,
    Vec<Annotation>,
>)
    requires
        forall|i: int, j: int|
            0 <= i < j < groups@.len() ==> (#[trigger] groups@[i]).0 != (#[trigger] groups@[j]).0,
    ensures
        forall|location: usize|
            map@.contains_key(location) <==> has_key(groups_of(groups@), location),
        forall|i: int|
            0 <= i < groups@.len() ==> records_of(map@[(#[trigger] groups@[i]).0]@) == groups_of(
                groups@,
            )[i].1,
{
    proof {
        lemma_locations_ordered();
    }
    let ghost all = groups@;
    let mut map: BTreeMap<usize, Vec<Annotation>> = BTreeMap::new();
    for group in iter: groups
        invariant
            iter.seq() == all,
            forall|i: int, j: int|
                0 <= i < j < all.len() ==> (#[trigger] all[i]).0 != (#[trigger] all[j]).0,
            forall|location: usize|
                map@.contains_key(location) <==> has_key(
                    groups_of(all.take(iter.index() as int)),
                    location,
                ),
            forall|i: int|
                0 <= i < iter.index() ==> map@[(#[trigger] all[i]).0] == all[i].1,
    {
        let ghost done = iter.index() as int;
        let ghost before = map@;
        assert(group == all[done]);
        map.insert(group.0, group.1);
        proof {
            let earlier = groups_of(all.take(done));
            let later = groups_of(all.take(done + 1));
            assert forall|location: usize|
                map@.contains_key(location) <==> has_key(later, location) by {
                if has_key(later, location) {
                    let i = choose|i: int|
                        0 <= i < later.len() && (#[trigger] later[i]).0 == location;
                    if i < done {
                        assert(earlier[i].0 == location);
                    }
                }
                if before.contains_key(location) {
                    let i = choose|i: int|
                        0 <= i < earlier.len() && (#[trigger] earlier[i]).0 == location;
                    assert(later[i].0 == location);
                }
                if location == group.0 {
                    assert(later[done].0 == location);
                }
            }
        }
    }
    proof {
        assert(all.take(all.len() as int) =~= all);
    }
    map
}

/// Groups annotations by location, in ascending order of location. The
/// annotations at one location keep the order in which they stand.
pub fn group_by_location(annotations: Vec<Annotation>) -> (map: BTreeMap<usize, Vec<Annotation>>)
    ensures
        groups_by_location(map@, records_of(annotations@)),
{
    let ghost records = records_of(annotations@);
    let sorted = sorted_by_location(annotations);
    let ghost ordered = records_of(sorted@);
    let groups = grouped_by_location(sorted);
    let ghost runs = groups_of(groups@);
    proof {
        lemma_keys_ascend(runs);
        assert forall|i: int, j: int| 0 <= i < j < groups@.len() implies (#[trigger] groups@[i]).0
            != (#[trigger] groups@[j]).0 by {
            assert(runs[i].0 < runs[j].0);
        }
    }
    let map = collect_groups(groups);
    proof {
        assert forall|location: usize|
            if at_location(records, location).len() > 0 {
                map@.contains_key(location) && records_of(map@[location]@)
                    == #[trigger] at_location(records, location)
            } else {
                !map@.contains_key(location)
            } by {
            assert(at_location(ordered, location) == at_location(records, location));
            if has_key(runs, location) {
                let i = choose|i: int| 0 <= i < runs.len() && (#[trigger] runs[i]).0 == location;
                assert(is_run(runs[i]));
                assert(groups@[i].0 == location);
                assert forall|j: int| 0 <= j < runs.len() && j != i implies (#[trigger] runs[j]).0
                    != runs[i].0 by {
                    if j < i {
                        assert(runs[j].0 < runs[i].0);
                    } else {
                        assert(runs[i].0 < runs[j].0);
                    }
                }
                lemma_run_holds_location(runs, i);
            } else {
                lemma_no_key_no_record(runs, location);
            }
        }
    }
    map
}

} // verus!
