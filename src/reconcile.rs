use vstd::prelude::*;

use crate::station_time::{records_view, StationTime};
use crate::text::{chars_of, contains_chars, contains_sub};

verus! {

/// The matching policy: an observed name matches a persisted one when it
/// contains the persisted name. Storage may hold bare station codes (`ALP`)
/// while the listing carries decorated file names (`UU_ALP.xml`).
pub open spec fn name_matches(observed: Seq<char>, persisted: Seq<char>) -> bool {
    contains_sub(observed, persisted)
}

/// Some persisted record matches the observed record `o`.
pub open spec fn matched(o: (Seq<char>, int), persisted: Seq<(Seq<char>, int)>) -> bool {
    exists|j: int| 0 <= j < persisted.len() && name_matches(o.0, #[trigger] persisted[j].0)
}

/// Some persisted record matches `o` and is strictly older than it.
pub open spec fn matched_newer(o: (Seq<char>, int), persisted: Seq<(Seq<char>, int)>) -> bool {
    exists|j: int|
        0 <= j < persisted.len() && name_matches(o.0, #[trigger] persisted[j].0) && o.1
            > persisted[j].1
}

pub open spec fn unmatched_in(persisted: Seq<(Seq<char>, int)>) -> spec_fn(
    (Seq<char>, int),
) -> bool {
    |o: (Seq<char>, int)| !matched(o, persisted)
}

pub open spec fn newer_in(persisted: Seq<(Seq<char>, int)>) -> spec_fn((Seq<char>, int)) -> bool {
    |o: (Seq<char>, int)| matched_newer(o, persisted)
}

/// The create-set: everything when storage is empty, otherwise the observed
/// records that no persisted record matches, in observed order.
pub open spec fn to_create(
    persisted: Seq<(Seq<char>, int)>,
    observed: Seq<(Seq<char>, int)>,
) -> Seq<(Seq<char>, int)> {
    if persisted.len() == 0 {
        observed
    } else {
        observed.filter(unmatched_in(persisted))
    }
}

/// The update-set: the observed records that match some persisted record
/// with a strictly older time, in observed order.
pub open spec fn to_update(
    persisted: Seq<(Seq<char>, int)>,
    observed: Seq<(Seq<char>, int)>,
) -> Seq<(Seq<char>, int)> {
    observed.filter(newer_in(persisted))
}

/// The matching policy on names.
pub fn station_matches(observed: &str, persisted: &str) -> (r: bool)
    ensures
        r == name_matches(observed@, persisted@),
{
    let o = chars_of(observed);
    let p = chars_of(persisted);
    contains_chars(&o, &p)
}

/// Looks for a persisted record that matches `o`; with `newer_only`, only
/// one that `o` is strictly newer than counts.
fn find_match(persisted: &Vec<StationTime>, o: &StationTime, newer_only: bool) -> (r: bool)
    ensures
        !newer_only ==> r == matched(o@, records_view(persisted@)),
        newer_only ==> r == matched_newer(o@, records_view(persisted@)),
{
    let name = chars_of(o.station.as_str());
    let ghost pv = records_view(persisted@);
    let mut j: usize = 0;
    while j < persisted.len()
        invariant
            name@ == o.station@,
            pv == records_view(persisted@),
            j <= persisted@.len(),
            forall|k: int|
                0 <= k < j ==> !(name_matches(o@.0, #[trigger] pv[k].0) && (newer_only ==> o@.1
                    > pv[k].1)),
        decreases persisted@.len() - j,
    {
        let p = chars_of(persisted[j].station.as_str());
        if contains_chars(&name, &p) && (!newer_only || o.time > persisted[j].time) {
            assert(name_matches(o@.0, pv[j as int].0));
            return true;
        }
        j = j + 1;
    }
    false
}

proof fn lemma_filter_step(
    s: Seq<(Seq<char>, int)>,
    i: int,
    pred: spec_fn((Seq<char>, int)) -> bool,
)
    requires
        0 <= i < s.len(),
    ensures
        s.subrange(0, i + 1).filter(pred) == if pred(s[i]) {
            s.subrange(0, i).filter(pred).push(s[i])
        } else {
            s.subrange(0, i).filter(pred)
        },
{
    assert(s.subrange(0, i + 1).drop_last() =~= s.subrange(0, i));
    reveal_with_fuel(Seq::filter, 1);
}

proof fn lemma_records_push(v: Seq<StationTime>, x: StationTime)
    ensures
        records_view(v.push(x)) == records_view(v).push(x@),
{
    assert(records_view(v.push(x)) =~= records_view(v).push(x@));
}

/// The records of `observed` that storage does not know yet. With nothing in
/// storage, every observed record is new.
pub fn find_stations_to_create(
    database_stations: &Vec<StationTime>,
    sis_stations: &Vec<StationTime>,
) -> (r: Vec<StationTime>)
    ensures
        records_view(r@) == to_create(records_view(database_stations@), records_view(sis_stations@)),
{
    let ghost pv = records_view(database_stations@);
    let ghost ov = records_view(sis_stations@);
    let mut result: Vec<StationTime> = Vec::new();
    if database_stations.len() == 0 {
        let mut i: usize = 0;
        while i < sis_stations.len()
            invariant
                ov == records_view(sis_stations@),
                i <= sis_stations@.len(),
                records_view(result@) == ov.subrange(0, i as int),
            decreases sis_stations@.len() - i,
        {
            let c = sis_stations[i].clone();
            proof {
                lemma_records_push(result@, c);
            }
            result.push(c);
            i = i + 1;
            assert(records_view(result@) =~= ov.subrange(0, i as int));
        }
        assert(ov.subrange(0, sis_stations@.len() as int) =~= ov);
        return result;
    }
    let mut i: usize = 0;
    while i < sis_stations.len()
        invariant
            pv == records_view(database_stations@),
            ov == records_view(sis_stations@),
            i <= sis_stations@.len(),
            records_view(result@) == ov.subrange(0, i as int).filter(unmatched_in(pv)),
        decreases sis_stations@.len() - i,
    {
        let found = find_match(database_stations, &sis_stations[i], false);
        proof {
            lemma_filter_step(ov, i as int, unmatched_in(pv));
        }
        if !found {
            let c = sis_stations[i].clone();
            proof {
                lemma_records_push(result@, c);
            }
            result.push(c);
        }
        i = i + 1;
    }
    assert(ov.subrange(0, sis_stations@.len() as int) =~= ov);
    result
}

/// The records of `observed` that match a stored record and are strictly
/// newer than it.
pub fn find_stations_to_update(
    database_stations: &Vec<StationTime>,
    sis_stations: &Vec<StationTime>,
) -> (r: Vec<StationTime>)
    ensures
        records_view(r@) == to_update(records_view(database_stations@), records_view(sis_stations@)),
{
    let ghost pv = records_view(database_stations@);
    let ghost ov = records_view(sis_stations@);
    let mut result: Vec<StationTime> = Vec::new();
    let mut i: usize = 0;
    while i < sis_stations.len()
        invariant
            pv == records_view(database_stations@),
            ov == records_view(sis_stations@),
            i <= sis_stations@.len(),
            records_view(result@) == ov.subrange(0, i as int).filter(newer_in(pv)),
        decreases sis_stations@.len() - i,
    {
        let found = find_match(database_stations, &sis_stations[i], true);
        proof {
            lemma_filter_step(ov, i as int, newer_in(pv));
        }
        if found {
            let c = sis_stations[i].clone();
            proof {
                lemma_records_push(result@, c);
            }
            result.push(c);
        }
        i = i + 1;
    }
    assert(ov.subrange(0, sis_stations@.len() as int) =~= ov);
    result
}

/// With nothing in storage, the create-set is the whole observed sequence.
pub proof fn lemma_bootstrap_creates_all(observed: Seq<(Seq<char>, int)>)
    ensures
        to_create(Seq::empty(), observed) == observed,
{
}

/// A record is in the create-set exactly when it was observed and no
/// persisted record matches it.
pub proof fn lemma_create_membership(
    persisted: Seq<(Seq<char>, int)>,
    observed: Seq<(Seq<char>, int)>,
    o: (Seq<char>, int),
)
    ensures
        to_create(persisted, observed).contains(o) <==> (observed.contains(o) && !matched(
            o,
            persisted,
        )),
{
    if persisted.len() > 0 {
        let f = unmatched_in(persisted);
        let out = observed.filter(f);
        if out.contains(o) {
            observed.lemma_filter_contains_rev(f, o);
            let k = choose|k: int| 0 <= k < out.len() && out[k] == o;
            observed.lemma_filter_pred(f, k);
        }
        if observed.contains(o) && !matched(o, persisted) {
            let k = choose|k: int| 0 <= k < observed.len() && observed[k] == o;
            observed.lemma_filter_contains(f, k);
        }
    }
}

/// A record is in the update-set exactly when it was observed and some
/// persisted record matches it with a strictly older time; a match with an
/// equal time does not count.
pub proof fn lemma_update_membership(
    persisted: Seq<(Seq<char>, int)>,
    observed: Seq<(Seq<char>, int)>,
    o: (Seq<char>, int),
)
    ensures
        to_update(persisted, observed).contains(o) <==> (observed.contains(o) && exists|j: int|
            0 <= j < persisted.len() && name_matches(o.0, #[trigger] persisted[j].0) && o.1
                > persisted[j].1),
{
    let f = newer_in(persisted);
    let out = observed.filter(f);
    if out.contains(o) {
        observed.lemma_filter_contains_rev(f, o);
        let k = choose|k: int| 0 <= k < out.len() && out[k] == o;
        observed.lemma_filter_pred(f, k);
    }
    if observed.contains(o) && matched_newer(o, persisted) {
        let k = choose|k: int| 0 <= k < observed.len() && observed[k] == o;
        observed.lemma_filter_contains(f, k);
    }
}

/// Reconciliation keeps no state of its own: equal inputs give equal
/// create-sets and equal update-sets, however often it runs.
pub proof fn lemma_reconciliation_repeatable(
    persisted1: Seq<(Seq<char>, int)>,
    observed1: Seq<(Seq<char>, int)>,
    persisted2: Seq<(Seq<char>, int)>,
    observed2: Seq<(Seq<char>, int)>,
)
    requires
        persisted1 == persisted2,
        observed1 == observed2,
    ensures
        to_create(persisted1, observed1) == to_create(persisted2, observed2),
        to_update(persisted1, observed1) == to_update(persisted2, observed2),
{
}

/// No record is both created and updated: a record in the update-set
/// matches a persisted record, so it is not in the create-set. The two sets
/// need not cover the observed records (unchanged ones are in neither).
pub proof fn lemma_create_update_disjoint(
    persisted: Seq<(Seq<char>, int)>,
    observed: Seq<(Seq<char>, int)>,
    o: (Seq<char>, int),
)
    requires
        to_update(persisted, observed).contains(o),
    ensures
        !to_create(persisted, observed).contains(o),
{
    lemma_update_membership(persisted, observed, o);
    lemma_create_membership(persisted, observed, o);
    let j = choose|j: int|
        0 <= j < persisted.len() && name_matches(o.0, #[trigger] persisted[j].0) && o.1
            > persisted[j].1;
    assert(name_matches(o.0, persisted[j].0));
}

} // verus!
