use vstd::prelude::*;

use crate::station_time::{records_view, StationTime};

verus! {

/// The records of `recs` whose write succeeded, in order: the first `n`
/// records, each kept when `written` holds `true` at its index.
pub open spec fn kept_prefix(
    recs: Seq<(Seq<char>, int)>,
    written: Seq<bool>,
    n: int,
) -> Seq<(Seq<char>, int)>
    decreases n,
{
    if n <= 0 {
        Seq::empty()
    } else {
        let rest = kept_prefix(recs, written, n - 1);
        if n - 1 < written.len() && written[n - 1] {
            rest.push(recs[n - 1])
        } else {
            rest
        }
    }
}

/// The records that storage actually wrote: those whose outcome in
/// `written` is `true`. A record without an outcome counts as not written.
pub open spec fn written_records(
    recs: Seq<(Seq<char>, int)>,
    written: Seq<bool>,
) -> Seq<(Seq<char>, int)> {
    kept_prefix(recs, written, recs.len() as int)
}

fn keep_written(stations: &Vec<StationTime>, written: &Vec<bool>) -> (r: Vec<StationTime>)
    ensures
        records_view(r@) == written_records(records_view(stations@), written@),
{
    let ghost rv = records_view(stations@);
    let mut result: Vec<StationTime> = Vec::new();
    let mut i: usize = 0;
    while i < stations.len()
        invariant
            rv == records_view(stations@),
            i <= stations@.len(),
            records_view(result@) == kept_prefix(rv, written@, i as int),
        decreases stations@.len() - i,
    {
        if i < written.len() && written[i] {
            let c = stations[i].clone();
            let ghost before = result@;
            result.push(c);
            assert(records_view(result@) =~= records_view(before).push(c@));
        }
        i = i + 1;
    }
    result
}

/// The persisted records, from the rows that storage returned: each a
/// station name and its last-modified time in epoch seconds.
pub fn get_stations(rows: &Vec<(String, i64)>) -> (r: Vec<StationTime>)
    ensures
        r@.len() == rows@.len(),
        forall|i: int|
            0 <= i < rows@.len() ==> #[trigger] r@[i]@ == (rows@[i].0@, rows@[i].1 as int),
{
    let mut result: Vec<StationTime> = Vec::new();
    let mut i: usize = 0;
    while i < rows.len()
        invariant
            i <= rows@.len(),
            result@.len() == i,
            forall|k: int|
                0 <= k < i ==> #[trigger] result@[k]@ == (rows@[k].0@, rows@[k].1 as int),
        decreases rows@.len() - i,
    {
        let (name, time) = &rows[i];
        result.push(StationTime::new(name.clone(), *time));
        i = i + 1;
    }
    result
}

/// The created records: those of `stations_to_create` whose insert
/// succeeded, as `written` reports per record. A failed insert drops that
/// record only.
pub fn create_stations(stations_to_create: &Vec<StationTime>, written: &Vec<bool>) -> (r: Vec<
    StationTime,
>)
    ensures
        records_view(r@) == written_records(records_view(stations_to_create@), written@),
{
    keep_written(stations_to_create, written)
}

/// The updated records: those of `stations_to_update` whose update
/// succeeded, as `written` reports per record. A failed update drops that
/// record only.
pub fn update_stations(stations_to_update: &Vec<StationTime>, written: &Vec<bool>) -> (r: Vec<
    StationTime,
>)
    ensures
        records_view(r@) == written_records(records_view(stations_to_update@), written@),
{
    keep_written(stations_to_update, written)
}

} // verus!
