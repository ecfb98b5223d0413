use vstd::prelude::*;

verus! {

/// One station's metadata file and the instant it was last modified,
/// in seconds since the Unix epoch.
#[derive(Debug)]
pub struct StationTime {
    pub station: String,
    pub time: i64,
}

impl View for StationTime {
    type V = (Seq<char>, int);

    open spec fn view(&self) -> (Seq<char>, int) {
        (self.station@, self.time as int)
    }
}

/// The abstract value of a sequence of records.
pub open spec fn records_view(v: Seq<StationTime>) -> Seq<(Seq<char>, int)> {
    v.map_values(|s: StationTime| s@)
}

impl StationTime {
    pub fn new(station: String, time: i64) -> (r: StationTime)
        ensures
            r.station@ == station@,
            r.time == time,
    {
        StationTime { station, time }
    }
}

impl Clone for StationTime {
    fn clone(&self) -> (r: StationTime)
        ensures
            r@ == self@,
    {
        StationTime { station: self.station.clone(), time: self.time }
    }
}

} // verus!
