use vstd::prelude::*;

use crate::extract::{extract_stations, first_table_rows_of, rows_stations};
use crate::reconcile::{find_stations_to_create, find_stations_to_update, to_create, to_update};
use crate::station_time::{records_view, StationTime};

verus! {

/// The listing address of a network: the base path, a `/` unless the base
/// already ends with one, then the network code.
pub open spec fn listing_url_of(base: Seq<char>, network: Seq<char>) -> Seq<char> {
    if base.len() > 0 && base.last() == '/' {
        base + network
    } else {
        base.push('/') + network
    }
}

/// The allowlist of `network` in a table of (code, allowlist) entries: that
/// of the first entry with this code, or the empty allowlist (keep all)
/// when no entry has it.
pub open spec fn lookup_allowlist(
    entries: Seq<(Seq<char>, Seq<Seq<char>>)>,
    network: Seq<char>,
) -> Seq<Seq<char>>
    decreases entries.len(),
{
    if entries.len() == 0 {
        Seq::empty()
    } else if entries[0].0 == network {
        entries[0].1
    } else {
        lookup_allowlist(entries.drop_first(), network)
    }
}

/// What one network adds to a cycle's observed records: nothing when its
/// page could not be fetched or holds no table, else its extracted records.
pub open spec fn network_contribution(
    page: Option<Seq<char>>,
    network: Seq<char>,
    allowlist: Seq<Seq<char>>,
) -> Seq<(Seq<char>, int)> {
    match page {
        None => Seq::empty(),
        Some(html) => match first_table_rows_of(html) {
            None => Seq::empty(),
            Some(rows) => rows_stations(rows, network, allowlist),
        },
    }
}

/// The address of a network's listing under `base`.
pub fn listing_url(base: &str, network: &str) -> (r: String)
    ensures
        r@ == listing_url_of(base@, network@),
{
    let mut uri = String::from_str(base);
    let n = base.unicode_len();
    if n == 0 || base.get_char(n - 1) != '/' {
        proof {
            reveal_strlit("/");
        }
        uri.append("/");
        assert(uri@ =~= base@.push('/'));
    }
    uri.append(network);
    uri
}

/// The allowlist that `entries` gives `network`, empty when it has none.
pub fn allowlist_for(entries: &Vec<(String, Vec<String>)>, network: &str) -> (r: Vec<String>)
    ensures
        r.deep_view() == lookup_allowlist(entries.deep_view(), network@),
{
    let ghost ev = entries.deep_view();
    let key = String::from_str(network);
    assert(ev.skip(0) =~= ev);
    let mut i: usize = 0;
    while i < entries.len()
        invariant
            ev == entries.deep_view(),
            key@ == network@,
            i <= entries@.len(),
            lookup_allowlist(ev, network@) == lookup_allowlist(ev.skip(i as int), network@),
        decreases entries@.len() - i,
    {
        assert(ev.skip(i as int).drop_first() =~= ev.skip(i + 1));
        assert(ev.skip(i as int)[0] == ev[i as int]);
        if entries[i].0 == key {
            let list = &entries[i].1;
            let mut r: Vec<String> = Vec::new();
            let mut k: usize = 0;
            while k < list.len()
                invariant
                    k <= list@.len(),
                    r@ =~= list@.take(k as int),
                decreases list@.len() - k,
            {
                r.push(list[k].clone());
                k = k + 1;
                assert(r@ =~= list@.take(k as int));
            }
            assert(r@ =~= list@);
            assert(r.deep_view() =~= list.deep_view());
            return r;
        }
        i = i + 1;
    }
    assert(ev.skip(i as int) =~= Seq::empty());
    Vec::new()
}

/// Adds one network's records to the cycle's observed records. `page` is
/// the fetched listing, or none when the fetch failed; a failed fetch and
/// a page without a table add nothing, and the other networks go on.
pub fn collect_network(
    observed: &mut Vec<StationTime>,
    page: Option<&str>,
    network: &str,
    allowlist: &Vec<String>,
)
    ensures
        records_view(final(observed)@) == records_view(old(observed)@) + network_contribution(
            page.deep_view(),
            network@,
            allowlist.deep_view(),
        ),
{
    let found = match page {
        None => Vec::new(),
        Some(html) => match extract_stations(html, network, allowlist) {
            Ok(v) => v,
            Err(_) => Vec::new(),
        },
    };
    let ghost start = records_view(observed@);
    let ghost fv = records_view(found@);
    let mut i: usize = 0;
    while i < found.len()
        invariant
            fv == records_view(found@),
            i <= found@.len(),
            records_view(observed@) == start + fv.take(i as int),
        decreases found@.len() - i,
    {
        let c = found[i].clone();
        let ghost before = records_view(observed@);
        observed.push(c);
        assert(records_view(observed@) =~= before.push(c@));
        i = i + 1;
        assert(records_view(observed@) =~= start + fv.take(i as int));
    }
    assert(fv.take(found@.len() as int) =~= fv);
}

/// The create-set and the update-set of a cycle, both against the same
/// snapshot of persisted records.
pub fn reconcile(persisted: &Vec<StationTime>, observed: &Vec<StationTime>) -> (r: (
    Vec<StationTime>,
    Vec<StationTime>,
))
    ensures
        records_view(r.0@) == to_create(records_view(persisted@), records_view(observed@)),
        records_view(r.1@) == to_update(records_view(persisted@), records_view(observed@)),
{
    let created = find_stations_to_create(persisted, observed);
    let updated = find_stations_to_update(persisted, observed);
    (created, updated)
}

} // verus!
