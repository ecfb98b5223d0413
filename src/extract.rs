use vstd::prelude::*;

use crate::error::StationError;
use crate::station_time::{records_view, StationTime};
use crate::text::{chars_of, contains_chars, contains_str, contains_sub};
use crate::timestamp::{parse_timestamp, timestamp_value};

verus! {

/// The rows of the first `<table>` in an HTML text, each a sequence of cell
/// texts, as table_extract reads them; none when the text has no table.
pub uninterp spec fn first_table_rows_of(html: Seq<char>) -> Option<Seq<Seq<Seq<char>>>>;

/// The inner HTML of the first `<a>` element of an HTML fragment, as scraper
/// reads it; none when the fragment holds no anchor.
pub uninterp spec fn first_anchor_html_of(fragment: Seq<char>) -> Option<Seq<char>>;

/// Relies on table_extract's `Table::find_first`, which parses the text and
/// takes its first `<table>` element, and on iterating that table's rows
/// with `Row::as_slice`. Deterministic in the text.
#[verifier::external_body]
fn first_table_rows(html: &str) -> (r: Option<Vec<Vec<String>>>)
    ensures
        r.deep_view() == first_table_rows_of(html@),
{
    table_extract::Table::find_first(html).map(
        |t| t.iter().map(|row| row.as_slice().to_vec()).collect(),
    )
}

/// Relies on scraper's `Html::parse_fragment`, `Selector::parse("a")`,
/// `Html::select` and `ElementRef::inner_html`: the inner HTML of the first
/// anchor of the fragment. Deterministic in the fragment.
#[verifier::external_body]
fn first_anchor_html(fragment: &str) -> (r: Option<String>)
    ensures
        r.deep_view() == first_anchor_html_of(fragment@),
{
    let selector = scraper::Selector::parse("a").ok()?;
    let html = scraper::Html::parse_fragment(fragment);
    let first = html.select(&selector).next();
    first.map(|a| a.inner_html())
}

/// The text that marks a network's rows: the code followed by `_`.
pub open spec fn network_tag(network: Seq<char>) -> Seq<char> {
    network.push('_')
}

/// A row belongs to `network` when it has exactly five cells and its second
/// cell contains the network tag.
pub open spec fn in_network(row: Seq<Seq<char>>, network: Seq<char>) -> bool {
    row.len() == 5 && contains_sub(row[1], network_tag(network))
}

/// With an empty allowlist every name is kept; otherwise a name is kept
/// when it contains one of the entries.
pub open spec fn allowed(name: Seq<char>, allowlist: Seq<Seq<char>>) -> bool {
    allowlist.len() == 0 || exists|k: int|
        0 <= k < allowlist.len() && contains_sub(name, #[trigger] allowlist[k])
}

/// The record that a row of `network` yields: the anchor's inner HTML as
/// the name and the third cell's timestamp as the time. Rows of other
/// networks, rows without an anchor and rows with a bad timestamp yield none.
pub open spec fn row_station(row: Seq<Seq<char>>, network: Seq<char>) -> Option<(Seq<char>, int)> {
    if in_network(row, network) {
        match first_anchor_html_of(row[1]) {
            Some(name) => match timestamp_value(row[2]) {
                Some(t) => Some((name, t)),
                None => None,
            },
            None => None,
        }
    } else {
        None
    }
}

pub open spec fn row_record(network: Seq<char>, allowlist: Seq<Seq<char>>) -> spec_fn(
    Seq<Seq<char>>,
) -> Option<(Seq<char>, int)> {
    |row: Seq<Seq<char>>|
        match row_station(row, network) {
            Some(s) => if allowed(s.0, allowlist) {
                Some(s)
            } else {
                None
            },
            None => None,
        }
}

pub open spec fn network_row(network: Seq<char>) -> spec_fn(Seq<Seq<char>>) -> Option<
    (Seq<char>, int),
> {
    |row: Seq<Seq<char>>| row_station(row, network)
}

/// The records that a table's rows yield for `network` under `allowlist`,
/// in row order.
pub open spec fn rows_stations(
    rows: Seq<Seq<Seq<char>>>,
    network: Seq<char>,
    allowlist: Seq<Seq<char>>,
) -> Seq<(Seq<char>, int)> {
    rows.filter_map(row_record(network, allowlist))
}

/// Whether a row of cell texts belongs to `network`.
pub fn row_in_network(row: &Vec<String>, network: &str) -> (r: bool)
    ensures
        r == in_network(row.deep_view(), network@),
{
    if row.len() != 5 {
        return false;
    }
    let mut tag = chars_of(network);
    tag.push('_');
    let cell = chars_of(row[1].as_str());
    assert(row.deep_view()[1] == row@[1]@);
    contains_chars(&cell, &tag)
}

/// Whether the allowlist keeps the station `name`.
pub fn is_allowed(name: &str, allowlist: &Vec<String>) -> (r: bool)
    ensures
        r == allowed(name@, allowlist.deep_view()),
{
    if allowlist.len() == 0 {
        return true;
    }
    let ghost al = allowlist.deep_view();
    let mut k: usize = 0;
    while k < allowlist.len()
        invariant
            al == allowlist.deep_view(),
            k <= allowlist@.len(),
            forall|j: int| 0 <= j < k ==> !contains_sub(name@, #[trigger] al[j]),
        decreases allowlist@.len() - k,
    {
        if contains_str(name, allowlist[k].as_str()) {
            assert(contains_sub(name@, al[k as int]));
            return true;
        }
        k = k + 1;
    }
    false
}

/// The record for a row whose second cell's first anchor held `anchor`
/// (none when the cell has no anchor) and whose third cell reads
/// `time_text`.
pub fn station_from_parts(anchor: Option<String>, time_text: &str) -> (r: Result<
    StationTime,
    StationError,
>)
    ensures
        match anchor {
            None => r == Err::<StationTime, StationError>(StationError::MalformedRow),
            Some(name) => match timestamp_value(time_text@) {
                Some(t) => r is Ok && r->Ok_0@ == (name@, t),
                None => r == Err::<StationTime, StationError>(StationError::MalformedTimestamp),
            },
        },
{
    match anchor {
        None => Err(StationError::MalformedRow),
        Some(name) => match parse_timestamp(time_text) {
            Ok(t) => Ok(StationTime::new(name, t)),
            Err(e) => Err(e),
        },
    }
}

/// The record that one table row yields for `network` under `allowlist`.
fn row_to_station(row: &Vec<String>, network: &str, allowlist: &Vec<String>) -> (r: Option<
    StationTime,
>)
    ensures
        match r {
            Some(s) => row_record(network@, allowlist.deep_view())(row.deep_view()) == Some(s@),
            None => row_record(network@, allowlist.deep_view())(row.deep_view()) is None,
        },
{
    if !row_in_network(row, network) {
        return None;
    }
    assert(row.deep_view()[1] == row@[1]@);
    assert(row.deep_view()[2] == row@[2]@);
    let anchor = first_anchor_html(row[1].as_str());
    match station_from_parts(anchor, row[2].as_str()) {
        Ok(s) => if is_allowed(s.station.as_str(), allowlist) {
            Some(s)
        } else {
            None
        },
        Err(_) => None,
    }
}

/// The records that a table's rows yield for `network` under `allowlist`:
/// rows of other networks, rows without an anchor, rows with a bad
/// timestamp and names the allowlist rejects are skipped; the rest keep
/// their row order.
pub fn stations_from_rows(rows: &Vec<Vec<String>>, network: &str, allowlist: &Vec<String>) -> (r:
    Vec<StationTime>)
    ensures
        records_view(r@) == rows_stations(rows.deep_view(), network@, allowlist.deep_view()),
{
    let ghost rv = rows.deep_view();
    let ghost f = row_record(network@, allowlist.deep_view());
    let mut result: Vec<StationTime> = Vec::new();
    let mut i: usize = 0;
    while i < rows.len()
        invariant
            rv == rows.deep_view(),
            f == row_record(network@, allowlist.deep_view()),
            i <= rows@.len(),
            records_view(result@) == rv.take(i as int).filter_map(f),
        decreases rows@.len() - i,
    {
        proof {
            rv.lemma_filter_map_take_succ(f, i as int);
        }
        assert(rv[i as int] == rows@[i as int].deep_view());
        let found = row_to_station(&rows[i], network, allowlist);
        match found {
            Some(s) => {
                let ghost before = result@;
                result.push(s);
                assert(records_view(result@) =~= records_view(before) + seq![s@]);
            },
            None => {},
        }
        i = i + 1;
    }
    assert(rv.take(rows@.len() as int) =~= rv);
    result
}

/// The station records of `network` in the first table of an HTML listing,
/// filtered by `allowlist`, in row order; `NoTableFound` when the listing
/// has no table. Rows that fail to parse are skipped.
pub fn extract_stations(html_text: &str, network_code: &str, allowlist: &Vec<String>) -> (r:
    Result<Vec<StationTime>, StationError>)
    ensures
        match first_table_rows_of(html_text@) {
            None => r == Err::<Vec<StationTime>, StationError>(StationError::NoTableFound),
            Some(rows) => r is Ok && records_view(r->Ok_0@) == rows_stations(
                rows,
                network_code@,
                allowlist.deep_view(),
            ),
        },
{
    match first_table_rows(html_text) {
        None => Err(StationError::NoTableFound),
        Some(rows) => Ok(stations_from_rows(&rows, network_code, allowlist)),
    }
}

/// With a non-empty allowlist, every extracted name contains an entry of
/// the allowlist.
pub proof fn lemma_allowlist_respected(
    rows: Seq<Seq<Seq<char>>>,
    network: Seq<char>,
    allowlist: Seq<Seq<char>>,
    k: int,
)
    requires
        allowlist.len() > 0,
        0 <= k < rows_stations(rows, network, allowlist).len(),
    ensures
        exists|j: int|
            0 <= j < allowlist.len() && contains_sub(
                rows_stations(rows, network, allowlist)[k].0,
                #[trigger] allowlist[j],
            ),
{
    let f = row_record(network, allowlist);
    let out = rows.filter_map(f);
    assert(out.contains(out[k]));
    rows.lemma_filter_map_contains(f, out[k]);
}

/// With an empty allowlist, extraction keeps every row of the network that
/// parses.
pub proof fn lemma_empty_allowlist_keeps_network_rows(rows: Seq<Seq<Seq<char>>>, network: Seq<char>)
    ensures
        rows_stations(rows, network, Seq::empty()) == rows.filter_map(network_row(network)),
    decreases rows.len(),
{
    if rows.len() > 0 {
        lemma_empty_allowlist_keeps_network_rows(rows.drop_last(), network);
    }
}

/// A row that yields no record (it has other than five cells, carries no
/// anchor, or has a bad time) is skipped: the rows before and after it
/// yield exactly what they yield without it.
pub proof fn lemma_unreadable_row_skipped(
    before: Seq<Seq<Seq<char>>>,
    row: Seq<Seq<char>>,
    after: Seq<Seq<Seq<char>>>,
    network: Seq<char>,
    allowlist: Seq<Seq<char>>,
)
    requires
        row_station(row, network) is None,
    ensures
        rows_stations(before.push(row) + after, network, allowlist) == rows_stations(
            before,
            network,
            allowlist,
        ) + rows_stations(after, network, allowlist),
    decreases after.len(),
{
    let f = row_record(network, allowlist);
    if after.len() == 0 {
        assert(before.push(row) + after =~= before.push(row));
        assert(before.push(row).drop_last() =~= before);
        assert(rows_stations(after, network, allowlist) =~= Seq::empty());
        assert(rows_stations(before, network, allowlist) + Seq::empty() =~= rows_stations(
            before,
            network,
            allowlist,
        ));
    } else {
        lemma_unreadable_row_skipped(before, row, after.drop_last(), network, allowlist);
        let whole = before.push(row) + after;
        assert(whole.drop_last() =~= before.push(row) + after.drop_last());
        assert(whole.last() == after.last());
        let a = rows_stations(before, network, allowlist);
        let b = rows_stations(after.drop_last(), network, allowlist);
        match f(after.last()) {
            Some(x) => {
                assert(a + b + seq![x] =~= a + (b + seq![x]));
            },
            None => {},
        }
    }
}

} // verus!
