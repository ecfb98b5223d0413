use vstd::prelude::*;

use crate::station_time::{records_view, StationTime};

verus! {

/// One line per record: `prefix`, the station name, a newline.
pub open spec fn notice_lines(prefix: Seq<char>, recs: Seq<(Seq<char>, int)>) -> Seq<char>
    decreases recs.len(),
{
    if recs.len() == 0 {
        Seq::empty()
    } else {
        notice_lines(prefix, recs.drop_last()) + prefix + recs.last().0 + seq!['\n']
    }
}

pub open spec fn added_prefix() -> Seq<char> {
    seq!['A', 'd', 'd', 'e', 'd', ' ']
}

pub open spec fn updated_prefix() -> Seq<char> {
    seq!['U', 'p', 'd', 'a', 't', 'e', 'd', ' ']
}

/// The summary of a cycle: an `Added <name>` line per created record, then
/// an `Updated <name>` line per updated record. Empty when both are empty.
pub open spec fn summary_text(
    created: Seq<(Seq<char>, int)>,
    updated: Seq<(Seq<char>, int)>,
) -> Seq<char> {
    notice_lines(added_prefix(), created) + notice_lines(updated_prefix(), updated)
}

fn append_lines(out: &mut String, prefix: &str, recs: &Vec<StationTime>)
    ensures
        final(out)@ == old(out)@ + notice_lines(prefix@, records_view(recs@)),
{
    let ghost start = out@;
    let ghost rv = records_view(recs@);
    proof {
        reveal_strlit("\n");
    }
    let mut i: usize = 0;
    while i < recs.len()
        invariant
            rv == records_view(recs@),
            i <= recs@.len(),
            "\n"@ == seq!['\n'],
            out@ == start + notice_lines(prefix@, rv.take(i as int)),
        decreases recs@.len() - i,
    {
        assert(rv.take(i + 1).drop_last() =~= rv.take(i as int));
        out.append(prefix);
        out.append(recs[i].station.as_str());
        out.append("\n");
        i = i + 1;
        assert(out@ =~= start + notice_lines(prefix@, rv.take(i as int)));
    }
    assert(rv.take(recs@.len() as int) =~= rv);
}

/// The human-readable summary of what a cycle created and updated, one line
/// per record, created records first.
pub fn create_email_message(stations_to_create: &Vec<StationTime>, stations_to_update: &Vec<
    StationTime,
>) -> (r: String)
    ensures
        r@ == summary_text(records_view(stations_to_create@), records_view(stations_to_update@)),
{
    let mut result = String::new();
    proof {
        reveal_strlit("Added ");
        reveal_strlit("Updated ");
    }
    assert("Added "@ =~= added_prefix());
    assert("Updated "@ =~= updated_prefix());
    append_lines(&mut result, "Added ", stations_to_create);
    append_lines(&mut result, "Updated ", stations_to_update);
    assert(result@ =~= summary_text(
        records_view(stations_to_create@),
        records_view(stations_to_update@),
    ));
    result
}

/// The summary is empty exactly when nothing was created or updated.
pub proof fn lemma_summary_empty_iff_nothing_changed(
    created: Seq<(Seq<char>, int)>,
    updated: Seq<(Seq<char>, int)>,
)
    ensures
        summary_text(created, updated).len() == 0 <==> (created.len() == 0 && updated.len() == 0),
{
    lemma_lines_empty_iff(added_prefix(), created);
    lemma_lines_empty_iff(updated_prefix(), updated);
}

proof fn lemma_lines_empty_iff(prefix: Seq<char>, recs: Seq<(Seq<char>, int)>)
    ensures
        notice_lines(prefix, recs).len() == 0 <==> recs.len() == 0,
    decreases recs.len(),
{
    if recs.len() > 0 {
        lemma_lines_empty_iff(prefix, recs.drop_last());
    }
}

} // verus!
