//! Fan-in collection of per-window fetch results.
//!
//! Each window's fetch either returns records or fails; a failure is
//! isolated to its window and contributes nothing. The collector tags
//! every record with the window it came from, in result order.

use vstd::prelude::*;
use crate::record::{StatementRecord, TaggedRecord};
use crate::reassemble::{
    is_reassembly,
    lemma_with_index_add,
    lemma_with_index_all,
    lemma_with_index_none,
    reassemble,
    with_index,
};

verus! {

/// What one window's fetch came to: records, or an isolated failure.
#[derive(Debug)]
pub enum FetchOutcome {
    Fetched(Vec<StatementRecord>),
    Failed,
}

/// The outcome of the fetch for one window, keyed by its sequence index.
#[derive(Debug)]
pub struct WindowResult {
    pub sequence_index: usize,
    pub outcome: FetchOutcome,
}

/// The given records, each tagged with the window at sequence index `k`.
pub open spec fn tag_all(k: usize, records: Seq<StatementRecord>) -> Seq<TaggedRecord>
    decreases records.len(),
{
    if records.len() == 0 {
        Seq::empty()
    } else {
        tag_all(k, records.drop_last()).push(
            TaggedRecord { sequence_index: k, record: records.last() },
        )
    }
}

/// The tagged records one window's result contributes: all of them when
/// the fetch succeeded, none when it failed.
pub open spec fn contribution(r: WindowResult) -> Seq<TaggedRecord> {
    match r.outcome {
        FetchOutcome::Fetched(records) => tag_all(r.sequence_index, records@),
        FetchOutcome::Failed => Seq::empty(),
    }
}

/// Everything a run collects: each window's contribution, in result order.
pub open spec fn collected(results: Seq<WindowResult>) -> Seq<TaggedRecord>
    decreases results.len(),
{
    if results.len() == 0 {
        Seq::empty()
    } else {
        collected(results.drop_last()) + contribution(results.last())
    }
}

proof fn lemma_tag_all_index(k: usize, records: Seq<StatementRecord>)
    ensures
        tag_all(k, records).len() == records.len(),
        forall|i: int|
            0 <= i < records.len() ==> #[trigger] tag_all(k, records)[i] == (TaggedRecord {
                sequence_index: k,
                record: records[i],
            }),
    decreases records.len(),
{
    if records.len() == 0 {
    } else {
        lemma_tag_all_index(k, records.drop_last());
    }
}

/// Collects the fetch results into one tagged sequence.
pub fn collect_results(results: &Vec<WindowResult>) -> (out: Vec<TaggedRecord>)
    ensures
        out@ == collected(results@),
{
    let mut out: Vec<TaggedRecord> = Vec::new();
    let mut i: usize = 0;
    proof {
        assert(results@.take(0) =~= Seq::<WindowResult>::empty());
    }
    while i < results.len()
        invariant
            i <= results@.len(),
            out@ == collected(results@.take(i as int)),
        decreases results@.len() - i,
    {
        let ghost out0 = out@;
        match &results[i].outcome {
            FetchOutcome::Fetched(records) => {
                let mut j: usize = 0;
                proof {
                    assert(records@.take(0) =~= Seq::<StatementRecord>::empty());
                }
                while j < records.len()
                    invariant
                        j <= records@.len(),
                        i < results@.len(),
                        results@[i as int].outcome == FetchOutcome::Fetched(*records),
                        out@ == out0 + tag_all(results@[i as int].sequence_index, records@.take(j as int)),
                        out0 == collected(results@.take(i as int)),
                    decreases records@.len() - j,
                {
                    let tagged = TaggedRecord {
                        sequence_index: results[i].sequence_index,
                        record: records[j].clone(),
                    };
                    out.push(tagged);
                    proof {
                        let k = results@[i as int].sequence_index;
                        assert(records@.take(j as int + 1).drop_last() =~= records@.take(j as int));
                        assert(records@.take(j as int + 1).last() == records@[j as int]);
                        assert(out@ =~= out0 + tag_all(k, records@.take(j as int + 1)));
                    }
                    j = j + 1;
                }
                proof {
                    assert(records@.take(records@.len() as int) =~= records@);
                }
            },
            FetchOutcome::Failed => {
                proof {
                    assert(out@ =~= out0 + contribution(results@[i as int]));
                }
            },
        }
        proof {
            assert(results@.take(i as int + 1).drop_last() =~= results@.take(i as int));
            assert(results@.take(i as int + 1).last() == results@[i as int]);
        }
        i = i + 1;
    }
    proof {
        assert(results@.take(results@.len() as int) =~= results@);
    }
    out
}

/// Collects the fetch results and reorders them into ascending window
/// order, each window's records kept in arrival order.
pub fn assemble(results: &Vec<WindowResult>) -> (out: Vec<TaggedRecord>)
    ensures
        is_reassembly(collected(results@), out@),
{
    let tagged = collect_results(results);
    reassemble(tagged)
}

proof fn lemma_collected_indices(results: Seq<WindowResult>)
    ensures
        forall|t: int|
            0 <= t < collected(results).len() ==> exists|p: int|
                0 <= p < results.len() && (#[trigger] collected(results)[t]).sequence_index
                    == results[p].sequence_index,
    decreases results.len(),
{
    if results.len() == 0 {
    } else {
        let d = results.drop_last();
        let last = results.last();
        lemma_collected_indices(d);
        assert forall|t: int| 0 <= t < collected(results).len() implies exists|p: int|
            0 <= p < results.len() && (#[trigger] collected(results)[t]).sequence_index
                == results[p].sequence_index by {
            if t < collected(d).len() {
                assert(collected(results)[t] == collected(d)[t]);
                let p0 = choose|p: int|
                    0 <= p < d.len() && (#[trigger] collected(d)[t]).sequence_index
                        == d[p].sequence_index;
                assert(d[p0] == results[p0]);
                assert(collected(results)[t].sequence_index == results[p0].sequence_index);
            } else {
                let u = t - collected(d).len();
                assert(collected(results)[t] == contribution(last)[u]);
                match last.outcome {
                    FetchOutcome::Fetched(records) => {
                        lemma_tag_all_index(last.sequence_index, records@);
                        assert(contribution(last)[u].sequence_index == last.sequence_index);
                    },
                    FetchOutcome::Failed => {},
                }
                assert(results[results.len() - 1] == last);
                assert(collected(results)[t].sequence_index == results[results.len()
                    - 1].sequence_index);
            }
        }
    }
}

proof fn lemma_collected_with_index(results: Seq<WindowResult>, i: int)
    requires
        0 <= i < results.len(),
        forall|p: int, q: int|
            0 <= p < q < results.len() ==> (#[trigger] results[p]).sequence_index
                != (#[trigger] results[q]).sequence_index,
    ensures
        with_index(collected(results), results[i].sequence_index) == contribution(results[i]),
    decreases results.len(),
{
    let d = results.drop_last();
    let last = results.last();
    let k = results[i].sequence_index;
    lemma_with_index_add(collected(d), contribution(last), k);
    if i == results.len() - 1 {
        assert(results[i] == last);
        lemma_collected_indices(d);
        assert forall|t: int| 0 <= t < collected(d).len() implies (#[trigger] collected(
            d,
        )[t]).sequence_index != k by {
            let p0 = choose|p: int|
                0 <= p < d.len() && (#[trigger] collected(d)[t]).sequence_index
                    == d[p].sequence_index;
            assert(d[p0] == results[p0]);
            assert(results[p0].sequence_index != results[results.len() - 1].sequence_index);
        }
        lemma_with_index_none(collected(d), k);
        match last.outcome {
            FetchOutcome::Fetched(records) => {
                lemma_tag_all_index(k, records@);
                lemma_with_index_all(contribution(last), k);
            },
            FetchOutcome::Failed => {
                assert(with_index(contribution(last), k) == Seq::<TaggedRecord>::empty());
            },
        }
        assert(Seq::<TaggedRecord>::empty() + with_index(contribution(last), k) =~= with_index(
            contribution(last),
            k,
        ));
    } else {
        assert(d[i] == results[i]);
        assert forall|p: int, q: int| 0 <= p < q < d.len() implies (#[trigger] d[p]).sequence_index
            != (#[trigger] d[q]).sequence_index by {
            assert(d[p] == results[p]);
            assert(d[q] == results[q]);
        }
        lemma_collected_with_index(d, i);
        assert(results[results.len() - 1] == last);
        assert(last.sequence_index != k);
        match last.outcome {
            FetchOutcome::Fetched(records) => {
                lemma_tag_all_index(last.sequence_index, records@);
                assert forall|t: int| 0 <= t < contribution(last).len() implies (#[trigger] contribution(
                    last,
                )[t]).sequence_index != k by {
                    assert(contribution(last)[t].sequence_index == last.sequence_index);
                }
                lemma_with_index_none(contribution(last), k);
            },
            FetchOutcome::Failed => {
                assert(with_index(contribution(last), k) == Seq::<TaggedRecord>::empty());
            },
        }
        assert(with_index(collected(d), k) + Seq::<TaggedRecord>::empty() =~= with_index(
            collected(d),
            k,
        ));
    }
}

/// Fault isolation: when the windows carry distinct sequence indices and
/// exactly one window's fetch failed, the reassembled output holds nothing
/// of the failed window and every other window's records in full, in
/// arrival order.
pub proof fn lemma_fault_isolation(
    results: Seq<WindowResult>,
    failed: int,
    output: Seq<TaggedRecord>,
)
    requires
        0 <= failed < results.len(),
        results[failed].outcome is Failed,
        forall|i: int|
            0 <= i < results.len() && i != failed ==> (#[trigger] results[i]).outcome is Fetched,
        forall|p: int, q: int|
            0 <= p < q < results.len() ==> (#[trigger] results[p]).sequence_index
                != (#[trigger] results[q]).sequence_index,
        is_reassembly(collected(results), output),
    ensures
        with_index(output, results[failed].sequence_index) == Seq::<TaggedRecord>::empty(),
        forall|i: int|
            0 <= i < results.len() ==> with_index(output, (#[trigger] results[i]).sequence_index)
                == contribution(results[i]),
{
    assert forall|i: int| 0 <= i < results.len() implies with_index(
        output,
        (#[trigger] results[i]).sequence_index,
    ) == contribution(results[i]) by {
        lemma_collected_with_index(results, i);
    }
    assert(contribution(results[failed]) == Seq::<TaggedRecord>::empty());
}

} // verus!
