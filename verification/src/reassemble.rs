//! Deterministic reordering of the fetched records.
//!
//! Fetches complete out of order; reassembly recovers the chronological
//! by-window order. The contract pins the output completely: it is in
//! ascending `sequence_index` order, and the records of each window keep
//! the order in which they arrived — a stable sort by window.

use vstd::prelude::*;
use crate::record::TaggedRecord;

verus! {

/// Whether the records stand in ascending window order.
pub open spec fn sorted_by_index(s: Seq<TaggedRecord>) -> bool {
    forall|i: int, j: int|
        0 <= i < j < s.len() ==> (#[trigger] s[i]).sequence_index
            <= (#[trigger] s[j]).sequence_index
}

/// The records of the window with sequence index `k`, in the order they
/// stand in `s`.
pub open spec fn with_index(s: Seq<TaggedRecord>, k: usize) -> Seq<TaggedRecord>
    decreases s.len(),
{
    if s.len() == 0 {
        Seq::empty()
    } else if s.first().sequence_index == k {
        seq![s.first()] + with_index(s.drop_first(), k)
    } else {
        with_index(s.drop_first(), k)
    }
}

/// What reassembly produces from `input`: as many records as came in, in
/// ascending window order, each window's records kept in arrival order.
pub open spec fn is_reassembly(input: Seq<TaggedRecord>, output: Seq<TaggedRecord>) -> bool {
    &&& sorted_by_index(output)
    &&& output.len() == input.len()
    &&& forall|k: usize| #[trigger] with_index(output, k) == with_index(input, k)
}

pub(crate) proof fn lemma_with_index_add(a: Seq<TaggedRecord>, b: Seq<TaggedRecord>, k: usize)
    ensures
        with_index(a + b, k) == with_index(a, k) + with_index(b, k),
    decreases a.len(),
{
    if a.len() == 0 {
        assert(a + b =~= b);
        assert(with_index(a, k) + with_index(b, k) =~= with_index(b, k));
    } else {
        lemma_with_index_add(a.drop_first(), b, k);
        assert((a + b).drop_first() =~= a.drop_first() + b);
        assert((a + b).first() == a.first());
        if a.first().sequence_index == k {
            assert(seq![a.first()] + (with_index(a.drop_first(), k) + with_index(b, k)) =~= (seq![
                a.first(),
            ] + with_index(a.drop_first(), k)) + with_index(b, k));
        }
    }
}

proof fn lemma_with_index_singleton(x: TaggedRecord, k: usize)
    ensures
        with_index(seq![x], k) == if x.sequence_index == k {
            seq![x]
        } else {
            Seq::<TaggedRecord>::empty()
        },
{
    let s = seq![x];
    assert(s.first() == x);
    assert(s.drop_first() =~= Seq::<TaggedRecord>::empty());
    assert(with_index(s.drop_first(), k) == Seq::<TaggedRecord>::empty());
    if x.sequence_index == k {
        assert(with_index(s, k) == seq![x] + Seq::<TaggedRecord>::empty());
        assert(seq![x] + Seq::<TaggedRecord>::empty() =~= seq![x]);
    } else {
        assert(with_index(s, k) == with_index(s.drop_first(), k));
    }
}

pub(crate) proof fn lemma_with_index_none(s: Seq<TaggedRecord>, k: usize)
    requires
        forall|i: int| 0 <= i < s.len() ==> (#[trigger] s[i]).sequence_index != k,
    ensures
        with_index(s, k) == Seq::<TaggedRecord>::empty(),
    decreases s.len(),
{
    if s.len() == 0 {
    } else {
        assert(s.first() == s[0]);
        assert forall|i: int| 0 <= i < s.drop_first().len() implies (#[trigger] s.drop_first()[i]).sequence_index
            != k by {
            assert(s.drop_first()[i] == s[i + 1]);
        }
        lemma_with_index_none(s.drop_first(), k);
    }
}

pub(crate) proof fn lemma_with_index_all(s: Seq<TaggedRecord>, k: usize)
    requires
        forall|i: int| 0 <= i < s.len() ==> (#[trigger] s[i]).sequence_index == k,
    ensures
        with_index(s, k) == s,
    decreases s.len(),
{
    if s.len() == 0 {
        assert(with_index(s, k) =~= s);
    } else {
        assert(s.first() == s[0]);
        assert forall|i: int| 0 <= i < s.drop_first().len() implies (#[trigger] s.drop_first()[i]).sequence_index
            == k by {
            assert(s.drop_first()[i] == s[i + 1]);
        }
        lemma_with_index_all(s.drop_first(), k);
        assert(seq![s.first()] + s.drop_first() =~= s);
    }
}

proof fn lemma_with_index_member(s: Seq<TaggedRecord>, k: usize)
    requires
        with_index(s, k).len() > 0,
    ensures
        exists|i: int| 0 <= i < s.len() && (#[trigger] s[i]).sequence_index == k,
    decreases s.len(),
{
    if s.len() == 0 {
    } else if s.first().sequence_index == k {
        assert(s[0] == s.first());
        assert(0 <= 0 < s.len() && s[0].sequence_index == k);
    } else {
        lemma_with_index_member(s.drop_first(), k);
        let i0 = choose|i: int|
            0 <= i < s.drop_first().len() && (#[trigger] s.drop_first()[i]).sequence_index == k;
        assert(s[i0 + 1] == s.drop_first()[i0]);
    }
}

/// Reassembly is deterministic: two sequences in ascending window order
/// that agree on every window's records are the same sequence. So any two
/// procedures meeting the reassembly contract return the same output.
pub proof fn lemma_reassembly_deterministic(a: Seq<TaggedRecord>, b: Seq<TaggedRecord>)
    requires
        sorted_by_index(a),
        sorted_by_index(b),
        forall|k: usize| #[trigger] with_index(a, k) == with_index(b, k),
    ensures
        a == b,
    decreases a.len(),
{
    if a.len() == 0 && b.len() == 0 {
        assert(a =~= b);
    } else if a.len() == 0 {
        let kb = b.first().sequence_index;
        assert(with_index(b, kb).len() > 0);
        assert(with_index(a, kb).len() == 0);
        assert(false);
    } else if b.len() == 0 {
        let ka = a.first().sequence_index;
        assert(with_index(a, ka).len() > 0);
        assert(with_index(b, ka).len() == 0);
        assert(false);
    } else {
        let ka = a.first().sequence_index;
        let kb = b.first().sequence_index;
        if ka < kb {
            assert(with_index(a, ka).len() > 0);
            lemma_with_index_member(b, ka);
            let i = choose|i: int| 0 <= i < b.len() && (#[trigger] b[i]).sequence_index == ka;
            assert(b[0] == b.first());
            assert(false);
        }
        if kb < ka {
            assert(with_index(b, kb).len() > 0);
            lemma_with_index_member(a, kb);
            let i = choose|i: int| 0 <= i < a.len() && (#[trigger] a[i]).sequence_index == kb;
            assert(a[0] == a.first());
            assert(false);
        }
        assert(ka == kb);
        assert(with_index(a, ka).first() == a.first());
        assert(with_index(b, ka).first() == b.first());
        assert(a.first() == b.first());
        let a1 = a.drop_first();
        let b1 = b.drop_first();
        assert forall|i: int, j: int| 0 <= i < j < a1.len() implies (#[trigger] a1[i]).sequence_index
            <= (#[trigger] a1[j]).sequence_index by {
            assert(a1[i] == a[i + 1]);
            assert(a1[j] == a[j + 1]);
        }
        assert forall|i: int, j: int| 0 <= i < j < b1.len() implies (#[trigger] b1[i]).sequence_index
            <= (#[trigger] b1[j]).sequence_index by {
            assert(b1[i] == b[i + 1]);
            assert(b1[j] == b[j + 1]);
        }
        assert forall|k: usize| #[trigger] with_index(a1, k) == with_index(b1, k) by {
            if k == ka {
                assert(with_index(a, k) == seq![a.first()] + with_index(a1, k));
                assert(with_index(b, k) == seq![b.first()] + with_index(b1, k));
                assert(with_index(a1, k) =~= (seq![a.first()] + with_index(a1, k)).drop_first());
                assert(with_index(b1, k) =~= (seq![b.first()] + with_index(b1, k)).drop_first());
            } else {
                assert(with_index(a, k) == with_index(a1, k));
                assert(with_index(b, k) == with_index(b1, k));
            }
        }
        lemma_reassembly_deterministic(a1, b1);
        assert forall|i: int| 0 <= i < a.len() implies a[i] == b[i] by {
            if i == 0 {
                assert(a[0] == a.first());
                assert(b[0] == b.first());
            } else {
                assert(a[i] == a1[i - 1]);
                assert(b[i] == b1[i - 1]);
            }
        }
        assert(a =~= b);
    }
}

/// Reassembly is idempotent: reassembling what one pass produced returns
/// it unchanged, because a second pass's output must again be in ascending
/// window order with the same per-window records.
pub proof fn lemma_reassembly_idempotent(
    input: Seq<TaggedRecord>,
    once: Seq<TaggedRecord>,
    twice: Seq<TaggedRecord>,
)
    requires
        is_reassembly(input, once),
        is_reassembly(once, twice),
    ensures
        twice == once,
{
    lemma_reassembly_deterministic(twice, once);
}

/// Sorts the collected records into ascending window order, stably: the
/// records of one window keep the order in which they arrived.
pub fn reassemble(records: Vec<TaggedRecord>) -> (out: Vec<TaggedRecord>)
    ensures
        is_reassembly(records@, out@),
{
    let ghost input = records@;
    let mut remaining = records;
    let mut out: Vec<TaggedRecord> = Vec::new();
    proof {
        assert forall|k: usize| #[trigger] with_index(input, k) == with_index(out@, k)
            + with_index(remaining@, k) by {
            assert(with_index(out@, k) + with_index(input, k) =~= with_index(input, k));
        }
    }
    while remaining.len() > 0
        invariant
            out@.len() + remaining@.len() == input.len(),
            sorted_by_index(out@),
            forall|k: usize| #[trigger] with_index(input, k) == with_index(out@, k) + with_index(
                remaining@,
                k,
            ),
            forall|p: int, q: int|
                0 <= p < out@.len() && 0 <= q < remaining@.len() ==> (#[trigger] out@[p]).sequence_index
                    <= (#[trigger] remaining@[q]).sequence_index,
        decreases remaining@.len(),
    {
        let ghost r0 = remaining@;
        let ghost out0 = out@;
        let mut m: usize = 0;
        let mut i: usize = 1;
        while i < remaining.len()
            invariant
                remaining@ == r0,
                r0.len() > 0,
                m < i <= r0.len(),
                forall|j: int|
                    0 <= j < i ==> r0[m as int].sequence_index
                        <= (#[trigger] r0[j]).sequence_index,
                forall|j: int|
                    0 <= j < m ==> r0[m as int].sequence_index < (#[trigger] r0[j]).sequence_index,
            decreases r0.len() - i,
        {
            if remaining[i].sequence_index < remaining[m].sequence_index {
                m = i;
            }
            i = i + 1;
        }
        let ghost m0 = m as int;
        let x = remaining.remove(m);
        out.push(x);
        proof {
            let k0 = x.sequence_index;
            let aa = r0.subrange(0, m0);
            let bb = r0.subrange(m0 + 1, r0.len() as int);
            assert(remaining@ =~= aa + bb);
            assert(r0 =~= aa + (seq![x] + bb));
            assert(out@ =~= out0 + seq![x]);
            assert forall|k: usize| #[trigger] with_index(input, k) == with_index(out@, k)
                + with_index(remaining@, k) by {
                lemma_with_index_add(aa, seq![x] + bb, k);
                lemma_with_index_add(seq![x], bb, k);
                lemma_with_index_singleton(x, k);
                lemma_with_index_add(aa, bb, k);
                lemma_with_index_add(out0, seq![x], k);
                assert(with_index(input, k) == with_index(out0, k) + with_index(r0, k));
                if k == k0 {
                    assert forall|t: int| 0 <= t < aa.len() implies (#[trigger] aa[t]).sequence_index
                        != k0 by {
                        assert(aa[t] == r0[t]);
                    }
                    lemma_with_index_none(aa, k0);
                    assert(with_index(r0, k) == Seq::<TaggedRecord>::empty() + (seq![x]
                        + with_index(bb, k)));
                    assert(with_index(out0, k) + (Seq::<TaggedRecord>::empty() + (seq![x]
                        + with_index(bb, k))) =~= (with_index(out0, k) + seq![x]) + (Seq::<
                        TaggedRecord,
                    >::empty() + with_index(bb, k)));
                } else {
                    assert(with_index(seq![x], k) =~= Seq::<TaggedRecord>::empty());
                    assert(with_index(out0, k) + (with_index(aa, k) + (Seq::<
                        TaggedRecord,
                    >::empty() + with_index(bb, k))) =~= (with_index(out0, k) + Seq::<
                        TaggedRecord,
                    >::empty()) + (with_index(aa, k) + with_index(bb, k)));
                }
            }
            assert forall|p: int, q: int|
                0 <= p < out@.len() && 0 <= q < remaining@.len() implies (#[trigger] out@[p]).sequence_index
                <= (#[trigger] remaining@[q]).sequence_index by {
                let rq = remaining@[q];
                if q < m0 {
                    assert(rq == r0[q]);
                } else {
                    assert(rq == r0[q + 1]);
                }
                if p < out0.len() {
                    assert(out@[p] == out0[p]);
                } else {
                    assert(out@[p] == x);
                }
            }
            assert forall|p: int, q: int| 0 <= p < q < out@.len() implies (#[trigger] out@[p]).sequence_index
                <= (#[trigger] out@[q]).sequence_index by {
                if q < out0.len() {
                    assert(out@[p] == out0[p]);
                    assert(out@[q] == out0[q]);
                } else {
                    assert(out@[q] == x);
                    if p < out0.len() {
                        assert(out@[p] == out0[p]);
                        assert(out0[p].sequence_index <= r0[m0].sequence_index);
                    }
                }
            }
        }
    }
    proof {
        assert forall|k: usize| #[trigger] with_index(out@, k) == with_index(records@, k) by {
            assert(with_index(input, k) == with_index(out@, k) + with_index(remaining@, k));
            assert(with_index(remaining@, k) =~= Seq::<TaggedRecord>::empty());
            assert(with_index(out@, k) + Seq::<TaggedRecord>::empty() =~= with_index(out@, k));
        }
    }
    out
}

} // verus!
