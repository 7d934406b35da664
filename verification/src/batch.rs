//! Grouping windows into bounded fetch batches.
//!
//! One batch's fetches run concurrently; the next batch starts only after
//! the previous one has fully drained. Since no batch holds more than
//! `batch_size` windows, no more than `batch_size` fetches are ever in
//! flight together.

use vstd::prelude::*;
use crate::window::{DateWindow, WindowError};

verus! {

/// How many batches hold `n` windows, `batch_size` to a batch.
pub open spec fn batch_count_of(n: int, batch_size: int) -> int {
    (n + batch_size - 1) / batch_size
}

/// Where the batch at `index` ends: one batch past its start, clipped to
/// the number of windows.
pub open spec fn batch_end(n: int, batch_size: int, index: int) -> int {
    if (index + 1) * batch_size <= n {
        (index + 1) * batch_size
    } else {
        n
    }
}

/// Groups the windows into batches of at most `batch_size`, keeping their
/// order: batch `i` holds the windows from position `i * batch_size` up to
/// the next batch's start.
pub fn plan_batches(windows: &Vec<DateWindow>, batch_size: usize) -> (r: Result<
    Vec<Vec<DateWindow>>,
    WindowError,
>)
    ensures
        r is Err <==> batch_size == 0,
        r is Err ==> r->Err_0 == WindowError::InvalidArgument,
        r is Ok ==> {
            let b = r->Ok_0@;
            let n = windows@.len() as int;
            let size = batch_size as int;
            &&& b.len() == batch_count_of(n, size)
            &&& forall|i: int| 0 <= i < b.len() ==> (#[trigger] b[i])@.len() <= size
            &&& forall|i: int|
                0 <= i < b.len() ==> (#[trigger] b[i])@ == windows@.subrange(
                    i * size,
                    batch_end(n, size, i),
                )
        },
{
    if batch_size == 0 {
        return Err(WindowError::InvalidArgument);
    }
    let n = windows.len();
    let mut batches: Vec<Vec<DateWindow>> = Vec::new();
    if n == 0 {
        proof {
            assert(batch_count_of(0, batch_size as int) == 0) by {
                vstd::arithmetic::div_mod::lemma_basic_div(
                    batch_size as int - 1,
                    batch_size as int,
                );
            }
        }
        return Ok(batches);
    }
    let count = (n - 1) / batch_size + 1;
    proof {
        vstd::arithmetic::div_mod::lemma_fundamental_div_mod(n as int - 1, batch_size as int);
        vstd::arithmetic::div_mod::lemma_mod_bound(n as int - 1, batch_size as int);
        let q = (n as int - 1) / (batch_size as int);
        assert((q + 1) * (batch_size as int) == q * (batch_size as int) + batch_size as int)
            by (nonlinear_arith);
        assert(q * (batch_size as int) == (batch_size as int) * q) by (nonlinear_arith);
        assert(count * (batch_size as int) >= n);
        assert(count * (batch_size as int) <= n as int + batch_size as int - 1);
        assert(count == batch_count_of(n as int, batch_size as int)) by {
            let r = (n as int - 1) % (batch_size as int);
            assert(n as int + batch_size as int - 1 == (q + 1) * (batch_size as int) + r)
                by (nonlinear_arith)
                requires
                    n as int - 1 == (batch_size as int) * q + r,
            ;
            vstd::arithmetic::div_mod::lemma_fundamental_div_mod_converse(
                n as int + batch_size as int - 1,
                batch_size as int,
                q + 1,
                r,
            );
        }
    }
    let mut i: usize = 0;
    while i < count
        invariant
            1 <= batch_size,
            1 <= n == windows@.len(),
            count == batch_count_of(n as int, batch_size as int),
            count * (batch_size as int) >= n,
            count * (batch_size as int) <= n as int + batch_size as int - 1,
            1 <= count,
            i <= count,
            batches@.len() == i,
            forall|t: int| 0 <= t < i ==> (#[trigger] batches@[t])@.len() <= batch_size as int,
            forall|t: int|
                0 <= t < i ==> (#[trigger] batches@[t])@ == windows@.subrange(
                    t * (batch_size as int),
                    batch_end(n as int, batch_size as int, t),
                ),
        decreases count - i,
    {
        proof {
            assert((i as int) * (batch_size as int) <= (count as int - 1) * (batch_size as int)
                && 0 <= (i as int) * (batch_size as int) && ((i as int) + 1) * (batch_size as int)
                == (i as int) * (batch_size as int) + batch_size as int && (count as int - 1) * (
            batch_size as int) == count as int * (batch_size as int) - batch_size as int)
                by (nonlinear_arith)
                requires
                    0 <= i as int <= count as int - 1,
                    batch_size as int >= 1,
            ;
        }
        let start = i * batch_size;
        let end = if n - start > batch_size {
            start + batch_size
        } else {
            n
        };
        let mut batch: Vec<DateWindow> = Vec::new();
        let mut j = start;
        while j < end
            invariant
                start <= j <= end <= windows@.len(),
                batch@ == windows@.subrange(start as int, j as int),
            decreases end - j,
        {
            batch.push(windows[j]);
            proof {
                assert(batch@ =~= windows@.subrange(start as int, j as int + 1));
            }
            j = j + 1;
        }
        proof {
            assert(batch@ =~= windows@.subrange(
                (i as int) * (batch_size as int),
                batch_end(n as int, batch_size as int, i as int),
            ));
        }
        batches.push(batch);
        i = i + 1;
    }
    Ok(batches)
}

} // verus!
