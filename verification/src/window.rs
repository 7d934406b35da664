//! Partitioning a lookback horizon into contiguous date windows.

use vstd::prelude::*;
use crate::date::{Date, day_number_to_iso, iso_date_of};

verus! {

/// One contiguous date range `[from, to)` over which a single fetch is
/// scoped, tagged with its reassembly key: a smaller `sequence_index`
/// means a more recent window.
#[derive(Clone, Copy, PartialEq, Eq, Structural, Debug)]
pub struct DateWindow {
    pub from: Date,
    pub to: Date,
    pub sequence_index: usize,
}

/// Rejection of a bad windowing configuration.
#[derive(Clone, Copy, PartialEq, Eq, Structural, Debug)]
pub enum WindowError {
    InvalidArgument,
}

/// How many windows cover a horizon: the quotient rounded up.
pub open spec fn window_count(horizon: int, window: int) -> int {
    (horizon + window - 1) / window
}

/// The exclusive upper day of the window at `index`.
pub open spec fn window_to_day(now: int, window: int, index: int) -> int {
    now - index * window
}

/// The inclusive lower day of the window at `index`: one window below its
/// upper day, clipped to the start of the horizon.
pub open spec fn window_from_day(now: int, horizon: int, window: int, index: int) -> int {
    let lower = now - horizon;
    let unclipped = now - (index + 1) * window;
    if unclipped < lower {
        lower
    } else {
        unclipped
    }
}

/// Splits the lookback period `[now - horizon_days, now)` into contiguous
/// windows of `window_days` days, most recent first; a horizon that the
/// window size does not divide gets a shorter oldest window.
///
/// The result covers the period exactly: window 0 ends at `now`, the last
/// window starts at `now - horizon_days`, each window begins where the
/// next most recent one starts, and no window is empty.
pub fn partition_windows(now: Date, horizon_days: u32, window_days: u32) -> (r: Result<
    Vec<DateWindow>,
    WindowError,
>)
    requires
        now.day as int - horizon_days as int - window_days as int >= i64::MIN as int,
    ensures
        r is Err <==> (horizon_days == 0 || window_days == 0),
        r is Err ==> r->Err_0 == WindowError::InvalidArgument,
        r is Ok ==> {
            let w = r->Ok_0@;
            let h = horizon_days as int;
            let d = window_days as int;
            &&& w.len() == window_count(h, d)
            &&& forall|i: int|
                0 <= i < w.len() ==> (#[trigger] w[i]).sequence_index == i
            &&& forall|i: int|
                0 <= i < w.len() ==> (#[trigger] w[i]).to.day == window_to_day(now.day as int, d, i)
            &&& forall|i: int|
                0 <= i < w.len() ==> (#[trigger] w[i]).from.day == window_from_day(
                    now.day as int,
                    h,
                    d,
                    i,
                )
            &&& w.len() > 0
            &&& w[0].to == now
            &&& w[w.len() - 1].from.day == now.day - h
            &&& forall|i: int| 0 <= i < w.len() - 1 ==> (#[trigger] w[i]).from == w[i + 1].to
            &&& forall|i: int| 0 <= i < w.len() ==> (#[trigger] w[i]).from.day < w[i].to.day
        },
{
    if horizon_days == 0 || window_days == 0 {
        return Err(WindowError::InvalidArgument);
    }
    let h: i64 = horizon_days as i64;
    let d: i64 = window_days as i64;
    let count_u: u64 = ((horizon_days as u64) + (window_days as u64) - 1) / (window_days as u64);
    let count: i64 = count_u as i64;
    proof {
        vstd::arithmetic::div_mod::lemma_fundamental_div_mod(h as int + d as int - 1, d as int);
        vstd::arithmetic::div_mod::lemma_mod_bound(h as int + d as int - 1, d as int);
        let x = h as int + d as int - 1;
        let dd = d as int;
        assert(count_u as int == x / dd);
        assert(x == dd * (x / dd) + x % dd);
        assert(0 <= x % dd < dd);
        assert(count as int == x / dd);
        assert(count * d == dd * (x / dd)) by (nonlinear_arith)
            requires
                count as int == x / dd,
                dd == d as int,
        ;
        assert(count * d >= h);
        assert(count * d <= h + d - 1);
        assert(count <= h) by (nonlinear_arith)
            requires
                count * d <= h + d - 1,
                d >= 1,
                h >= 1,
        ;
        assert(count >= 1) by {
            if count <= 0 {
                assert(count * d <= 0) by (nonlinear_arith)
                    requires
                        count <= 0,
                        d >= 1,
                ;
            }
        }
    }
    let mut windows: Vec<DateWindow> = Vec::new();
    let mut i: i64 = 0;
    while i < count
        invariant
            0 <= i <= count,
            1 <= d <= u32::MAX,
            1 <= h <= u32::MAX,
            count == window_count(h as int, d as int),
            count * d >= h,
            count * d <= h + d - 1,
            count <= h,
            now.day as int - h - d >= i64::MIN as int,
            windows@.len() == i,
            forall|j: int|
                0 <= j < i ==> (#[trigger] windows@[j]).sequence_index == j,
            forall|j: int|
                0 <= j < i ==> (#[trigger] windows@[j]).to.day == window_to_day(
                    now.day as int,
                    d as int,
                    j,
                ),
            forall|j: int|
                0 <= j < i ==> (#[trigger] windows@[j]).from.day == window_from_day(
                    now.day as int,
                    h as int,
                    d as int,
                    j,
                ),
        decreases count - i,
    {
        proof {
            assert(i * d >= 0 && (i + 1) * d <= count * d && i * d <= count * d)
                by (nonlinear_arith)
                requires
                    0 <= i < count,
                    d >= 1,
            ;
        }
        let to_day: i64 = now.day - i * d;
        let lower: i64 = now.day - h;
        let unclipped: i64 = now.day - (i + 1) * d;
        let from_day: i64 = if unclipped < lower {
            lower
        } else {
            unclipped
        };
        windows.push(
            DateWindow {
                from: Date { day: from_day },
                to: Date { day: to_day },
                sequence_index: i as usize,
            },
        );
        i = i + 1;
    }
    proof {
        let w = windows@;
        let hh = h as int;
        let dd = d as int;
        let nn = now.day as int;
        assert(w[0].to.day == nn);
        assert(w[0].to == now);
        assert forall|j: int| 0 <= j < w.len() - 1 implies (#[trigger] w[j]).from == w[j + 1].to by {
            assert((j + 1) * dd == j * dd + dd) by (nonlinear_arith);
            assert((j + 1) * dd <= (count - 1) * dd) by (nonlinear_arith)
                requires
                    j + 1 <= count - 1,
                    dd >= 1,
            ;
            assert((count - 1) * dd == count * dd - dd) by (nonlinear_arith);
            assert(nn - (j + 1) * dd >= nn - hh);
        }
        assert forall|j: int| 0 <= j < w.len() implies (#[trigger] w[j]).from.day < w[j].to.day by {
            assert((j + 1) * dd == j * dd + dd) by (nonlinear_arith);
            assert(j * dd <= (count - 1) * dd) by (nonlinear_arith)
                requires
                    j <= count - 1,
                    dd >= 1,
            ;
            assert((count - 1) * dd == count * dd - dd) by (nonlinear_arith);
            assert(j * dd < hh);
        }
        assert((count - 1 + 1) * dd == count * dd) by (nonlinear_arith);
        assert(w[w.len() - 1].from.day == nn - hh);
    }
    Ok(windows)
}

/// Checks the configuration surface for mutual consistency: positive sizes
/// whose batch geometry can cover the horizon.
pub fn validate_geometry(
    horizon_days: u32,
    window_days: u32,
    batch_size: u32,
    batch_count: u32,
) -> (r: bool)
    ensures
        r == (horizon_days > 0 && window_days > 0 && batch_size > 0 && batch_count > 0
            && batch_size as int * batch_count as int * window_days as int >= horizon_days as int),
{
    proof {
        assert((batch_size as int) * (batch_count as int) < 0x10000000000000000)
            by (nonlinear_arith)
            requires
                (batch_size as int) < 0x100000000,
                (batch_count as int) < 0x100000000,
        ;
    }
    let pair: u128 = (batch_size as u128) * (batch_count as u128);
    proof {
        assert((pair as int) * (window_days as int) < 0x1000000000000000000000000)
            by (nonlinear_arith)
            requires
                (pair as int) < 0x10000000000000000,
                (window_days as int) < 0x100000000,
        ;
    }
    let covered: u128 = pair * (window_days as u128);
    horizon_days > 0 && window_days > 0 && batch_size > 0 && batch_count > 0 && covered
        >= horizon_days as u128
}

/// The `from` and `to` days of a window in calendar notation, for the
/// request that scopes a fetch to it; `None` when either day lies outside
/// the range the calendar library accepts.
pub fn window_date_strings(w: &DateWindow) -> (r: Option<(String, String)>)
    ensures
        r is Some ==> r->Some_0.0@ == iso_date_of(w.from.day as int),
        r is Some ==> r->Some_0.1@ == iso_date_of(w.to.day as int),
        -3000000 <= w.from.day <= 3000000 && -3000000 <= w.to.day <= 3000000 ==> r is Some,
{
    let from_s = day_number_to_iso(&w.from);
    let to_s = day_number_to_iso(&w.to);
    match (from_s, to_s) {
        (Some(a), Some(b)) => Some((a, b)),
        _ => None,
    }
}

} // verus!
