//! The health prober's bookkeeping: recording probe results to the
//! upstream set and publishing them as gauge values.
//!
//! The probes themselves (a TCP connect with a bounded timeout, run once
//! per interval for every backend) are transport work done by the caller;
//! a probe failure is expected steady-state behaviour, so these functions
//! record results and never fail.

use crate::metrics::MetricsRegistry;
use crate::upstreams::{UpstreamModel, UpstreamSet};
use vstd::prelude::*;

verus! {

/// Records one resolved probe: backend `i` is marked per `success` as of
/// `now`, and the same result is published to its gauge series.  Nothing
/// else changes; in particular no counter moves.
pub fn apply_probe_result(
    set: &mut UpstreamSet,
    metrics: &mut MetricsRegistry,
    i: usize,
    success: bool,
    now: u64,
)
    requires
        i < old(set)@.len(),
        i < old(metrics).upstreams@.len(),
    ensures
        final(set)@ == old(set)@.update(
            i as int,
            UpstreamModel {
                address: old(set)@[i as int].address,
                weight: old(set)@[i as int].weight,
                healthy: success,
                last_checked: now as nat,
            },
        ),
        old(set).wf() ==> final(set).wf(),
        final(metrics).upstreams@.len() == old(metrics).upstreams@.len(),
        final(metrics).upstreams@[i as int].healthy == success,
        final(metrics).upstreams@[i as int].address@ == old(metrics).upstreams@[i as int].address@,
        forall|k: int|
            0 <= k < old(metrics).upstreams@.len() && k != i ==> #[trigger] final(metrics).upstreams@[k]
                == old(metrics).upstreams@[k],
        final(metrics).requests_total == old(metrics).requests_total,
        final(metrics).errors_total == old(metrics).errors_total,
        final(metrics).hist_buckets == old(metrics).hist_buckets,
        final(metrics).hist_sum_micros == old(metrics).hist_sum_micros,
        final(metrics).hist_count == old(metrics).hist_count,
        old(metrics).wf() ==> final(metrics).wf(),
{
    set.mark_health(i, success, now);
    metrics.set_upstream_status(i, success);
}

/// Records one whole probe cycle: result `results[i]` for backend `i`,
/// all as of `now`.  Each backend's result is independent; one failed
/// probe never keeps another backend's result from being recorded.
pub fn apply_probe_cycle(
    set: &mut UpstreamSet,
    metrics: &mut MetricsRegistry,
    results: &Vec<bool>,
    now: u64,
)
    requires
        results@.len() == old(set)@.len(),
        old(metrics).upstreams@.len() == old(set)@.len(),
    ensures
        final(set)@.len() == old(set)@.len(),
        forall|i: int|
            0 <= i < old(set)@.len() ==> #[trigger] final(set)@[i] == (UpstreamModel {
                address: old(set)@[i].address,
                weight: old(set)@[i].weight,
                healthy: results@[i],
                last_checked: now as nat,
            }),
        old(set).wf() ==> final(set).wf(),
        final(metrics).upstreams@.len() == old(metrics).upstreams@.len(),
        forall|i: int|
            0 <= i < old(metrics).upstreams@.len() ==> (#[trigger] final(metrics).upstreams@[i]).healthy
                == results@[i] && final(metrics).upstreams@[i].address@ == old(
                metrics,
            ).upstreams@[i].address@,
        final(metrics).requests_total == old(metrics).requests_total,
        final(metrics).errors_total == old(metrics).errors_total,
        final(metrics).hist_buckets == old(metrics).hist_buckets,
        final(metrics).hist_sum_micros == old(metrics).hist_sum_micros,
        final(metrics).hist_count == old(metrics).hist_count,
        old(metrics).wf() ==> final(metrics).wf(),
{
    let n = results.len();
    let mut i: usize = 0;
    while i < n
        invariant
            i <= n,
            n == results@.len(),
            set@.len() == old(set)@.len(),
            n == old(set)@.len(),
            metrics.upstreams@.len() == old(metrics).upstreams@.len(),
            n == old(metrics).upstreams@.len(),
            forall|k: int|
                0 <= k < i ==> #[trigger] set@[k] == (UpstreamModel {
                    address: old(set)@[k].address,
                    weight: old(set)@[k].weight,
                    healthy: results@[k],
                    last_checked: now as nat,
                }),
            forall|k: int| i <= k < n ==> #[trigger] set@[k] == old(set)@[k],
            forall|k: int|
                0 <= k < i ==> (#[trigger] metrics.upstreams@[k]).healthy == results@[k]
                    && metrics.upstreams@[k].address@ == old(metrics).upstreams@[k].address@,
            forall|k: int|
                i <= k < n ==> #[trigger] metrics.upstreams@[k] == old(metrics).upstreams@[k],
            metrics.requests_total == old(metrics).requests_total,
            metrics.errors_total == old(metrics).errors_total,
            metrics.hist_buckets == old(metrics).hist_buckets,
            metrics.hist_sum_micros == old(metrics).hist_sum_micros,
            metrics.hist_count == old(metrics).hist_count,
            old(set).wf() ==> set.wf(),
            old(metrics).wf() ==> metrics.wf(),
        decreases n - i,
    {
        let result = results[i];
        apply_probe_result(set, metrics, i, result, now);
        i = i + 1;
    }
}

} // verus!
