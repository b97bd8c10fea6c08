//! The process-wide metrics registry: request and error counters, the
//! request-latency histogram and the per-upstream health gauge.
//!
//! Counters only ever increment, the gauge is only set, and the histogram
//! only observes; nothing resets short of process restart.  Rendering is a
//! read-only snapshot in a plain text exposition format.

use crate::text::{dec_rep, dec_rep_padded, push_dec, push_dec_padded};
use vstd::prelude::*;

verus! {

/// One health gauge series: a backend address and its last published
/// result (healthy = 1, unhealthy = 0).
pub struct UpstreamGauge {
    pub address: String,
    pub healthy: bool,
}

/// The number of histogram buckets, the last one unbounded.
pub open spec fn bucket_count() -> int {
    12
}

/// The upper boundary, in microseconds, of histogram bucket `j` (the
/// boundaries run from five milliseconds to ten seconds); the last bucket
/// has no boundary.
pub open spec fn bucket_bound_micros(j: int) -> nat {
    if j == 0 {
        5000
    } else if j == 1 {
        10000
    } else if j == 2 {
        25000
    } else if j == 3 {
        50000
    } else if j == 4 {
        100000
    } else if j == 5 {
        250000
    } else if j == 6 {
        500000
    } else if j == 7 {
        1000000
    } else if j == 8 {
        2500000
    } else if j == 9 {
        5000000
    } else {
        10000000
    }
}

/// Whether an observation of `micros` falls into bucket `j` (buckets are
/// cumulative: an observation falls into every bucket at or above its
/// boundary, and always into the unbounded last one).
pub open spec fn bucket_le(j: int, micros: nat) -> bool {
    j == bucket_count() - 1 || micros <= bucket_bound_micros(j)
}

/// The metrics registry.  One per process, constructed at startup and
/// handed to the pipeline and the prober; every update is monotone.
pub struct MetricsRegistry {
    pub requests_total: u64,
    pub errors_total: u64,
    pub hist_buckets: Vec<u64>,
    pub hist_sum_micros: u64,
    pub hist_count: u64,
    pub upstreams: Vec<UpstreamGauge>,
}

impl MetricsRegistry {
    /// Validity: twelve cumulative (hence monotone) bucket counts, the
    /// unbounded bucket equal to the total observation count.
    pub open spec fn wf(&self) -> bool {
        &&& self.hist_buckets@.len() == bucket_count()
        &&& forall|j: int, k: int|
            0 <= j <= k < bucket_count() ==> #[trigger] self.hist_buckets@[j]
                <= #[trigger] self.hist_buckets@[k]
        &&& self.hist_buckets@[bucket_count() - 1] == self.hist_count
    }

    /// A fresh registry: zero traffic, every gauge series published as
    /// healthy (fail-open startup, matching the upstream set).
    pub fn new(addresses: Vec<String>) -> (r: MetricsRegistry)
        ensures
            r.wf(),
            r.requests_total == 0,
            r.errors_total == 0,
            r.hist_sum_micros == 0,
            r.hist_count == 0,
            forall|j: int| 0 <= j < bucket_count() ==> #[trigger] r.hist_buckets@[j] == 0,
            r.upstreams@.len() == addresses@.len(),
            forall|i: int|
                0 <= i < addresses@.len() ==> (#[trigger] r.upstreams@[i]).address@
                    == addresses@[i]@ && r.upstreams@[i].healthy == true,
    {
        let mut buckets: Vec<u64> = Vec::new();
        let mut j: usize = 0;
        while j < 12
            invariant
                j <= 12,
                buckets@.len() == j,
                forall|k: int| 0 <= k < j ==> #[trigger] buckets@[k] == 0,
            decreases 12 - j,
        {
            buckets.push(0);
            j = j + 1;
        }
        let mut gauges: Vec<UpstreamGauge> = Vec::new();
        let n = addresses.len();
        let mut i: usize = 0;
        while i < n
            invariant
                i <= n,
                n == addresses@.len(),
                gauges@.len() == i,
                forall|k: int|
                    0 <= k < i ==> (#[trigger] gauges@[k]).address@ == addresses@[k]@
                        && gauges@[k].healthy == true,
            decreases n - i,
        {
            let addr = addresses[i].clone();
            gauges.push(UpstreamGauge { address: addr, healthy: true });
            i = i + 1;
        }
        let reg = MetricsRegistry {
            requests_total: 0,
            errors_total: 0,
            hist_buckets: buckets,
            hist_sum_micros: 0,
            hist_count: 0,
            upstreams: gauges,
        };
        proof {
            assert forall|k: int| 0 <= k < addresses@.len() implies (#[trigger] reg.upstreams@[k]).address@
                == addresses@[k]@ && reg.upstreams@[k].healthy == true by {
                assert(gauges@[k].address@ == addresses@[k]@);
                assert(gauges@[k].healthy == true);
            }
        }
        reg
    }

    /// Counts one completed request.
    pub fn inc_requests(&mut self)
        requires
            old(self).requests_total < u64::MAX,
        ensures
            final(self).requests_total == old(self).requests_total + 1,
            final(self).errors_total == old(self).errors_total,
            final(self).hist_buckets == old(self).hist_buckets,
            final(self).hist_sum_micros == old(self).hist_sum_micros,
            final(self).hist_count == old(self).hist_count,
            final(self).upstreams == old(self).upstreams,
            old(self).wf() ==> final(self).wf(),
    {
        self.requests_total = self.requests_total + 1;
    }

    /// Counts one failed request.
    pub fn inc_errors(&mut self)
        requires
            old(self).errors_total < u64::MAX,
        ensures
            final(self).errors_total == old(self).errors_total + 1,
            final(self).requests_total == old(self).requests_total,
            final(self).hist_buckets == old(self).hist_buckets,
            final(self).hist_sum_micros == old(self).hist_sum_micros,
            final(self).hist_count == old(self).hist_count,
            final(self).upstreams == old(self).upstreams,
            old(self).wf() ==> final(self).wf(),
    {
        self.errors_total = self.errors_total + 1;
    }

    /// Observes one end-to-end request latency, in microseconds, into the
    /// histogram: the observation lands in every bucket whose boundary it
    /// does not exceed, and in the sum and count.
    pub fn observe_micros(&mut self, micros: u64)
        requires
            old(self).wf(),
            old(self).hist_count < u64::MAX,
            old(self).hist_sum_micros + micros <= u64::MAX,
        ensures
            final(self).wf(),
            final(self).hist_count == old(self).hist_count + 1,
            final(self).hist_sum_micros == old(self).hist_sum_micros + micros,
            final(self).hist_buckets@.len() == bucket_count(),
            forall|j: int|
                0 <= j < bucket_count() ==> #[trigger] final(self).hist_buckets@[j]
                    == old(self).hist_buckets@[j] + if bucket_le(j, micros as nat) {
                    1nat
                } else {
                    0nat
                },
            final(self).requests_total == old(self).requests_total,
            final(self).errors_total == old(self).errors_total,
            final(self).upstreams == old(self).upstreams,
    {
        let mut j: usize = 0;
        while j < 12
            invariant
                j <= 12,
                old(self).wf(),
                old(self).hist_count < u64::MAX,
                self.hist_buckets@.len() == bucket_count(),
                forall|k: int|
                    j <= k < bucket_count() ==> #[trigger] self.hist_buckets@[k]
                        == old(self).hist_buckets@[k],
                forall|k: int|
                    0 <= k < j ==> #[trigger] self.hist_buckets@[k] == old(self).hist_buckets@[k]
                        + if bucket_le(k, micros as nat) {
                        1nat
                    } else {
                        0nat
                    },
                self.requests_total == old(self).requests_total,
                self.errors_total == old(self).errors_total,
                self.hist_sum_micros == old(self).hist_sum_micros,
                self.hist_count == old(self).hist_count,
                self.upstreams == old(self).upstreams,
            decreases 12 - j,
        {
            let hit = if j == 11 {
                true
            } else {
                micros <= bucket_bound(j)
            };
            proof {
                assert(hit == bucket_le(j as int, micros as nat));
                assert(old(self).hist_buckets@[j as int] <= old(self).hist_buckets@[
                    bucket_count() - 1]);
            }
            if hit {
                let b = self.hist_buckets[j];
                self.hist_buckets.set(j, b + 1);
            }
            j = j + 1;
        }
        self.hist_sum_micros = self.hist_sum_micros + micros;
        self.hist_count = self.hist_count + 1;
        proof {
            assert forall|a: int, b: int|
                0 <= a <= b < bucket_count() implies #[trigger] self.hist_buckets@[a]
                <= #[trigger] self.hist_buckets@[b] by {
                assert(bucket_le(a, micros as nat) ==> bucket_le(b, micros as nat));
            }
        }
    }


    /// Renders the whole registry as one text snapshot: counter lines,
    /// bucket lines, the histogram sum (in seconds) and count, and one
    /// gauge line per upstream.  Reading the snapshot mutates nothing.
    pub fn render(&self) -> (r: String)
        requires
            self.wf(),
        ensures
            r@ == render_text(self),
    {
        let ghost counters = counters_text(
            self.requests_total as nat,
            self.errors_total as nat,
        );
        let mut out = String::new();
        out.append("requests_total ");
        push_dec(&mut out, self.requests_total);
        out.append("\n");
        out.append("errors_total ");
        push_dec(&mut out, self.errors_total);
        out.append("\n");
        proof {
            assert(out@ =~= counters);
        }
        let mut j: usize = 0;
        while j < 12
            invariant
                j <= 12,
                self.wf(),
                counters == counters_text(self.requests_total as nat, self.errors_total as nat),
                out@ == counters + bucket_lines_upto(self.hist_buckets@, j as int),
            decreases 12 - j,
        {
            out.append("request_processing_time_bucket{le=\"");
            out.append(bucket_label_str(j));
            out.append("\"} ");
            push_dec(&mut out, self.hist_buckets[j]);
            out.append("\n");
            proof {
                assert(bucket_lines_upto(self.hist_buckets@, j + 1) == bucket_lines_upto(
                    self.hist_buckets@,
                    j as int,
                ) + bucket_line(j as int, self.hist_buckets@[j as int] as nat));
                assert(out@ =~= counters + bucket_lines_upto(self.hist_buckets@, j + 1));
            }
            j = j + 1;
        }
        let ghost head = counters + bucket_lines_upto(self.hist_buckets@, bucket_count());
        out.append("request_processing_time_sum ");
        push_dec(&mut out, self.hist_sum_micros / 1000000);
        out.append(".");
        push_dec_padded(&mut out, self.hist_sum_micros % 1000000, 6);
        out.append("\n");
        out.append("request_processing_time_count ");
        push_dec(&mut out, self.hist_count);
        out.append("\n");
        proof {
            assert(out@ =~= head + histogram_tail_text(
                self.hist_sum_micros as nat,
                self.hist_count as nat,
            ));
        }
        let ghost head2 = head + histogram_tail_text(
            self.hist_sum_micros as nat,
            self.hist_count as nat,
        );
        let n = self.upstreams.len();
        let mut i: usize = 0;
        while i < n
            invariant
                i <= n,
                n == self.upstreams@.len(),
                out@ == head2 + gauge_lines_upto(self.upstreams@, i as int),
            decreases n - i,
        {
            out.append("upstreams_status{upstream=\"");
            out.append(self.upstreams[i].address.as_str());
            out.append("\"} ");
            if self.upstreams[i].healthy {
                out.append("1");
            } else {
                out.append("0");
            }
            out.append("\n");
            proof {
                assert(gauge_lines_upto(self.upstreams@, i + 1) == gauge_lines_upto(
                    self.upstreams@,
                    i as int,
                ) + gauge_line(self.upstreams@[i as int].address@, self.upstreams@[i as int].healthy));
                assert(out@ =~= head2 + gauge_lines_upto(self.upstreams@, i + 1));
            }
            i = i + 1;
        }
        proof {
            assert(out@ =~= render_text(self));
        }
        out
    }

    /// Publishes one probe result to the gauge series of backend `i`.
    pub fn set_upstream_status(&mut self, i: usize, healthy: bool)
        requires
            i < old(self).upstreams@.len(),
        ensures
            final(self).upstreams@.len() == old(self).upstreams@.len(),
            final(self).upstreams@[i as int].address@ == old(self).upstreams@[i as int].address@,
            final(self).upstreams@[i as int].healthy == healthy,
            forall|k: int|
                0 <= k < old(self).upstreams@.len() && k != i ==> #[trigger] final(self).upstreams@[k]
                    == old(self).upstreams@[k],
            final(self).requests_total == old(self).requests_total,
            final(self).errors_total == old(self).errors_total,
            final(self).hist_buckets == old(self).hist_buckets,
            final(self).hist_sum_micros == old(self).hist_sum_micros,
            final(self).hist_count == old(self).hist_count,
            old(self).wf() ==> final(self).wf(),
    {
        let addr = self.upstreams[i].address.clone();
        self.upstreams.set(i, UpstreamGauge { address: addr, healthy });
    }
}

/// The boundary of bucket `j`, for the eleven bounded buckets.
fn bucket_bound(j: usize) -> (r: u64)
    requires
        j < 11,
    ensures
        r as nat == bucket_bound_micros(j as int),
{
    if j == 0 {
        5000
    } else if j == 1 {
        10000
    } else if j == 2 {
        25000
    } else if j == 3 {
        50000
    } else if j == 4 {
        100000
    } else if j == 5 {
        250000
    } else if j == 6 {
        500000
    } else if j == 7 {
        1000000
    } else if j == 8 {
        2500000
    } else if j == 9 {
        5000000
    } else {
        10000000
    }
}

/// The two counter lines of the rendered snapshot.
pub open spec fn counters_text(requests: nat, errors: nat) -> Seq<char> {
    "requests_total "@ + dec_rep(requests) + "\n"@ + "errors_total "@ + dec_rep(errors) + "\n"@
}

/// The boundary label of histogram bucket `j`, in seconds.
pub open spec fn bucket_label(j: int) -> Seq<char> {
    if j == 0 {
        "0.005"@
    } else if j == 1 {
        "0.01"@
    } else if j == 2 {
        "0.025"@
    } else if j == 3 {
        "0.05"@
    } else if j == 4 {
        "0.1"@
    } else if j == 5 {
        "0.25"@
    } else if j == 6 {
        "0.5"@
    } else if j == 7 {
        "1"@
    } else if j == 8 {
        "2.5"@
    } else if j == 9 {
        "5"@
    } else if j == 10 {
        "10"@
    } else {
        "+Inf"@
    }
}

/// One rendered bucket line.
pub open spec fn bucket_line(j: int, c: nat) -> Seq<char> {
    "request_processing_time_bucket{le=\""@ + bucket_label(j) + "\"} "@ + dec_rep(c) + "\n"@
}

/// The first `n` rendered bucket lines.
pub open spec fn bucket_lines_upto(buckets: Seq<u64>, n: int) -> Seq<char>
    decreases n,
{
    if n <= 0 {
        Seq::empty()
    } else {
        bucket_lines_upto(buckets, n - 1) + bucket_line(n - 1, buckets[n - 1] as nat)
    }
}

/// The histogram sum (seconds, six fractional digits) and count lines.
pub open spec fn histogram_tail_text(sum_micros: nat, count: nat) -> Seq<char> {
    "request_processing_time_sum "@ + dec_rep(sum_micros / 1000000) + "."@ + dec_rep_padded(
        sum_micros % 1000000,
        6,
    ) + "\n"@ + "request_processing_time_count "@ + dec_rep(count) + "\n"@
}

/// One rendered gauge line: 1 for a healthy upstream, 0 otherwise.
pub open spec fn gauge_line(address: Seq<char>, healthy: bool) -> Seq<char> {
    "upstreams_status{upstream=\""@ + address + "\"} "@ + (if healthy {
        "1"@
    } else {
        "0"@
    }) + "\n"@
}

/// The first `n` rendered gauge lines.
pub open spec fn gauge_lines_upto(gs: Seq<UpstreamGauge>, n: int) -> Seq<char>
    decreases n,
{
    if n <= 0 {
        Seq::empty()
    } else {
        gauge_lines_upto(gs, n - 1) + gauge_line(gs[n - 1].address@, gs[n - 1].healthy)
    }
}

/// The full rendered snapshot of a registry.
pub open spec fn render_text(m: &MetricsRegistry) -> Seq<char> {
    counters_text(m.requests_total as nat, m.errors_total as nat) + bucket_lines_upto(
        m.hist_buckets@,
        bucket_count(),
    ) + histogram_tail_text(m.hist_sum_micros as nat, m.hist_count as nat) + gauge_lines_upto(
        m.upstreams@,
        m.upstreams@.len() as int,
    )
}

/// The boundary label of bucket `j`, in seconds.
fn bucket_label_str(j: usize) -> (r: &'static str)
    requires
        j < 12,
    ensures
        r@ == bucket_label(j as int),
{
    if j == 0 {
        "0.005"
    } else if j == 1 {
        "0.01"
    } else if j == 2 {
        "0.025"
    } else if j == 3 {
        "0.05"
    } else if j == 4 {
        "0.1"
    } else if j == 5 {
        "0.25"
    } else if j == 6 {
        "0.5"
    } else if j == 7 {
        "1"
    } else if j == 8 {
        "2.5"
    } else if j == 9 {
        "5"
    } else if j == 10 {
        "10"
    } else {
        "+Inf"
    }
}

} // verus!
