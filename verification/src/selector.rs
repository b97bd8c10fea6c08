//! Weighted round-robin upstream selection.
//!
//! Selection follows a deterministic cyclic schedule over the healthy
//! backends: the schedule is laid out in rounds (round `r` lists, in
//! registry order, every healthy backend whose weight exceeds `r`), so a
//! backend of weight `w` occupies exactly `w` slots of the cycle and equal
//! weights rotate strictly in registry order.  The selector keeps one
//! rotation cursor; each selection reads the slot at `cursor mod cycle
//! length` and advances the cursor by one.

use crate::upstreams::{wf_entries, UpstreamModel, UpstreamSet};
use vstd::arithmetic::div_mod::{lemma_mod_add_multiples_vanish, lemma_small_mod};
use vstd::prelude::*;

verus! {

/// Reported when the registry is empty or no backend is currently healthy.
/// Callers must not retry internally; the pipeline turns it into a
/// client-facing server error.
#[derive(Clone, Copy, Debug, PartialEq, Eq, Structural)]
pub enum SelectError {
    NoHealthyUpstream,
}

/// The number of selection slots an entry occupies in one cycle: its weight
/// while it is healthy, none while it is not.
pub open spec fn eff_weight(e: UpstreamModel) -> nat {
    if e.healthy {
        e.weight
    } else {
        0
    }
}

/// The largest effective weight in the set: the number of rounds of the
/// cyclic schedule.
pub open spec fn max_eff(s: Seq<UpstreamModel>) -> nat
    decreases s.len(),
{
    if s.len() == 0 {
        0
    } else {
        let rest = max_eff(s.drop_last());
        if eff_weight(s.last()) > rest {
            eff_weight(s.last())
        } else {
            rest
        }
    }
}

/// The sum of effective weights: the length of one selection cycle.
pub open spec fn total_eff(s: Seq<UpstreamModel>) -> nat
    decreases s.len(),
{
    if s.len() == 0 {
        0
    } else {
        total_eff(s.drop_last()) + eff_weight(s.last())
    }
}

/// The indices among the first `n` entries whose effective weight exceeds
/// `r`, in registry order.
pub open spec fn round_upto(s: Seq<UpstreamModel>, r: nat, n: int) -> Seq<int>
    decreases n,
{
    if n <= 0 {
        Seq::empty()
    } else {
        round_upto(s, r, n - 1) + if eff_weight(s[n - 1]) > r {
            seq![n - 1]
        } else {
            Seq::<int>::empty()
        }
    }
}

/// Round `r` of the schedule.
pub open spec fn round(s: Seq<UpstreamModel>, r: nat) -> Seq<int> {
    round_upto(s, r, s.len() as int)
}

/// The first `k` rounds of the schedule, concatenated.
pub open spec fn sched_upto(s: Seq<UpstreamModel>, k: nat) -> Seq<int>
    decreases k,
{
    if k == 0 {
        Seq::empty()
    } else {
        sched_upto(s, (k - 1) as nat) + round(s, (k - 1) as nat)
    }
}

/// The full cyclic selection schedule of the set: one slot per unit of
/// effective weight.
pub open spec fn schedule(s: Seq<UpstreamModel>) -> Seq<int> {
    sched_upto(s, max_eff(s))
}

/// How many slots of `q` name index `i`.
pub open spec fn count_in(q: Seq<int>, i: int) -> nat
    decreases q.len(),
{
    if q.len() == 0 {
        0
    } else {
        count_in(q.drop_last(), i) + if q.last() == i {
            1nat
        } else {
            0nat
        }
    }
}

/// The index selected by the call that observes cursor value `c`.
pub open spec fn selection_at(s: Seq<UpstreamModel>, c: nat) -> int {
    schedule(s)[(c % schedule(s).len()) as int]
}

/// How many of the `len` selections with cursor values `start`,
/// `start + 1`, ... name index `i`.
pub open spec fn window_count(s: Seq<UpstreamModel>, start: nat, len: nat, i: int) -> nat
    decreases len,
{
    if len == 0 {
        0
    } else {
        (if selection_at(s, start) == i {
            1nat
        } else {
            0nat
        }) + window_count(s, (start + 1) as nat, (len - 1) as nat, i)
    }
}

proof fn lemma_count_in_concat(a: Seq<int>, b: Seq<int>, i: int)
    ensures
        count_in(a + b, i) == count_in(a, i) + count_in(b, i),
    decreases b.len(),
{
    if b.len() == 0 {
        assert(a + b =~= a);
    } else {
        assert((a + b).drop_last() =~= a + b.drop_last());
        assert((a + b).last() == b.last());
        lemma_count_in_concat(a, b.drop_last(), i);
    }
}

proof fn lemma_count_in_push(q: Seq<int>, x: int, i: int)
    ensures
        count_in(q.push(x), i) == count_in(q, i) + if x == i {
            1nat
        } else {
            0nat
        },
{
    assert(q.push(x).drop_last() =~= q);
    assert(q.push(x).last() == x);
}

proof fn lemma_count_in_singleton(x: int, i: int)
    ensures
        count_in(seq![x], i) == if x == i {
            1nat
        } else {
            0nat
        },
{
    let q = seq![x];
    assert(q.len() == 1);
    assert(count_in(q, i) == count_in(q.drop_last(), i) + if q.last() == i {
        1nat
    } else {
        0nat
    });
    assert(q.drop_last() =~= Seq::<int>::empty());
    assert(count_in(q.drop_last(), i) == 0);
    assert(q.last() == x);
}

proof fn lemma_count_round_upto(s: Seq<UpstreamModel>, r: nat, n: int, i: int)
    ensures
        count_in(round_upto(s, r, n), i) == if 0 <= i < n && eff_weight(s[i]) > r {
            1nat
        } else {
            0nat
        },
    decreases n,
{
    if n <= 0 {
    } else {
        lemma_count_round_upto(s, r, n - 1, i);
        let tail = if eff_weight(s[n - 1]) > r {
            seq![n - 1]
        } else {
            Seq::<int>::empty()
        };
        lemma_count_in_concat(round_upto(s, r, n - 1), tail, i);
        if eff_weight(s[n - 1]) > r {
            lemma_count_in_singleton(n - 1, i);
        } else {
            assert(count_in(tail, i) == 0);
        }
        assert(round_upto(s, r, n) == round_upto(s, r, n - 1) + tail);
    }
}

proof fn lemma_count_sched_upto(s: Seq<UpstreamModel>, k: nat, i: int)
    ensures
        0 <= i < s.len() ==> count_in(sched_upto(s, k), i) == if eff_weight(s[i]) <= k {
            eff_weight(s[i])
        } else {
            k
        },
        !(0 <= i < s.len()) ==> count_in(sched_upto(s, k), i) == 0,
    decreases k,
{
    if k == 0 {
    } else {
        lemma_count_sched_upto(s, (k - 1) as nat, i);
        lemma_count_in_concat(sched_upto(s, (k - 1) as nat), round(s, (k - 1) as nat), i);
        lemma_count_round_upto(s, (k - 1) as nat, s.len() as int, i);
    }
}

proof fn lemma_eff_le_max(s: Seq<UpstreamModel>, i: int)
    requires
        0 <= i < s.len(),
    ensures
        eff_weight(s[i]) <= max_eff(s),
    decreases s.len(),
{
    if i == s.len() - 1 {
    } else {
        lemma_eff_le_max(s.drop_last(), i);
        assert(s.drop_last()[i] == s[i]);
    }
}

/// Each index is named by exactly its effective weight of slots in the full
/// schedule.
pub proof fn lemma_schedule_count(s: Seq<UpstreamModel>, i: int)
    requires
        0 <= i < s.len(),
    ensures
        count_in(schedule(s), i) == eff_weight(s[i]),
{
    lemma_eff_le_max(s, i);
    lemma_count_sched_upto(s, max_eff(s), i);
}

proof fn lemma_round_upto_elems(s: Seq<UpstreamModel>, r: nat, n: int)
    ensures
        forall|k: int|
            0 <= k < round_upto(s, r, n).len() ==> {
                &&& 0 <= #[trigger] round_upto(s, r, n)[k] < n
                &&& eff_weight(s[round_upto(s, r, n)[k]]) > r
            },
    decreases n,
{
    if n <= 0 {
    } else {
        lemma_round_upto_elems(s, r, n - 1);
        let a = round_upto(s, r, n - 1);
        let t = if eff_weight(s[n - 1]) > r {
            seq![n - 1]
        } else {
            Seq::<int>::empty()
        };
        assert(round_upto(s, r, n) == a + t);
        assert forall|k: int| 0 <= k < round_upto(s, r, n).len() implies {
            &&& 0 <= #[trigger] round_upto(s, r, n)[k] < n
            &&& eff_weight(s[round_upto(s, r, n)[k]]) > r
        } by {
            if k < a.len() {
                assert(round_upto(s, r, n)[k] == a[k]);
            } else {
                assert(round_upto(s, r, n)[k] == t[k - a.len()]);
            }
        }
    }
}

proof fn lemma_sched_upto_elems(s: Seq<UpstreamModel>, k: nat)
    ensures
        forall|j: int|
            0 <= j < sched_upto(s, k).len() ==> {
                &&& 0 <= #[trigger] sched_upto(s, k)[j] < s.len()
                &&& eff_weight(s[sched_upto(s, k)[j]]) >= 1
            },
    decreases k,
{
    if k == 0 {
    } else {
        lemma_sched_upto_elems(s, (k - 1) as nat);
        lemma_round_upto_elems(s, (k - 1) as nat, s.len() as int);
        let a = sched_upto(s, (k - 1) as nat);
        let b = round(s, (k - 1) as nat);
        assert(sched_upto(s, k) == a + b);
        assert forall|j: int| 0 <= j < sched_upto(s, k).len() implies {
            &&& 0 <= #[trigger] sched_upto(s, k)[j] < s.len()
            &&& eff_weight(s[sched_upto(s, k)[j]]) >= 1
        } by {
            if j < a.len() {
                assert(sched_upto(s, k)[j] == a[j]);
            } else {
                assert(sched_upto(s, k)[j] == b[j - a.len()]);
            }
        }
    }
}

/// Every slot of the schedule names a healthy backend of the set.
pub proof fn lemma_schedule_elems(s: Seq<UpstreamModel>)
    ensures
        forall|j: int|
            0 <= j < schedule(s).len() ==> {
                &&& 0 <= #[trigger] schedule(s)[j] < s.len()
                &&& s[schedule(s)[j]].healthy
                &&& eff_weight(s[schedule(s)[j]]) >= 1
            },
{
    lemma_sched_upto_elems(s, max_eff(s));
}

proof fn lemma_count_le_len(q: Seq<int>, i: int)
    ensures
        count_in(q, i) <= q.len(),
    decreases q.len(),
{
    if q.len() > 0 {
        lemma_count_le_len(q.drop_last(), i);
    }
}

/// The schedule has slots exactly when some backend is healthy.
pub proof fn lemma_schedule_nonempty(s: Seq<UpstreamModel>)
    requires
        wf_entries(s),
    ensures
        schedule(s).len() > 0 <==> exists|i: int| 0 <= i < s.len() && #[trigger] s[i].healthy,
{
    if exists|i: int| 0 <= i < s.len() && #[trigger] s[i].healthy {
        let i = choose|i: int| 0 <= i < s.len() && #[trigger] s[i].healthy;
        lemma_schedule_count(s, i);
        lemma_count_le_len(schedule(s), i);
        assert(eff_weight(s[i]) >= 1);
    }
    if schedule(s).len() > 0 {
        lemma_schedule_elems(s);
        assert(s[schedule(s)[0]].healthy);
    }
}

spec fn sum_counts(q: Seq<int>, n: int) -> nat
    decreases n,
{
    if n <= 0 {
        0
    } else {
        sum_counts(q, n - 1) + count_in(q, n - 1)
    }
}

spec fn sum_eff(s: Seq<UpstreamModel>, n: int) -> nat
    decreases n,
{
    if n <= 0 {
        0
    } else {
        sum_eff(s, n - 1) + eff_weight(s[n - 1])
    }
}

proof fn lemma_sum_counts_push(q: Seq<int>, x: int, n: int)
    ensures
        sum_counts(q.push(x), n) == sum_counts(q, n) + if 0 <= x < n {
            1nat
        } else {
            0nat
        },
    decreases n,
{
    if n <= 0 {
    } else {
        lemma_sum_counts_push(q, x, n - 1);
        lemma_count_in_push(q, x, n - 1);
    }
}

proof fn lemma_sum_counts_empty(n: int)
    ensures
        sum_counts(Seq::<int>::empty(), n) == 0,
    decreases n,
{
    if n > 0 {
        lemma_sum_counts_empty(n - 1);
    }
}

proof fn lemma_len_is_sum_counts(q: Seq<int>, n: int)
    requires
        forall|k: int| 0 <= k < q.len() ==> 0 <= #[trigger] q[k] < n,
    ensures
        q.len() == sum_counts(q, n),
    decreases q.len(),
{
    if q.len() == 0 {
        assert(q =~= Seq::<int>::empty());
        lemma_sum_counts_empty(n);
    } else {
        assert(q =~= q.drop_last().push(q.last()));
        lemma_len_is_sum_counts(q.drop_last(), n);
        lemma_sum_counts_push(q.drop_last(), q.last(), n);
    }
}

proof fn lemma_sum_eff_prefix(s: Seq<UpstreamModel>, t: Seq<UpstreamModel>, n: int)
    requires
        forall|k: int| 0 <= k < n ==> #[trigger] s[k] == t[k],
    ensures
        sum_eff(s, n) == sum_eff(t, n),
    decreases n,
{
    if n > 0 {
        lemma_sum_eff_prefix(s, t, n - 1);
    }
}

proof fn lemma_total_eff_is_sum(s: Seq<UpstreamModel>)
    ensures
        total_eff(s) == sum_eff(s, s.len() as int),
    decreases s.len(),
{
    if s.len() > 0 {
        lemma_total_eff_is_sum(s.drop_last());
        lemma_sum_eff_prefix(s.drop_last(), s, s.len() as int - 1);
    }
}

proof fn lemma_sum_counts_eq_sum_eff(q: Seq<int>, s: Seq<UpstreamModel>, n: int)
    requires
        n <= s.len(),
        forall|i: int| 0 <= i < n ==> #[trigger] count_in(q, i) == eff_weight(s[i]),
    ensures
        sum_counts(q, n) == sum_eff(s, n),
    decreases n,
{
    if n > 0 {
        lemma_sum_counts_eq_sum_eff(q, s, n - 1);
    }
}

/// One cycle of the schedule is exactly the sum of the healthy backends'
/// weights.
pub proof fn lemma_schedule_len(s: Seq<UpstreamModel>)
    ensures
        schedule(s).len() == total_eff(s),
{
    lemma_schedule_elems(s);
    lemma_len_is_sum_counts(schedule(s), s.len() as int);
    assert forall|i: int| 0 <= i < s.len() implies #[trigger] count_in(schedule(s), i)
        == eff_weight(s[i]) by {
        lemma_schedule_count(s, i);
    }
    lemma_sum_counts_eq_sum_eff(schedule(s), s, s.len() as int);
    lemma_total_eff_is_sum(s);
}

proof fn lemma_window_extend(s: Seq<UpstreamModel>, start: nat, len: nat, i: int)
    ensures
        window_count(s, start, (len + 1) as nat, i) == window_count(s, start, len, i) + if
        selection_at(s, (start + len) as nat) == i {
            1nat
        } else {
            0nat
        },
    decreases len,
{
    if len == 0 {
        assert(window_count(s, start, 1nat, i) == (if selection_at(s, start) == i {
            1nat
        } else {
            0nat
        }) + window_count(s, (start + 1) as nat, 0nat, i));
    } else {
        lemma_window_extend(s, (start + 1) as nat, (len - 1) as nat, i);
        assert(window_count(s, start, (len + 1) as nat, i) == (if selection_at(s, start) == i {
            1nat
        } else {
            0nat
        }) + window_count(s, (start + 1) as nat, len, i));
        assert(window_count(s, start, len, i) == (if selection_at(s, start) == i {
            1nat
        } else {
            0nat
        }) + window_count(s, (start + 1) as nat, (len - 1) as nat, i));
    }
}

proof fn lemma_window_shift(s: Seq<UpstreamModel>, start: nat, i: int)
    requires
        schedule(s).len() > 0,
    ensures
        window_count(s, start, schedule(s).len(), i) == window_count(
            s,
            (start + 1) as nat,
            schedule(s).len(),
            i,
        ),
{
    let w = schedule(s).len();
    lemma_window_extend(s, (start + 1) as nat, (w - 1) as nat, i);
    lemma_mod_add_multiples_vanish(start as int, w as int);
    assert((start + w) as nat % w == start % w);
    assert(selection_at(s, (start + w) as nat) == selection_at(s, start));
}

proof fn lemma_window_base(s: Seq<UpstreamModel>, start: nat, i: int)
    requires
        schedule(s).len() > 0,
    ensures
        window_count(s, start, schedule(s).len(), i) == window_count(s, 0, schedule(s).len(), i),
    decreases start,
{
    if start > 0 {
        lemma_window_base(s, (start - 1) as nat, i);
        lemma_window_shift(s, (start - 1) as nat, i);
    }
}

proof fn lemma_window_prefix(s: Seq<UpstreamModel>, len: nat, i: int)
    requires
        len <= schedule(s).len(),
        schedule(s).len() > 0,
    ensures
        window_count(s, 0, len, i) == count_in(schedule(s).take(len as int), i),
    decreases len,
{
    if len == 0 {
        assert(schedule(s).take(0) =~= Seq::<int>::empty());
    } else {
        lemma_window_prefix(s, (len - 1) as nat, i);
        lemma_window_extend(s, 0, (len - 1) as nat, i);
        lemma_small_mod((len - 1) as nat, schedule(s).len());
        assert(selection_at(s, (len - 1) as nat) == schedule(s)[len - 1]);
        assert(schedule(s).take(len as int) =~= schedule(s).take(len as int - 1).push(
            schedule(s)[len - 1],
        ));
        lemma_count_in_push(schedule(s).take(len as int - 1), schedule(s)[len - 1], i);
    }
}

/// Weighted round-robin fairness: as long as the healthy subset is
/// non-empty and unchanged, any run of consecutive selections whose length
/// is one full cycle (the sum of the healthy backends' weights) picks each
/// backend exactly its effective weight's worth of times, wherever in the
/// rotation the run starts.
pub proof fn lemma_weighted_fairness(s: Seq<UpstreamModel>, start: nat, i: int)
    requires
        wf_entries(s),
        exists|j: int| 0 <= j < s.len() && #[trigger] s[j].healthy,
        0 <= i < s.len(),
    ensures
        schedule(s).len() == total_eff(s),
        window_count(s, start, total_eff(s), i) == eff_weight(s[i]),
{
    lemma_schedule_nonempty(s);
    lemma_schedule_len(s);
    lemma_window_base(s, start, i);
    lemma_window_prefix(s, schedule(s).len(), i);
    assert(schedule(s).take(schedule(s).len() as int) =~= schedule(s));
    lemma_schedule_count(s, i);
}

/// No stale selection: once a backend's unhealthy mark is in the set, no
/// selection made from that set returns it, wherever the cursor stands.
pub proof fn lemma_unhealthy_never_selected(s: Seq<UpstreamModel>, c: nat, i: int)
    requires
        0 <= i < s.len(),
        !s[i].healthy,
        schedule(s).len() > 0,
    ensures
        selection_at(s, c) != i,
{
    lemma_schedule_elems(s);
    assert(s[selection_at(s, c)].healthy);
}

/// The rotation state of the upstream selector: a single cursor, advanced
/// by one on every successful selection.
pub struct Selector {
    pub cursor: u64,
}

/// The largest effective weight in the set.
fn max_eff_weight(set: &UpstreamSet) -> (r: u32)
    ensures
        r as nat == max_eff(set@),
{
    let ghost s = set@;
    let n = set.len();
    let mut maxw: u32 = 0;
    let mut i: usize = 0;
    while i < n
        invariant
            i <= n,
            n == s.len(),
            s == set@,
            maxw as nat == max_eff(s.take(i as int)),
        decreases n - i,
    {
        let healthy = set.is_healthy(i);
        let w = if healthy {
            set.weight_of(i)
        } else {
            0
        };
        proof {
            assert(s.take(i + 1).drop_last() =~= s.take(i as int));
            assert(s.take(i + 1).last() == s[i as int]);
            assert(w as nat == eff_weight(s[i as int]));
        }
        if w > maxw {
            maxw = w;
        }
        i = i + 1;
    }
    proof {
        assert(s.take(n as int) =~= s);
    }
    maxw
}

/// The indices of `v`, read as mathematical integers.
pub open spec fn as_ints(v: Seq<usize>) -> Seq<int> {
    v.map_values(|x: usize| x as int)
}

/// Lays the cyclic selection schedule out as a vector of backend indices:
/// round `r` lists, in registry order, every healthy backend whose weight
/// exceeds `r`.
pub fn build_schedule(set: &UpstreamSet) -> (v: Vec<usize>)
    ensures
        as_ints(v@) == schedule(set@),
{
    let ghost s = set@;
    let n = set.len();
    let maxw = max_eff_weight(set);
    let mut sched: Vec<usize> = Vec::new();
    let mut r: u32 = 0;
    while r < maxw
        invariant
            r <= maxw,
            maxw as nat == max_eff(s),
            n == s.len(),
            s == set@,
            as_ints(sched@) == sched_upto(s, r as nat),
        decreases maxw - r,
    {
        let mut i: usize = 0;
        while i < n
            invariant
                i <= n,
                r < maxw,
                maxw as nat == max_eff(s),
                n == s.len(),
                s == set@,
                as_ints(sched@) == sched_upto(s, r as nat) + round_upto(s, r as nat, i as int),
            decreases n - i,
        {
            let healthy = set.is_healthy(i);
            let w = set.weight_of(i);
            if healthy && w > r {
                let ghost prev = sched@;
                sched.push(i);
                proof {
                    assert(eff_weight(s[i as int]) > r as nat);
                    assert(round_upto(s, r as nat, i + 1) == round_upto(s, r as nat, i as int)
                        + seq![i as int]);
                    assert(sched@ == prev.push(i));
                    assert(as_ints(sched@) =~= as_ints(prev).push(i as int));
                    assert(as_ints(prev).push(i as int) =~= sched_upto(s, r as nat) + round_upto(
                        s,
                        r as nat,
                        i + 1,
                    ));
                }
            } else {
                proof {
                    assert(!(eff_weight(s[i as int]) > r as nat));
                    assert(round_upto(s, r as nat, i + 1) =~= round_upto(s, r as nat, i as int));
                }
            }
            i = i + 1;
        }
        proof {
            assert(round_upto(s, r as nat, n as int) == round(s, r as nat));
            assert(sched_upto(s, (r + 1) as nat) == sched_upto(s, r as nat) + round(s, r as nat));
        }
        r = r + 1;
    }
    proof {
        assert(as_ints(sched@) == sched_upto(s, max_eff(s)));
    }
    sched
}

impl Selector {
    /// A fresh selector with the rotation at its start.
    pub fn new() -> (r: Selector)
        ensures
            r.cursor == 0,
    {
        Selector { cursor: 0 }
    }

    /// Picks one backend for a request: the slot of the cyclic schedule at
    /// the current cursor, advancing the cursor.  Returns
    /// `NoHealthyUpstream` exactly when no backend is currently healthy
    /// (in particular when the registry is empty); an unhealthy backend is
    /// never returned.
    pub fn select(&mut self, set: &UpstreamSet) -> (r: Result<usize, SelectError>)
        requires
            old(self).cursor < u64::MAX,
            set.wf(),
        ensures
            (r is Ok) <==> exists|i: int| 0 <= i < set@.len() && #[trigger] set@[i].healthy,
            r matches Ok(idx) ==> {
                &&& idx < set@.len()
                &&& set@[idx as int].healthy
                &&& schedule(set@).len() > 0
                &&& idx as int == selection_at(set@, old(self).cursor as nat)
                &&& final(self).cursor == old(self).cursor + 1
            },
            r matches Err(e) ==> {
                &&& e == SelectError::NoHealthyUpstream
                &&& final(self).cursor == old(self).cursor
            },
    {
        let ghost s = set@;
        let sched = build_schedule(set);
        if sched.len() == 0 {
            proof {
                lemma_schedule_nonempty(s);
            }
            return Err(SelectError::NoHealthyUpstream);
        }
        let w_count = sched.len();
        let pos = (self.cursor % (w_count as u64)) as usize;
        proof {
            assert(pos < w_count);
            assert(pos as nat == (self.cursor as nat) % (schedule(s).len() as nat));
            lemma_schedule_nonempty(s);
            lemma_schedule_elems(s);
        }
        let idx = sched[pos];
        proof {
            assert(idx as int == as_ints(sched@)[pos as int]);
            assert(idx as int == selection_at(s, self.cursor as nat));
        }
        self.cursor = self.cursor + 1;
        Ok(idx)
    }
}

} // verus!
