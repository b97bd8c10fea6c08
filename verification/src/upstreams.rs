//! The backend registry and the health-annotated upstream set.
//!
//! A `Backend` is a configured address with a positive weight; the
//! `UpstreamSet` pairs every backend with its current health result.  The
//! health prober owns the results; the selector only reads them.

use crate::config::ConfigError;
use vstd::prelude::*;

verus! {

/// A configured backend: an address and a positive selection weight.
/// Immutable after load; identity is the address.
#[derive(Clone, Debug)]
pub struct Backend {
    pub address: String,
    pub weight: u32,
}

/// The mathematical model of one upstream entry.
pub struct UpstreamModel {
    pub address: Seq<char>,
    pub weight: nat,
    pub healthy: bool,
    pub last_checked: nat,
}

impl Backend {
    /// An independent copy of this backend.
    pub fn duplicate(&self) -> (r: Backend)
        ensures
            r.address@ == self.address@,
            r.weight == self.weight,
    {
        Backend { address: self.address.clone(), weight: self.weight }
    }
}

/// One backend together with its latest health result.
pub struct BackendHealth {
    pub backend: Backend,
    pub healthy: bool,
    pub last_checked: u64,
}

/// The current health-annotated backend set: exactly one entry per
/// configured backend.  Only the prober writes results; selections read a
/// consistent snapshot.
pub struct UpstreamSet {
    pub entries: Vec<BackendHealth>,
}

impl View for UpstreamSet {
    type V = Seq<UpstreamModel>;

    open spec fn view(&self) -> Seq<UpstreamModel> {
        Seq::new(
            self.entries@.len(),
            |i: int|
                UpstreamModel {
                    address: self.entries@[i].backend.address@,
                    weight: self.entries@[i].backend.weight as nat,
                    healthy: self.entries@[i].healthy,
                    last_checked: self.entries@[i].last_checked as nat,
                },
        )
    }
}

/// Validity of an upstream model: every configured weight is positive and
/// every address non-empty.
pub open spec fn wf_entries(s: Seq<UpstreamModel>) -> bool {
    forall|i: int| 0 <= i < s.len() ==> #[trigger] s[i].weight >= 1 && s[i].address.len() >= 1
}

impl UpstreamSet {
    /// Validity of this set; established at construction and preserved by
    /// every health update.
    pub open spec fn wf(&self) -> bool {
        wf_entries(self@)
    }

    /// Builds the set from the loaded registry, every backend optimistically
    /// healthy until the first probe cycle (fail-open startup).  Rejects a
    /// zero weight or an empty address; an empty list is a valid but
    /// degenerate configuration.
    pub fn new(backends: Vec<Backend>) -> (r: Result<UpstreamSet, ConfigError>)
        ensures
            (r is Ok) <==> (forall|i: int|
                0 <= i < backends@.len() ==> #[trigger] backends@[i].weight >= 1
                    && backends@[i].address@.len() >= 1),
            r matches Ok(s) ==> {
                &&& s.wf()
                &&& s@.len() == backends@.len()
                &&& forall|i: int|
                    0 <= i < backends@.len() ==> #[trigger] s@[i] == (UpstreamModel {
                        address: backends@[i].address@,
                        weight: backends@[i].weight as nat,
                        healthy: true,
                        last_checked: 0,
                    })
            },
            r matches Err(e) ==> (e == ConfigError::InvalidWeight || e
                == ConfigError::EmptyAddress),
    {
        let mut entries: Vec<BackendHealth> = Vec::new();
        let n = backends.len();
        let mut i: usize = 0;
        while i < n
            invariant
                i <= n,
                n == backends@.len(),
                entries@.len() == i,
                forall|j: int|
                    0 <= j < i ==> #[trigger] backends@[j].weight >= 1 && backends@[j].address@.len()
                        >= 1,
                forall|j: int|
                    0 <= j < i ==> {
                        &&& #[trigger] entries@[j].backend.address@ == backends@[j].address@
                        &&& entries@[j].backend.weight == backends@[j].weight
                        &&& entries@[j].healthy == true
                        &&& entries@[j].last_checked == 0
                    },
            decreases n - i,
        {
            let b = &backends[i];
            if b.weight == 0 {
                return Err(ConfigError::InvalidWeight);
            }
            if b.address.as_str().unicode_len() == 0 {
                return Err(ConfigError::EmptyAddress);
            }
            entries.push(BackendHealth { backend: b.duplicate(), healthy: true, last_checked: 0 });
            i = i + 1;
        }
        let set = UpstreamSet { entries };
        proof {
            assert forall|k: int| 0 <= k < backends@.len() implies #[trigger] set@[k]
                == (UpstreamModel {
                address: backends@[k].address@,
                weight: backends@[k].weight as nat,
                healthy: true,
                last_checked: 0,
            }) by {
                assert(set@[k].address == backends@[k].address@);
            }
        }
        Ok(set)
    }

    /// The number of configured backends.
    pub fn len(&self) -> (r: usize)
        ensures
            r == self@.len(),
    {
        self.entries.len()
    }

    /// The health result currently recorded for backend `i`.
    pub fn is_healthy(&self, i: usize) -> (r: bool)
        requires
            i < self@.len(),
        ensures
            r == self@[i as int].healthy,
    {
        self.entries[i].healthy
    }

    /// The configured weight of backend `i`.
    pub fn weight_of(&self, i: usize) -> (r: u32)
        requires
            i < self@.len(),
        ensures
            r as nat == self@[i as int].weight,
    {
        self.entries[i].backend.weight
    }

    /// An owned copy of backend `i`'s address.
    pub fn address_of(&self, i: usize) -> (r: String)
        requires
            i < self@.len(),
        ensures
            r@ == self@[i as int].address,
    {
        self.entries[i].backend.address.clone()
    }

    /// Records one probe result: backend `i` is marked `healthy` as of
    /// `now`.  No other entry changes, so a selection starting after this
    /// call observes the new result.
    pub fn mark_health(&mut self, i: usize, healthy: bool, now: u64)
        requires
            i < old(self)@.len(),
        ensures
            final(self)@ == old(self)@.update(
                i as int,
                UpstreamModel {
                    address: old(self)@[i as int].address,
                    weight: old(self)@[i as int].weight,
                    healthy: healthy,
                    last_checked: now as nat,
                },
            ),
            old(self).wf() ==> final(self).wf(),
    {
        let entry = &self.entries[i];
        let updated = BackendHealth {
            backend: entry.backend.duplicate(),
            healthy: healthy,
            last_checked: now,
        };
        self.entries.set(i, updated);
        proof {
            assert(final(self)@ =~= old(self)@.update(
                i as int,
                UpstreamModel {
                    address: old(self)@[i as int].address,
                    weight: old(self)@[i as int].weight,
                    healthy: healthy,
                    last_checked: now as nat,
                },
            ));
        }
    }
}

/// The Backend Registry's load step: the ordered backend list from the
/// configuration, constant afterwards.  An empty list is valid but
/// degenerate; the selector reports every selection on it as
/// `NoHealthyUpstream`.
pub fn load(config: &crate::config::ProxyConfig) -> (r: Vec<Backend>)
    ensures
        r@.len() == config.backends@.len(),
        forall|i: int|
            0 <= i < r@.len() ==> (#[trigger] r@[i]).address@ == config.backends@[i].address@
                && r@[i].weight == config.backends@[i].weight,
{
    let mut out: Vec<Backend> = Vec::new();
    let n = config.backends.len();
    let mut i: usize = 0;
    while i < n
        invariant
            i <= n,
            n == config.backends@.len(),
            out@.len() == i,
            forall|k: int|
                0 <= k < i ==> (#[trigger] out@[k]).address@ == config.backends@[k].address@
                    && out@[k].weight == config.backends@[k].weight,
        decreases n - i,
    {
        let b = config.backends[i].duplicate();
        out.push(b);
        i = i + 1;
    }
    out
}

} // verus!
