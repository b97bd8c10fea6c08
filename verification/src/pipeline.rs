//! The per-request pipeline: inbound inspection (metrics short-circuit),
//! request-context creation, upstream selection, outbound header rewriting
//! and completion accounting.
//!
//! Forwarding itself is transport work done by the caller; the functions
//! here make every decision and record every outcome, so the caller only
//! moves bytes.

use crate::config::{ConfigError, ProxyConfig};
use crate::metrics::{render_text, MetricsRegistry};
use crate::selector::{selection_at, SelectError, Selector};
use crate::text::{dec_rep, str_eq, u64_to_dec};
use crate::upstreams::{load, UpstreamSet};
use vstd::prelude::*;

verus! {

/// One HTTP header: an exact name and value.
pub struct Header {
    pub name: String,
    pub value: String,
}

/// The mathematical model of one header.
pub struct HeaderModel {
    pub name: Seq<char>,
    pub value: Seq<char>,
}

/// An ordered list of headers, as they will be written on the wire.
pub struct HeaderMap {
    pub entries: Vec<Header>,
}

impl View for HeaderMap {
    type V = Seq<HeaderModel>;

    open spec fn view(&self) -> Seq<HeaderModel> {
        Seq::new(
            self.entries@.len(),
            |i: int|
                HeaderModel {
                    name: self.entries@[i].name@,
                    value: self.entries@[i].value@,
                },
        )
    }
}

/// The position of the first header named `name`, or -1 when there is
/// none.  Names compare exactly.
pub open spec fn find_header(hs: Seq<HeaderModel>, name: Seq<char>) -> int
    decreases hs.len(),
{
    if hs.len() == 0 {
        -1
    } else if hs[0].name == name {
        0
    } else {
        let r = find_header(hs.subrange(1, hs.len() as int), name);
        if r == -1 {
            -1
        } else {
            r + 1
        }
    }
}

/// The value of the first header named `name`, if any.
pub open spec fn header_value(hs: Seq<HeaderModel>, name: Seq<char>) -> Option<Seq<char>> {
    let i = find_header(hs, name);
    if i == -1 {
        None
    } else {
        Some(hs[i].value)
    }
}

/// The header list after setting `name` to `value`: the first header of
/// that name is replaced in place, or the pair is appended when the name
/// is absent.
pub open spec fn spec_set_header(
    hs: Seq<HeaderModel>,
    name: Seq<char>,
    value: Seq<char>,
) -> Seq<HeaderModel> {
    let i = find_header(hs, name);
    if i == -1 {
        hs.push(HeaderModel { name, value })
    } else {
        hs.update(i, HeaderModel { name, value })
    }
}

/// What `find_header` finds: the first match, and -1 exactly when no
/// header matches.
pub proof fn lemma_find_header(hs: Seq<HeaderModel>, name: Seq<char>)
    ensures
        (find_header(hs, name) == -1) <==> (forall|j: int|
            0 <= j < hs.len() ==> #[trigger] hs[j].name != name),
        find_header(hs, name) != -1 ==> {
            &&& 0 <= find_header(hs, name) < hs.len()
            &&& hs[find_header(hs, name)].name == name
            &&& forall|j: int| 0 <= j < find_header(hs, name) ==> #[trigger] hs[j].name != name
        },
    decreases hs.len(),
{
    if hs.len() == 0 {
    } else if hs[0].name == name {
    } else {
        let tl = hs.subrange(1, hs.len() as int);
        lemma_find_header(tl, name);
        assert forall|j: int| 0 <= j < tl.len() implies #[trigger] tl[j] == hs[j + 1] by {}
        if find_header(hs, name) == -1 {
            assert(find_header(tl, name) == -1);
            assert forall|j: int| 0 <= j < hs.len() implies #[trigger] hs[j].name != name by {
                if j > 0 {
                    assert(tl[j - 1] == hs[j]);
                    assert(tl[j - 1].name != name);
                }
            }
        } else {
            let f = find_header(hs, name);
            assert(f == find_header(tl, name) + 1);
            assert(hs[f] == tl[f - 1]);
            assert forall|j: int| 0 <= j < f implies #[trigger] hs[j].name != name by {
                if j > 0 {
                    assert(tl[j - 1] == hs[j]);
                    assert(tl[j - 1].name != name);
                }
            }
        }
        if forall|j: int| 0 <= j < hs.len() ==> #[trigger] hs[j].name != name {
            assert forall|j: int| 0 <= j < tl.len() implies #[trigger] tl[j].name != name by {
                assert(tl[j] == hs[j + 1]);
                assert(hs[j + 1].name != name);
            }
            assert(find_header(tl, name) == -1);
        }
    }
}

impl HeaderMap {
    /// An empty header list.
    pub fn new() -> (r: HeaderMap)
        ensures
            r@ == Seq::<HeaderModel>::empty(),
    {
        let m = HeaderMap { entries: Vec::new() };
        proof {
            assert(m@ =~= Seq::<HeaderModel>::empty());
        }
        m
    }

    /// Appends a header without looking for an existing one.
    pub fn push(&mut self, name: String, value: String)
        ensures
            final(self)@ == old(self)@.push(HeaderModel { name: name@, value: value@ }),
    {
        self.entries.push(Header { name, value });
        proof {
            assert(final(self)@ =~= old(self)@.push(HeaderModel { name: name@, value: value@ }));
        }
    }

    /// The number of headers.
    pub fn len(&self) -> (r: usize)
        ensures
            r == self@.len(),
    {
        self.entries.len()
    }

    /// Sets `name` to `value`: replaces the first header of that name, or
    /// appends one.
    pub fn set_header(&mut self, name: &str, value: String)
        ensures
            final(self)@ == spec_set_header(old(self)@, name@, value@),
    {
        let n = self.entries.len();
        let mut i: usize = 0;
        while i < n
            invariant
                i <= n,
                n == self@.len(),
                *self == *old(self),
                forall|j: int| 0 <= j < i ==> (#[trigger] self@[j]).name != name@,
            decreases n - i,
        {
            if str_eq(self.entries[i].name.as_str(), name) {
                proof {
                    lemma_find_header(self@, name@);
                    assert(self@[i as int].name == name@);
                    assert(find_header(self@, name@) == i);
                }
                let new_name = self.entries[i].name.clone();
                self.entries.set(i, Header { name: new_name, value });
                proof {
                    assert(final(self)@ =~= spec_set_header(old(self)@, name@, value@));
                }
                return ;
            }
            i = i + 1;
        }
        proof {
            lemma_find_header(self@, name@);
            assert(find_header(self@, name@) == -1);
        }
        let owned_name = name.to_owned();
        self.entries.push(Header { name: owned_name, value });
        proof {
            assert(final(self)@ =~= spec_set_header(old(self)@, name@, value@));
        }
    }

    /// An owned copy of the first value recorded under `name`, if any.
    pub fn value_of(&self, name: &str) -> (r: Option<String>)
        ensures
            (r is Some) <==> (header_value(self@, name@) is Some),
            r matches Some(v) ==> header_value(self@, name@) == Some(v@),
    {
        proof {
            lemma_find_header(self@, name@);
        }
        let n = self.entries.len();
        let mut i: usize = 0;
        while i < n
            invariant
                i <= n,
                n == self@.len(),
                forall|j: int| 0 <= j < i ==> (#[trigger] self@[j]).name != name@,
            decreases n - i,
        {
            if str_eq(self.entries[i].name.as_str(), name) {
                proof {
                    lemma_find_header(self@, name@);
                    assert(self@[i as int].name == name@);
                    assert(find_header(self@, name@) == i);
                }
                return Some(self.entries[i].value.clone());
            }
            i = i + 1;
        }
        proof {
            lemma_find_header(self@, name@);
        }
        None
    }
}

/// A response built by the pipeline itself (the metrics endpoint, or the
/// failure short-circuit).  The content length it reports is exactly the
/// byte length of the body.
pub struct HttpResponse {
    pub status: u16,
    pub content_type: String,
    pub body: String,
}

impl HttpResponse {
    /// The `Content-Length` to write: the body's byte length.
    pub fn content_length(&self) -> (r: usize)
        ensures
            r == vstd::utf8::encode_utf8(self.body@).len() as usize,
    {
        let s = self.body.as_str();
        proof {
            assert(s@ == self.body@);
        }
        s.len()
    }
}

/// The result of inbound inspection: serve a locally-built response and
/// stop, or carry on towards an upstream.
pub enum InboundAction {
    ServeMetrics(HttpResponse),
    Forward,
}

/// Whether `path` is the metrics endpoint.
pub fn is_metrics_path(path: &str) -> (r: bool)
    ensures
        r == (path@ == "/metrics"@),
{
    str_eq(path, "/metrics")
}

/// Builds the metrics endpoint's response: a 200 with the rendered
/// snapshot.  Reading the registry never mutates it, so serving this
/// endpoint leaves every counter as it was.
pub fn metrics_response(metrics: &MetricsRegistry) -> (r: HttpResponse)
    requires
        metrics.wf(),
    ensures
        r.status == 200,
        r.body@ == render_text(metrics),
        r.content_type@ == "text/plain; version=0.0.4"@,
{
    HttpResponse {
        status: 200,
        content_type: "text/plain; version=0.0.4".to_owned(),
        body: metrics.render(),
    }
}

/// Inbound inspection: requests for the metrics endpoint are answered on
/// the spot, every other path continues towards an upstream.
pub fn inspect_request(path: &str, metrics: &MetricsRegistry) -> (r: InboundAction)
    requires
        metrics.wf(),
    ensures
        path@ == "/metrics"@ ==> (r matches InboundAction::ServeMetrics(resp) && resp.status
            == 200 && resp.body@ == render_text(metrics)),
        path@ != "/metrics"@ ==> r is Forward,
{
    if is_metrics_path(path) {
        InboundAction::ServeMetrics(metrics_response(metrics))
    } else {
        InboundAction::Forward
    }
}

/// The 500-class answer written when no upstream is available.
pub fn no_upstream_response() -> (r: HttpResponse)
    ensures
        r.status == 500,
        r.body@ == Seq::<char>::empty(),
{
    let resp = HttpResponse {
        status: 500,
        content_type: "text/plain".to_owned(),
        body: String::new(),
    };
    resp
}

/// The record of one in-flight request: its correlation identifier and
/// when it entered the pipeline.  Owned by that request alone and dropped
/// when the pipeline completes.
pub struct RequestContext {
    pub request_id: u64,
    pub start_micros: u64,
}

/// The source of request identifiers: a counter, so every identifier
/// handed out by one generator is distinct from every other.
pub struct RequestIdGen {
    pub next_id: u64,
}

impl RequestIdGen {
    /// A fresh generator.
    pub fn new() -> (r: RequestIdGen)
        ensures
            r.next_id == 0,
    {
        RequestIdGen { next_id: 0 }
    }
}

/// How one request ended; decides the error counter in completion
/// accounting.
#[derive(Clone, Copy, Debug, PartialEq, Eq, Structural)]
pub enum RequestOutcome {
    /// The response was relayed from the upstream.
    Success,
    /// No healthy upstream existed; a 500 was written.
    NoUpstream,
    /// The transport failed to forward or relay.
    ForwardFailed,
}

/// Whether an outcome counts as an error.
pub open spec fn is_error_outcome(o: RequestOutcome) -> bool {
    !(o is Success)
}

/// The request and error counters, mathematically.
pub struct CounterModel {
    pub requests: nat,
    pub errors: nat,
}

/// What completion accounting does to the counters: every completion
/// counts one request, an error completion counts one error.
pub open spec fn apply_completion(c: CounterModel, o: RequestOutcome) -> CounterModel {
    CounterModel {
        requests: c.requests + 1,
        errors: c.errors + if is_error_outcome(o) {
            1nat
        } else {
            0nat
        },
    }
}

/// The counters after a run of completions.
pub open spec fn apply_completions(c: CounterModel, os: Seq<RequestOutcome>) -> CounterModel
    decreases os.len(),
{
    if os.len() == 0 {
        c
    } else {
        apply_completion(apply_completions(c, os.drop_last()), os.last())
    }
}

/// How many of a run of outcomes are errors.
pub open spec fn count_errors(os: Seq<RequestOutcome>) -> nat
    decreases os.len(),
{
    if os.len() == 0 {
        0
    } else {
        count_errors(os.drop_last()) + if is_error_outcome(os.last()) {
            1nat
        } else {
            0nat
        }
    }
}

/// Completion accounting over any run of requests: after `n` completed
/// requests the request counter has grown by exactly `n`, and the error
/// counter by exactly the number of completions that were errors.
pub proof fn lemma_completion_accounting(c: CounterModel, os: Seq<RequestOutcome>)
    ensures
        apply_completions(c, os).requests == c.requests + os.len(),
        apply_completions(c, os).errors == c.errors + count_errors(os),
    decreases os.len(),
{
    if os.len() > 0 {
        lemma_completion_accounting(c, os.drop_last());
    }
}

/// The latency recorded for a request that entered at `start` and
/// completed at `now` (zero if the clock ran backwards).
pub open spec fn latency_micros_of(start: nat, now: nat) -> nat {
    if now >= start {
        (now - start) as nat
    } else {
        0
    }
}

/// One upstream destination handed to the transport: the backend address
/// to connect to and the virtual-host name to present.
pub struct UpstreamPeer {
    pub address: String,
    pub vhost: String,
}

/// The proxy core: the health-annotated backend set, the rotation state,
/// the metrics registry, the identifier source and the configured
/// virtual-host name.
pub struct Proxy {
    pub upstreams: UpstreamSet,
    pub selector: Selector,
    pub metrics: MetricsRegistry,
    pub id_gen: RequestIdGen,
    pub vhost: String,
}

impl Proxy {
    /// Validity of the whole core.
    pub open spec fn wf(&self) -> bool {
        &&& self.upstreams.wf()
        &&& self.metrics.wf()
        &&& self.metrics.upstreams@.len() == self.upstreams@.len()
    }

    /// Builds the proxy core from configuration: loads the registry,
    /// starts every backend optimistically healthy, registers one gauge
    /// series per backend, and zeroes the counters.  Rejects the
    /// configuration faults that `UpstreamSet::new` rejects.
    pub fn new_proxy_service(config: &ProxyConfig) -> (r: Result<Proxy, ConfigError>)
        ensures
            (r is Ok) <==> (forall|i: int|
                0 <= i < config.backends@.len() ==> #[trigger] config.backends@[i].weight >= 1
                    && config.backends@[i].address@.len() >= 1),
            r matches Ok(p) ==> {
                &&& p.wf()
                &&& p.upstreams@.len() == config.backends@.len()
                &&& forall|i: int|
                    0 <= i < config.backends@.len() ==> {
                        &&& (#[trigger] p.upstreams@[i]).address == config.backends@[i].address@
                        &&& p.upstreams@[i].weight == config.backends@[i].weight as nat
                        &&& p.upstreams@[i].healthy == true
                    }
                &&& forall|i: int|
                    0 <= i < config.backends@.len() ==> (#[trigger] p.metrics.upstreams@[i]).address@
                        == config.backends@[i].address@ && p.metrics.upstreams@[i].healthy == true
                &&& p.metrics.requests_total == 0
                &&& p.metrics.errors_total == 0
                &&& p.metrics.hist_count == 0
                &&& p.metrics.hist_sum_micros == 0
                &&& p.selector.cursor == 0
                &&& p.id_gen.next_id == 0
                &&& p.vhost@ == config.virtual_host@
            },
    {
        let backends = load(config);
        proof {
            assert forall|i: int| 0 <= i < backends@.len() implies {
                (#[trigger] backends@[i].weight >= 1 && backends@[i].address@.len() >= 1) <==> (
                config.backends@[i].weight >= 1 && config.backends@[i].address@.len() >= 1)
            } by {
                assert(backends@[i].address@ == config.backends@[i].address@);
                assert(backends@[i].weight == config.backends@[i].weight);
            }
        }
        let set = match UpstreamSet::new(backends) {
            Ok(s) => s,
            Err(e) => {
                proof {
                    let bad = choose|i: int|
                        0 <= i < backends@.len() && !(#[trigger] backends@[i].weight >= 1
                            && backends@[i].address@.len() >= 1);
                    assert(!(config.backends@[bad].weight >= 1 && config.backends@[bad].address@.len()
                        >= 1));
                }
                return Err(e);
            },
        };
        proof {
            assert forall|i: int|
                0 <= i < config.backends@.len() implies #[trigger] config.backends@[i].weight >= 1
                && config.backends@[i].address@.len() >= 1 by {
                assert(backends@[i].weight >= 1 && backends@[i].address@.len() >= 1);
                assert(backends@[i].address@ == config.backends@[i].address@);
            }
            assert forall|i: int| 0 <= i < config.backends@.len() implies {
                &&& (#[trigger] set@[i]).address == config.backends@[i].address@
                &&& set@[i].weight == config.backends@[i].weight as nat
                &&& set@[i].healthy == true
            } by {
                assert(backends@[i].address@ == config.backends@[i].address@);
                assert(backends@[i].weight == config.backends@[i].weight);
            }
        }
        let n = set.len();
        let mut addresses: Vec<String> = Vec::new();
        let mut i: usize = 0;
        while i < n
            invariant
                i <= n,
                n == set@.len(),
                addresses@.len() == i,
                forall|k: int| 0 <= k < i ==> (#[trigger] addresses@[k])@ == set@[k].address,
            decreases n - i,
        {
            let a = set.address_of(i);
            addresses.push(a);
            i = i + 1;
        }
        let metrics = MetricsRegistry::new(addresses);
        Ok(
            Proxy {
                upstreams: set,
                selector: Selector::new(),
                metrics,
                id_gen: RequestIdGen::new(),
                vhost: config.virtual_host.clone(),
            },
        )
    }

    /// Opens a request's pipeline traversal: a context with a fresh,
    /// never-repeated identifier and the entry timestamp.
    pub fn new_ctx(&mut self, now_micros: u64) -> (r: RequestContext)
        requires
            old(self).id_gen.next_id < u64::MAX,
        ensures
            r.request_id == old(self).id_gen.next_id,
            r.start_micros == now_micros,
            final(self).id_gen.next_id == old(self).id_gen.next_id + 1,
            final(self).upstreams == old(self).upstreams,
            final(self).selector == old(self).selector,
            final(self).metrics == old(self).metrics,
            final(self).vhost == old(self).vhost,
    {
        let id = self.id_gen.next_id;
        self.id_gen.next_id = id + 1;
        RequestContext { request_id: id, start_micros: now_micros }
    }

    /// Picks the upstream peer for one request: the backend the weighted
    /// rotation designates, never an unhealthy one.  Fails with
    /// `NoHealthyUpstream` exactly when no backend is healthy; selection
    /// itself records nothing in the metrics.
    pub fn upstream_peer(&mut self, _ctx: &RequestContext) -> (r: Result<UpstreamPeer, SelectError>)
        requires
            old(self).upstreams.wf(),
            old(self).selector.cursor < u64::MAX,
        ensures
            (r is Ok) <==> exists|i: int|
                0 <= i < old(self).upstreams@.len() && (#[trigger] old(self).upstreams@[i]).healthy,
            r matches Ok(peer) ==> {
                let idx = selection_at(old(self).upstreams@, old(self).selector.cursor as nat);
                &&& 0 <= idx < old(self).upstreams@.len()
                &&& old(self).upstreams@[idx].healthy
                &&& peer.address@ == old(self).upstreams@[idx].address
                &&& peer.vhost@ == old(self).vhost@
                &&& final(self).selector.cursor == old(self).selector.cursor + 1
            },
            r matches Err(e) ==> {
                &&& e == SelectError::NoHealthyUpstream
                &&& final(self).selector.cursor == old(self).selector.cursor
            },
            final(self).upstreams == old(self).upstreams,
            final(self).metrics == old(self).metrics,
            final(self).id_gen == old(self).id_gen,
            final(self).vhost == old(self).vhost,
    {
        let picked = self.selector.select(&self.upstreams);
        match picked {
            Ok(idx) => {
                let address = self.upstreams.address_of(idx);
                Ok(UpstreamPeer { address, vhost: self.vhost.clone() })
            },
            Err(e) => Err(e),
        }
    }

    /// Outbound mutation before forwarding: the `Host` header becomes the
    /// configured virtual-host name (not the backend address), and
    /// `X-Request-ID` carries the request's identifier in decimal.
    pub fn upstream_request_filter(&self, headers: &mut HeaderMap, ctx: &RequestContext)
        ensures
            final(headers)@ == spec_set_header(
                spec_set_header(old(headers)@, "Host"@, self.vhost@),
                "X-Request-ID"@,
                dec_rep(ctx.request_id as nat),
            ),
    {
        headers.set_header("Host", self.vhost.clone());
        headers.set_header("X-Request-ID", u64_to_dec(ctx.request_id));
    }

    /// Completion accounting, run exactly once per request whatever
    /// happened: counts the request, counts an error for an error outcome,
    /// and observes the end-to-end latency.
    pub fn complete_request(&mut self, outcome: RequestOutcome, ctx: &RequestContext, now_micros: u64)
        requires
            old(self).metrics.wf(),
            old(self).metrics.requests_total < u64::MAX,
            old(self).metrics.errors_total < u64::MAX,
            old(self).metrics.hist_count < u64::MAX,
            old(self).metrics.hist_sum_micros + now_micros <= u64::MAX,
        ensures
            final(self).metrics.wf(),
            ({
                let c = apply_completion(
                    CounterModel {
                        requests: old(self).metrics.requests_total as nat,
                        errors: old(self).metrics.errors_total as nat,
                    },
                    outcome,
                );
                &&& final(self).metrics.requests_total as nat == c.requests
                &&& final(self).metrics.errors_total as nat == c.errors
            }),
            final(self).metrics.hist_count == old(self).metrics.hist_count + 1,
            final(self).metrics.hist_sum_micros as nat == old(self).metrics.hist_sum_micros
                + latency_micros_of(ctx.start_micros as nat, now_micros as nat),
            final(self).metrics.upstreams == old(self).metrics.upstreams,
            final(self).upstreams == old(self).upstreams,
            final(self).selector == old(self).selector,
            final(self).id_gen == old(self).id_gen,
            final(self).vhost == old(self).vhost,
    {
        let latency = if now_micros >= ctx.start_micros {
            now_micros - ctx.start_micros
        } else {
            0
        };
        self.metrics.inc_requests();
        match outcome {
            RequestOutcome::Success => {},
            _ => {
                self.metrics.inc_errors();
            },
        }
        self.metrics.observe_micros(latency);
    }

    /// The whole short-circuit for a request that found no healthy
    /// upstream: the client gets a 500, and the completion accounting runs
    /// at once, counting the request and exactly one error.
    pub fn handle_no_upstream(&mut self, ctx: &RequestContext, now_micros: u64) -> (r: HttpResponse)
        requires
            old(self).metrics.wf(),
            old(self).metrics.requests_total < u64::MAX,
            old(self).metrics.errors_total < u64::MAX,
            old(self).metrics.hist_count < u64::MAX,
            old(self).metrics.hist_sum_micros + now_micros <= u64::MAX,
        ensures
            r.status == 500,
            final(self).metrics.wf(),
            final(self).metrics.requests_total == old(self).metrics.requests_total + 1,
            final(self).metrics.errors_total == old(self).metrics.errors_total + 1,
            final(self).metrics.hist_count == old(self).metrics.hist_count + 1,
            final(self).metrics.upstreams == old(self).metrics.upstreams,
            final(self).upstreams == old(self).upstreams,
            final(self).selector == old(self).selector,
            final(self).id_gen == old(self).id_gen,
            final(self).vhost == old(self).vhost,
    {
        self.complete_request(RequestOutcome::NoUpstream, ctx, now_micros);
        no_upstream_response()
    }
}

} // verus!
