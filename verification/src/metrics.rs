//! Process metrics and their Prometheus text exposition form.
use crate::dup::Dup;
use crate::order;
use crate::order::{sort_vec, str_le, Ranked};
use crate::text;
use crate::text::{chars_of, str_eq, u64_text};
use vstd::prelude::*;

verus! {

// ---------------------------------------------------------------------------
// Counters and gauges
// ---------------------------------------------------------------------------

/// A count that only grows; behind the largest number it starts over.
#[derive(Clone, Copy, Debug, Default, PartialEq, Eq)]
pub struct Counter {
    pub value: u64,
}

impl Counter {
    /// A counter at zero.
    pub fn new() -> (r: Counter)
        ensures
            r.value == 0,
    {
        Counter { value: 0 }
    }

    /// Counts one event.
    pub fn inc(&mut self)
        ensures
            final(self).value == old(self).value.wrapping_add(1),
    {
        self.value = self.value.wrapping_add(1);
    }

    /// Counts `n` events.
    pub fn add(&mut self, n: u64)
        ensures
            final(self).value == old(self).value.wrapping_add(n),
    {
        self.value = self.value.wrapping_add(n);
    }

    /// The count.
    pub fn get(&self) -> (r: u64)
        ensures
            r == self.value,
    {
        self.value
    }
}

/// How many of something there are, as they come and go.
#[derive(Clone, Copy, Debug, Default, PartialEq, Eq)]
pub struct Gauge {
    pub value: u64,
}

impl Gauge {
    /// A gauge at zero.
    pub fn new() -> (r: Gauge)
        ensures
            r.value == 0,
    {
        Gauge { value: 0 }
    }

    /// One has come.
    pub fn inc(&mut self)
        ensures
            final(self).value == old(self).value.wrapping_add(1),
    {
        self.value = self.value.wrapping_add(1);
    }

    /// One has gone.
    pub fn dec(&mut self)
        ensures
            final(self).value == old(self).value.wrapping_sub(1),
    {
        self.value = self.value.wrapping_sub(1);
    }

    /// How many there are.
    pub fn get(&self) -> (r: u64)
        ensures
            r == self.value,
    {
        self.value
    }
}

/// What comes and goes again leaves a gauge as it was.
pub proof fn law_gauge_returns(v: u64)
    ensures
        v.wrapping_add(1).wrapping_sub(1) == v,
{
}

// ---------------------------------------------------------------------------
// Histograms
// ---------------------------------------------------------------------------

/// The upper bounds of the buckets in nanoseconds: from a pooled local hop to
/// past every default timeout.
pub const LE_NANOS: [u64; 21] = [
    10_000,
    25_000,
    50_000,
    100_000,
    250_000,
    500_000,
    1_000_000,
    2_500_000,
    5_000_000,
    10_000_000,
    25_000_000,
    50_000_000,
    100_000_000,
    250_000_000,
    500_000_000,
    1_000_000_000,
    2_500_000_000,
    5_000_000_000,
    10_000_000_000,
    30_000_000_000,
    60_000_000_000,
];

/// The same bounds in seconds, as they are written out.
pub const LE_LABELS: [&'static str; 21] = [
    "0.00001",
    "0.000025",
    "0.00005",
    "0.0001",
    "0.00025",
    "0.0005",
    "0.001",
    "0.0025",
    "0.005",
    "0.01",
    "0.025",
    "0.05",
    "0.1",
    "0.25",
    "0.5",
    "1",
    "2.5",
    "5",
    "10",
    "30",
    "60",
];

/// A latency histogram. A bucket holds the samples of its own range alone; a
/// sample above the last bound is in the count and in no bucket.
#[derive(Clone, Copy, Debug, PartialEq, Eq)]
pub struct Histogram {
    pub buckets: [u64; 21],
    pub sum_nanos: u64,
    pub count: u64,
}

/// The bucket for a sample from bound `i` on: the first whose bound it does not
/// exceed; 21 where it exceeds all.
pub open spec fn bucket_from(nanos: u64, i: int) -> int
    decreases 21 - i,
{
    if i >= 21 {
        21
    } else if nanos <= LE_NANOS@[i] {
        i
    } else {
        bucket_from(nanos, i + 1)
    }
}

/// A duration in nanoseconds as far as it can be kept.
pub open spec fn saturated(nanos: u128) -> u64 {
    if nanos <= u64::MAX {
        nanos as u64
    } else {
        u64::MAX
    }
}

/// How many samples the first `n` buckets hold.
pub open spec fn cumulative(buckets: Seq<u64>, n: int) -> u64
    decreases n,
{
    if n <= 0 {
        0
    } else {
        cumulative(buckets, n - 1).wrapping_add(buckets[n - 1])
    }
}

/// Buckets, sum and count after a sample more.
pub open spec fn with_sample(h: (Seq<u64>, u64, u64), nanos: u64) -> (Seq<u64>, u64, u64) {
    let b = bucket_from(nanos, 0);
    (
        if b < 21 {
            h.0.update(b, h.0[b].wrapping_add(1))
        } else {
            h.0
        },
        h.1.wrapping_add(nanos),
        h.2.wrapping_add(1),
    )
}

/// Buckets, sum and count after these samples and no others.
pub open spec fn after_samples(samples: Seq<u64>) -> (Seq<u64>, u64, u64)
    decreases samples.len(),
{
    if samples.len() == 0 {
        (Seq::new(21, |i: int| 0u64), 0, 0)
    } else {
        with_sample(after_samples(samples.drop_last()), samples.last())
    }
}

/// The count that is written out: never less than what the buckets hold.
pub open spec fn shown_count(h: Histogram) -> u64 {
    let all = cumulative(h.buckets@, 21);
    if h.count >= all {
        h.count
    } else {
        all
    }
}

impl Histogram {
    /// A histogram without samples.
    pub fn new() -> (r: Histogram)
        ensures
            forall|i: int| 0 <= i < 21 ==> r.buckets@[i] == 0,
            r.sum_nanos == 0,
            r.count == 0,
            r.holds(Seq::empty()),
    {
        let r = Histogram { buckets: [0u64; 21], sum_nanos: 0, count: 0 };
        assert(r.buckets@ =~= after_samples(Seq::empty()).0);
        r
    }

    /// What the histogram is after a sample.
    pub open spec fn observed(self, nanos: u64) -> (Seq<u64>, u64, u64) {
        with_sample((self.buckets@, self.sum_nanos, self.count), nanos)
    }

    /// Whether the histogram is what a new one is after these samples.
    pub open spec fn holds(self, samples: Seq<u64>) -> bool {
        (self.buckets@, self.sum_nanos, self.count) == after_samples(samples)
    }

    /// Takes a sample of a duration in nanoseconds.
    pub fn observe(&mut self, nanos: u128)
        ensures
            (final(self).buckets@, final(self).sum_nanos, final(self).count)
                == old(self).observed(saturated(nanos)),
            forall|samples: Seq<u64>| #[trigger]
                old(self).holds(samples) ==> final(self).holds(samples.push(saturated(nanos))),
    {
        let kept: u64 = if nanos <= u64::MAX as u128 {
            nanos as u64
        } else {
            u64::MAX
        };
        self.count = self.count.wrapping_add(1);
        self.sum_nanos = self.sum_nanos.wrapping_add(kept);
        let mut i: usize = 0;
        while i < 21 && kept > LE_NANOS[i]
            invariant
                i <= 21,
                bucket_from(kept, 0) == bucket_from(kept, i as int),
            decreases 21 - i,
        {
            i += 1;
        }
        if i < 21 {
            self.buckets[i] = self.buckets[i].wrapping_add(1);
        }
        assert forall|samples: Seq<u64>| #[trigger] old(self).holds(samples) implies self.holds(
            samples.push(saturated(nanos)),
        ) by {
            assert(samples.push(saturated(nanos)).drop_last() =~= samples);
        }
    }
}

// ---------------------------------------------------------------------------
// Labeled counters
// ---------------------------------------------------------------------------

/// The counter of one label value.
#[derive(Clone, Debug, PartialEq, Eq)]
pub struct LabeledCounter {
    pub label: String,
    pub value: u64,
}

/// What a [`LabeledCounter`] denotes.
#[verifier::ext_equal]
pub struct LabeledCounterView {
    pub label: Seq<char>,
    pub value: u64,
}

impl DeepView for LabeledCounter {
    type V = LabeledCounterView;

    open spec fn deep_view(&self) -> LabeledCounterView {
        LabeledCounterView { label: self.label@, value: self.value }
    }
}

impl Dup for LabeledCounter {
    fn dup(&self) -> (r: Self) {
        LabeledCounter { label: self.label.clone(), value: self.value }
    }
}

impl Ranked for LabeledCounter {
    open spec fn spec_le(a: LabeledCounterView, b: LabeledCounterView) -> bool {
        order::text_le(a.label, b.label)
    }

    fn at_most(&self, other: &Self) -> (r: bool) {
        str_le(self.label.as_str(), other.label.as_str())
    }
}

/// A family of counters that differ in a label. Counters stay where they are
/// for good.
#[derive(Clone, Debug, Default, PartialEq, Eq)]
pub struct LabeledFamily {
    pub entries: Vec<LabeledCounter>,
}

/// Where a label has its counter; the length where it has none.
pub open spec fn label_slot(entries: Seq<LabeledCounterView>, label: Seq<char>) -> int
    decreases entries.len(),
{
    if entries.len() == 0 {
        0
    } else if entries.first().label == label {
        0
    } else {
        1 + label_slot(entries.drop_first(), label)
    }
}

/// The counters with one for `label`, which starts at zero where it is new.
pub open spec fn with_label(entries: Seq<LabeledCounterView>, label: Seq<char>) -> Seq<
    LabeledCounterView,
> {
    if label_slot(entries, label) < entries.len() {
        entries
    } else {
        entries.push(LabeledCounterView { label, value: 0 })
    }
}

/// The counters after one more event at `slot`.
pub open spec fn counted(entries: Seq<LabeledCounterView>, slot: int) -> Seq<LabeledCounterView> {
    entries.update(
        slot,
        LabeledCounterView { value: entries[slot].value.wrapping_add(1), ..entries[slot] },
    )
}

proof fn lemma_label_slot(entries: Seq<LabeledCounterView>, label: Seq<char>, k: int)
    requires
        0 <= k <= entries.len(),
        forall|i: int| 0 <= i < k ==> (#[trigger] entries[i]).label != label,
        k < entries.len() ==> entries[k].label == label,
    ensures
        label_slot(entries, label) == k,
    decreases k,
{
    if k > 0 {
        assert(entries.first().label != label);
        let rest = entries.drop_first();
        assert forall|i: int| 0 <= i < k - 1 implies (#[trigger] rest[i]).label != label by {
            assert(entries[i + 1].label != label);
        }
        lemma_label_slot(rest, label, k - 1);
    }
}

impl LabeledFamily {
    /// A family without counters.
    pub fn new() -> (r: LabeledFamily)
        ensures
            r.entries.deep_view() == Seq::<LabeledCounterView>::empty(),
    {
        let r = LabeledFamily { entries: Vec::new() };
        assert(r.entries.deep_view() =~= Seq::<LabeledCounterView>::empty());
        r
    }

    /// Where the counter of `label` is, which is made where there is none.
    pub fn slot(&mut self, label: &str) -> (r: usize)
        ensures
            final(self).entries.deep_view() == with_label(old(self).entries.deep_view(), label@),
            r == label_slot(old(self).entries.deep_view(), label@),
            r < final(self).entries@.len(),
            final(self).entries.deep_view()[r as int].label == label@,
    {
        let ghost before = self.entries.deep_view();
        let mut i: usize = 0;
        while i < self.entries.len() && !str_eq(self.entries[i].label.as_str(), label)
            invariant
                i <= self.entries@.len(),
                before == self.entries.deep_view(),
                forall|j: int| 0 <= j < i ==> (#[trigger] before[j]).label != label@,
            decreases self.entries.len() - i,
        {
            assert(before[i as int].label != label@);
            i += 1;
        }
        proof {
            lemma_label_slot(before, label@, i as int);
        }
        if i == self.entries.len() {
            self.entries.push(LabeledCounter { label: label.to_owned(), value: 0 });
            assert(self.entries.deep_view() =~= with_label(before, label@));
        }
        i
    }

    /// Counts one event at `slot`.
    pub fn count(&mut self, slot: usize)
        requires
            slot < old(self).entries@.len(),
        ensures
            final(self).entries.deep_view() == counted(
                old(self).entries.deep_view(),
                slot as int,
            ),
    {
        let ghost before = self.entries.deep_view();
        let n = self.entries[slot].value.wrapping_add(1);
        self.entries[slot].value = n;
        assert(self.entries.deep_view() =~= counted(before, slot as int));
    }
}

// ---------------------------------------------------------------------------
// Listeners
// ---------------------------------------------------------------------------

/// What one listener has seen.
#[derive(Clone, Copy, Debug, PartialEq, Eq)]
pub struct ListenerStats {
    /// Connections accepted, or datagrams received.
    pub accepted: u64,
    /// Client connections that are open.
    pub active: u64,
    /// HTTP requests dispatched to a backend.
    pub http_requests: u64,
    /// Client TLS handshakes that failed or timed out.
    pub tls_handshake_failures: u64,
    /// Backend connects that failed.
    pub upstream_connect_errors: u64,
    /// Backend connects that timed out.
    pub upstream_connect_timeouts: u64,
    /// 1 while the accept loop is alive, 0 once it has ended.
    pub up: u64,
}

impl ListenerStats {
    /// The stats of a listener that has seen nothing and is not up.
    pub open spec fn unseen() -> ListenerStats {
        ListenerStats {
            accepted: 0,
            active: 0,
            http_requests: 0,
            tls_handshake_failures: 0,
            upstream_connect_errors: 0,
            upstream_connect_timeouts: 0,
            up: 0,
        }
    }
}

impl Default for ListenerStats {
    fn default() -> (r: ListenerStats)
        ensures
            r == ListenerStats::unseen(),
    {
        ListenerStats {
            accepted: 0,
            active: 0,
            http_requests: 0,
            tls_handshake_failures: 0,
            upstream_connect_errors: 0,
            upstream_connect_timeouts: 0,
            up: 0,
        }
    }
}

/// The stats of the listener for a protocol on a published port.
#[derive(Clone, Debug, PartialEq, Eq)]
pub struct ListenerEntry {
    pub proto: String,
    pub port: u16,
    pub stats: ListenerStats,
}

/// What a [`ListenerEntry`] denotes.
#[verifier::ext_equal]
pub struct ListenerEntryView {
    pub proto: Seq<char>,
    pub port: u16,
    pub stats: ListenerStats,
}

impl DeepView for ListenerEntry {
    type V = ListenerEntryView;

    open spec fn deep_view(&self) -> ListenerEntryView {
        ListenerEntryView { proto: self.proto@, port: self.port, stats: self.stats }
    }
}

impl Dup for ListenerEntry {
    fn dup(&self) -> (r: Self) {
        ListenerEntry { proto: self.proto.clone(), port: self.port, stats: self.stats }
    }
}

impl Ranked for ListenerEntry {
    open spec fn spec_le(a: ListenerEntryView, b: ListenerEntryView) -> bool {
        if a.proto == b.proto {
            a.port <= b.port
        } else {
            order::text_le(a.proto, b.proto)
        }
    }

    fn at_most(&self, other: &Self) -> (r: bool) {
        if str_eq(self.proto.as_str(), other.proto.as_str()) {
            self.port <= other.port
        } else {
            str_le(self.proto.as_str(), other.proto.as_str())
        }
    }
}

/// Marks a listener down when its accept loop ends.
#[derive(Debug, PartialEq, Eq)]
pub struct ListenerUpGuard {
    pub slot: usize,
}

/// Where a listener has its stats; the length where it has none.
pub open spec fn listener_slot(
    entries: Seq<ListenerEntryView>,
    proto: Seq<char>,
    port: u16,
) -> int
    decreases entries.len(),
{
    if entries.len() == 0 {
        0
    } else if entries.first().proto == proto && entries.first().port == port {
        0
    } else {
        1 + listener_slot(entries.drop_first(), proto, port)
    }
}

/// The listeners with the one at `slot` up or down.
pub open spec fn with_up(entries: Seq<ListenerEntryView>, slot: int, up: u64) -> Seq<
    ListenerEntryView,
> {
    entries.update(
        slot,
        ListenerEntryView {
            stats: ListenerStats { up, ..entries[slot].stats },
            ..entries[slot]
        },
    )
}

/// The listeners after one starts to accept. Its stats go on where it had some.
pub open spec fn registered(
    entries: Seq<ListenerEntryView>,
    proto: Seq<char>,
    port: u16,
) -> Seq<ListenerEntryView> {
    let slot = listener_slot(entries, proto, port);
    if slot < entries.len() {
        with_up(entries, slot, 1)
    } else {
        with_up(
            entries.push(ListenerEntryView { proto, port, stats: ListenerStats::unseen() }),
            slot,
            1,
        )
    }
}

proof fn lemma_listener_slot(
    entries: Seq<ListenerEntryView>,
    proto: Seq<char>,
    port: u16,
    k: int,
)
    requires
        0 <= k <= entries.len(),
        forall|i: int|
            0 <= i < k ==> !((#[trigger] entries[i]).proto == proto && entries[i].port == port),
        k < entries.len() ==> entries[k].proto == proto && entries[k].port == port,
    ensures
        listener_slot(entries, proto, port) == k,
    decreases k,
{
    if k > 0 {
        assert(!(entries[0].proto == proto && entries[0].port == port));
        let rest = entries.drop_first();
        assert forall|i: int| 0 <= i < k - 1 implies !((#[trigger] rest[i]).proto == proto
            && rest[i].port == port) by {
            assert(!(entries[i + 1].proto == proto && entries[i + 1].port == port));
        }
        lemma_listener_slot(rest, proto, port, k - 1);
    }
}

// ---------------------------------------------------------------------------
// All metrics
// ---------------------------------------------------------------------------

/// Everything that is measured.
#[derive(Clone, Debug, PartialEq, Eq)]
pub struct Metrics {
    /// Access log lines dropped because the writer lagged or its sink failed.
    pub access_log_dropped_total: Counter,
    /// Client connections accepted across all listeners.
    pub connections_accepted_total: Counter,
    /// Client TLS handshakes that failed or timed out.
    pub tls_handshake_failures_total: Counter,
    /// Backend connections established.
    pub upstream_connects_total: Counter,
    /// Backend pool checkouts served by an idle connection.
    pub pool_hits_total: Counter,
    /// Backend pool checkouts that had to open a new connection.
    pub pool_misses_total: Counter,
    /// Idle pool connections found dead at checkout and discarded.
    pub pool_stale_discards_total: Counter,
    /// Connections dropped at check-in because the pool was full.
    pub pool_overflow_drops_total: Counter,
    /// Requests replayed on a fresh connection after a pooled one died on send.
    pub pool_stale_retries_total: Counter,
    /// DNS refresh passes that installed a changed backend set.
    pub dns_refresh_swaps_total: Counter,
    /// DNS refresh passes dropped because a reconcile swapped concurrently.
    pub dns_refresh_superseded_total: Counter,
    /// DNS refresh passes with an unchanged backend set.
    pub dns_refresh_unchanged_total: Counter,
    /// Backend health transitions into UNHEALTHY.
    pub backends_marked_unhealthy_total: Counter,
    /// Backend health recoveries (probe or passive).
    pub backends_recovered_total: Counter,
    /// Gateway reconcile passes that ran the apply path.
    pub reconcile_runs_total: Counter,
    /// Gateway reconcile passes short-circuited by the fingerprint gate.
    pub reconcile_skips_total: Counter,
    /// Client connections that are open.
    pub active_connections: Gauge,
    /// Requests by the configured hostname of the route that they matched.
    pub host_requests: LabeledFamily,
    /// Failed connects by configured backend.
    pub backend_connect_errors: LabeledFamily,
    /// Timed-out connects by configured backend.
    pub backend_connect_timeouts: LabeledFamily,
    pub listeners: Vec<ListenerEntry>,
    /// From complete request headers to a flushed response.
    pub request_duration: Histogram,
    /// From the route match to the backend's response headers.
    pub upstream_ttfb: Histogram,
}

impl Metrics {
    /// Metrics before anything has happened.
    pub fn new() -> (r: Metrics)
        ensures
            r.access_log_dropped_total.value == 0,
            r.connections_accepted_total.value == 0,
            r.tls_handshake_failures_total.value == 0,
            r.upstream_connects_total.value == 0,
            r.pool_hits_total.value == 0,
            r.pool_misses_total.value == 0,
            r.pool_stale_discards_total.value == 0,
            r.pool_overflow_drops_total.value == 0,
            r.pool_stale_retries_total.value == 0,
            r.dns_refresh_swaps_total.value == 0,
            r.dns_refresh_superseded_total.value == 0,
            r.dns_refresh_unchanged_total.value == 0,
            r.backends_marked_unhealthy_total.value == 0,
            r.backends_recovered_total.value == 0,
            r.reconcile_runs_total.value == 0,
            r.reconcile_skips_total.value == 0,
            r.active_connections.value == 0,
            r.host_requests.entries@.len() == 0,
            r.backend_connect_errors.entries@.len() == 0,
            r.backend_connect_timeouts.entries@.len() == 0,
            r.listeners@.len() == 0,
            r.request_duration.count == 0,
            r.request_duration.sum_nanos == 0,
            forall|i: int| 0 <= i < 21 ==> r.request_duration.buckets@[i] == 0,
            r.upstream_ttfb.count == 0,
            r.upstream_ttfb.sum_nanos == 0,
            forall|i: int| 0 <= i < 21 ==> r.upstream_ttfb.buckets@[i] == 0,
    {
        Metrics {
            access_log_dropped_total: Counter::new(),
            connections_accepted_total: Counter::new(),
            tls_handshake_failures_total: Counter::new(),
            upstream_connects_total: Counter::new(),
            pool_hits_total: Counter::new(),
            pool_misses_total: Counter::new(),
            pool_stale_discards_total: Counter::new(),
            pool_overflow_drops_total: Counter::new(),
            pool_stale_retries_total: Counter::new(),
            dns_refresh_swaps_total: Counter::new(),
            dns_refresh_superseded_total: Counter::new(),
            dns_refresh_unchanged_total: Counter::new(),
            backends_marked_unhealthy_total: Counter::new(),
            backends_recovered_total: Counter::new(),
            reconcile_runs_total: Counter::new(),
            reconcile_skips_total: Counter::new(),
            active_connections: Gauge::new(),
            host_requests: LabeledFamily { entries: Vec::new() },
            backend_connect_errors: LabeledFamily { entries: Vec::new() },
            backend_connect_timeouts: LabeledFamily { entries: Vec::new() },
            listeners: Vec::new(),
            request_duration: Histogram::new(),
            upstream_ttfb: Histogram::new(),
        }
    }
}

/// The slot of the request counter for a route's configured hostname, or for
/// `*`. It stays the same over every later call.
pub fn host_requests_counter(m: &mut Metrics, host: &str) -> (r: usize)
    ensures
        final(m).host_requests.entries.deep_view() == with_label(
            old(m).host_requests.entries.deep_view(),
            host@,
        ),
        r == label_slot(old(m).host_requests.entries.deep_view(), host@),
        *final(m) == (Metrics { host_requests: final(m).host_requests, ..*old(m) }),
{
    m.host_requests.slot(host)
}

/// Counts a request at the slot of its route's hostname.
pub fn count_host_request(m: &mut Metrics, slot: usize)
    requires
        slot < old(m).host_requests.entries@.len(),
    ensures
        final(m).host_requests.entries.deep_view() == counted(
            old(m).host_requests.entries.deep_view(),
            slot as int,
        ),
        *final(m) == (Metrics { host_requests: final(m).host_requests, ..*old(m) }),
{
    m.host_requests.count(slot)
}

/// The counters of a family after one more event for `label`.
pub open spec fn counted_for(entries: Seq<LabeledCounterView>, label: Seq<char>) -> Seq<
    LabeledCounterView,
> {
    counted(with_label(entries, label), label_slot(entries, label))
}

/// Counts a failed connect to a configured backend.
pub fn record_backend_connect_error(m: &mut Metrics, backend: &str)
    ensures
        final(m).backend_connect_errors.entries.deep_view() == counted_for(
            old(m).backend_connect_errors.entries.deep_view(),
            backend@,
        ),
        *final(m) == (Metrics {
            backend_connect_errors: final(m).backend_connect_errors,
            ..*old(m)
        }),
{
    let slot = m.backend_connect_errors.slot(backend);
    m.backend_connect_errors.count(slot);
}

/// Counts a timed-out connect to a configured backend.
pub fn record_backend_connect_timeout(m: &mut Metrics, backend: &str)
    ensures
        final(m).backend_connect_timeouts.entries.deep_view() == counted_for(
            old(m).backend_connect_timeouts.entries.deep_view(),
            backend@,
        ),
        *final(m) == (Metrics {
            backend_connect_timeouts: final(m).backend_connect_timeouts,
            ..*old(m)
        }),
{
    let slot = m.backend_connect_timeouts.slot(backend);
    m.backend_connect_timeouts.count(slot);
}

/// Makes a listener known, or known again after a rebind, and marks it up. The
/// result is the slot of its stats and the guard that marks it down.
pub fn register_listener(m: &mut Metrics, proto: &str, port: u16) -> (r: (usize, ListenerUpGuard))
    ensures
        final(m).listeners.deep_view() == registered(old(m).listeners.deep_view(), proto@, port),
        r.0 == listener_slot(old(m).listeners.deep_view(), proto@, port),
        r.0 < final(m).listeners@.len(),
        r.1.slot == r.0,
        *final(m) == (Metrics { listeners: final(m).listeners, ..*old(m) }),
{
    let ghost before = m.listeners.deep_view();
    let mut i: usize = 0;
    while i < m.listeners.len() && !(m.listeners[i].port == port && str_eq(
        m.listeners[i].proto.as_str(),
        proto,
    ))
        invariant
            i <= m.listeners@.len(),
            *m == *old(m),
            before == m.listeners.deep_view(),
            forall|j: int|
                0 <= j < i ==> !((#[trigger] before[j]).proto == proto@ && before[j].port == port),
        decreases m.listeners.len() - i,
    {
        assert(!(before[i as int].proto == proto@ && before[i as int].port == port));
        i += 1;
    }
    proof {
        lemma_listener_slot(before, proto@, port, i as int);
    }
    if i == m.listeners.len() {
        let stats: ListenerStats = Default::default();
        m.listeners.push(ListenerEntry { proto: proto.to_owned(), port, stats });
        assert(m.listeners.deep_view() =~= before.push(
            ListenerEntryView { proto: proto@, port, stats: ListenerStats::unseen() },
        ));
    }
    let ghost between = m.listeners.deep_view();
    m.listeners[i].stats.up = 1;
    assert(m.listeners.deep_view() =~= with_up(between, i as int, 1));
    (i, ListenerUpGuard { slot: i })
}

impl ListenerUpGuard {
    /// The accept loop has ended: the listener is down.
    pub fn release(self, m: &mut Metrics)
        requires
            self.slot < old(m).listeners@.len(),
        ensures
            final(m).listeners.deep_view() == with_up(
                old(m).listeners.deep_view(),
                self.slot as int,
                0,
            ),
            *final(m) == (Metrics { listeners: final(m).listeners, ..*old(m) }),
    {
        let ghost before = m.listeners.deep_view();
        m.listeners[self.slot].stats.up = 0;
        assert(m.listeners.deep_view() =~= with_up(before, self.slot as int, 0));
    }
}

// ---------------------------------------------------------------------------
// Exposition text
// ---------------------------------------------------------------------------

/// What a character of a label value is written as.
pub open spec fn escaped_char(c: char) -> Seq<char> {
    if c == '\\' {
        seq!['\\', '\\']
    } else if c == '"' {
        seq!['\\', '"']
    } else if c == '\n' {
        seq!['\\', 'n']
    } else {
        seq![c]
    }
}

/// A label value with backslash, double quote and newline escaped.
pub open spec fn escaped(v: Seq<char>) -> Seq<char>
    decreases v.len(),
{
    if v.len() == 0 {
        Seq::empty()
    } else {
        escaped(v.drop_last()) + escaped_char(v.last())
    }
}

/// A label value with backslash, double quote and newline escaped.
pub fn escape_label(v: &str) -> (r: String)
    ensures
        r@ == escaped(v@),
{
    let chars = chars_of(v);
    let mut out = String::new();
    let mut i: usize = 0;
    assert(v@.take(0) =~= Seq::empty());
    while i < chars.len()
        invariant
            i <= chars@.len(),
            chars@ == v@,
            out@ == escaped(v@.take(i as int)),
        decreases chars.len() - i,
    {
        let c = chars[i];
        proof {
            reveal_strlit("\\\\");
            reveal_strlit("\\\"");
            reveal_strlit("\\n");
            assert(v@.take(i + 1).last() == c);
            assert(v@.take(i + 1).drop_last() =~= v@.take(i as int));
            assert("\\\\"@ =~= seq!['\\', '\\']);
            assert("\\\""@ =~= seq!['\\', '"']);
            assert("\\n"@ =~= seq!['\\', 'n']);
            assert(v@.subrange(i as int, i + 1) =~= seq![c]);
        }
        if c == '\\' {
            out.append("\\\\");
        } else if c == '"' {
            out.append("\\\"");
        } else if c == '\n' {
            out.append("\\n");
        } else {
            out.append(v.substring_char(i, i + 1));
        }
        i += 1;
    }
    assert(v@.take(v@.len() as int) =~= v@);
    out
}

/// The text with the lines that declare a series.
pub open spec fn put_header(
    out: Seq<char>,
    name: Seq<char>,
    help: Seq<char>,
    kind: Seq<char>,
) -> Seq<char> {
    out + "# HELP portail_"@ + name + " "@ + help + "\n# TYPE portail_"@ + name + " "@ + kind
        + "\n"@
}

fn write_header(out: &mut String, name: &str, help: &str, kind: &str)
    ensures
        final(out)@ == put_header(old(out)@, name@, help@, kind@),
{
    out.append("# HELP portail_");
    out.append(name);
    out.append(" ");
    out.append(help);
    out.append("\n# TYPE portail_");
    out.append(name);
    out.append(" ");
    out.append(kind);
    out.append("\n");
}

/// The text with a sample of `name`, with `labels` behind the name.
pub open spec fn put_sample(
    out: Seq<char>,
    name: Seq<char>,
    labels: Seq<char>,
    value: Seq<char>,
) -> Seq<char> {
    out + "portail_"@ + name + labels + " "@ + value + "\n"@
}

fn write_sample(out: &mut String, name: &str, labels: &str, value: &str)
    ensures
        final(out)@ == put_sample(old(out)@, name@, labels@, value@),
{
    out.append("portail_");
    out.append(name);
    out.append(labels);
    out.append(" ");
    out.append(value);
    out.append("\n");
}

/// The text with an unlabeled series.
pub open spec fn put_single(
    out: Seq<char>,
    name: Seq<char>,
    help: Seq<char>,
    kind: Seq<char>,
    value: u64,
) -> Seq<char> {
    put_sample(put_header(out, name, help, kind), name, ""@, text::decimal(value as nat))
}

fn write_single(out: &mut String, name: &str, help: &str, kind: &str, value: u64)
    ensures
        final(out)@ == put_single(old(out)@, name@, help@, kind@, value),
{
    write_header(out, name, help, kind);
    write_sample(out, name, "", u64_text(value).as_str());
}

/// The text with the process-wide counters.
pub open spec fn put_counters(out: Seq<char>, m: Metrics) -> Seq<char> {
    let out = put_single(
        out,
        "access_log_dropped_total"@,
        "Access log lines dropped because the writer lagged or its sink failed"@,
        "counter"@,
        m.access_log_dropped_total.value,
    );
    let out = put_single(
        out,
        "connections_accepted_total"@,
        "Client connections accepted across all listeners"@,
        "counter"@,
        m.connections_accepted_total.value,
    );
    let out = put_single(
        out,
        "tls_handshake_failures_total"@,
        "Client TLS handshakes that failed or timed out"@,
        "counter"@,
        m.tls_handshake_failures_total.value,
    );
    let out = put_single(
        out,
        "upstream_connects_total"@,
        "Backend connections established"@,
        "counter"@,
        m.upstream_connects_total.value,
    );
    let out = put_single(
        out,
        "pool_hits_total"@,
        "Backend pool checkouts served by an idle connection"@,
        "counter"@,
        m.pool_hits_total.value,
    );
    let out = put_single(
        out,
        "pool_misses_total"@,
        "Backend pool checkouts that had to open a new connection"@,
        "counter"@,
        m.pool_misses_total.value,
    );
    let out = put_single(
        out,
        "pool_stale_discards_total"@,
        "Idle pool connections found dead at checkout and discarded"@,
        "counter"@,
        m.pool_stale_discards_total.value,
    );
    let out = put_single(
        out,
        "pool_overflow_drops_total"@,
        "Connections dropped at check-in because the pool was full"@,
        "counter"@,
        m.pool_overflow_drops_total.value,
    );
    let out = put_single(
        out,
        "pool_stale_retries_total"@,
        "Requests replayed on a fresh connection after a pooled one died on send"@,
        "counter"@,
        m.pool_stale_retries_total.value,
    );
    let out = put_single(
        out,
        "dns_refresh_swaps_total"@,
        "DNS refresh passes that installed a changed backend set"@,
        "counter"@,
        m.dns_refresh_swaps_total.value,
    );
    let out = put_single(
        out,
        "dns_refresh_superseded_total"@,
        "DNS refresh passes dropped because a reconcile swapped concurrently"@,
        "counter"@,
        m.dns_refresh_superseded_total.value,
    );
    let out = put_single(
        out,
        "dns_refresh_unchanged_total"@,
        "DNS refresh passes with an unchanged backend set"@,
        "counter"@,
        m.dns_refresh_unchanged_total.value,
    );
    let out = put_single(
        out,
        "backends_marked_unhealthy_total"@,
        "Backend health transitions into UNHEALTHY"@,
        "counter"@,
        m.backends_marked_unhealthy_total.value,
    );
    let out = put_single(
        out,
        "backends_recovered_total"@,
        "Backend health recoveries (probe or passive)"@,
        "counter"@,
        m.backends_recovered_total.value,
    );
    let out = put_single(
        out,
        "reconcile_runs_total"@,
        "Gateway reconcile passes that ran the apply path"@,
        "counter"@,
        m.reconcile_runs_total.value,
    );
    let out = put_single(
        out,
        "reconcile_skips_total"@,
        "Gateway reconcile passes short-circuited by the fingerprint gate"@,
        "counter"@,
        m.reconcile_skips_total.value,
    );
    out
}

fn render_counters(out: &mut String, m: &Metrics)
    ensures
        final(out)@ == put_counters(old(out)@, *m),
{
    write_single(
        out,
        "access_log_dropped_total",
        "Access log lines dropped because the writer lagged or its sink failed",
        "counter",
        m.access_log_dropped_total.value,
    );
    write_single(
        out,
        "connections_accepted_total",
        "Client connections accepted across all listeners",
        "counter",
        m.connections_accepted_total.value,
    );
    write_single(
        out,
        "tls_handshake_failures_total",
        "Client TLS handshakes that failed or timed out",
        "counter",
        m.tls_handshake_failures_total.value,
    );
    write_single(
        out,
        "upstream_connects_total",
        "Backend connections established",
        "counter",
        m.upstream_connects_total.value,
    );
    write_single(
        out,
        "pool_hits_total",
        "Backend pool checkouts served by an idle connection",
        "counter",
        m.pool_hits_total.value,
    );
    write_single(
        out,
        "pool_misses_total",
        "Backend pool checkouts that had to open a new connection",
        "counter",
        m.pool_misses_total.value,
    );
    write_single(
        out,
        "pool_stale_discards_total",
        "Idle pool connections found dead at checkout and discarded",
        "counter",
        m.pool_stale_discards_total.value,
    );
    write_single(
        out,
        "pool_overflow_drops_total",
        "Connections dropped at check-in because the pool was full",
        "counter",
        m.pool_overflow_drops_total.value,
    );
    write_single(
        out,
        "pool_stale_retries_total",
        "Requests replayed on a fresh connection after a pooled one died on send",
        "counter",
        m.pool_stale_retries_total.value,
    );
    write_single(
        out,
        "dns_refresh_swaps_total",
        "DNS refresh passes that installed a changed backend set",
        "counter",
        m.dns_refresh_swaps_total.value,
    );
    write_single(
        out,
        "dns_refresh_superseded_total",
        "DNS refresh passes dropped because a reconcile swapped concurrently",
        "counter",
        m.dns_refresh_superseded_total.value,
    );
    write_single(
        out,
        "dns_refresh_unchanged_total",
        "DNS refresh passes with an unchanged backend set",
        "counter",
        m.dns_refresh_unchanged_total.value,
    );
    write_single(
        out,
        "backends_marked_unhealthy_total",
        "Backend health transitions into UNHEALTHY",
        "counter",
        m.backends_marked_unhealthy_total.value,
    );
    write_single(
        out,
        "backends_recovered_total",
        "Backend health recoveries (probe or passive)",
        "counter",
        m.backends_recovered_total.value,
    );
    write_single(
        out,
        "reconcile_runs_total",
        "Gateway reconcile passes that ran the apply path",
        "counter",
        m.reconcile_runs_total.value,
    );
    write_single(
        out,
        "reconcile_skips_total",
        "Gateway reconcile passes short-circuited by the fingerprint gate",
        "counter",
        m.reconcile_skips_total.value,
    );
}

/// A label with its value, as it stands behind a name.
pub open spec fn label_text(label: Seq<char>, value: Seq<char>) -> Seq<char> {
    "{"@ + label + "=\""@ + escaped(value) + "\"}"@
}

/// The text with a sample for each of the counters.
pub open spec fn put_labeled(
    out: Seq<char>,
    name: Seq<char>,
    label: Seq<char>,
    entries: Seq<LabeledCounterView>,
) -> Seq<char>
    decreases entries.len(),
{
    if entries.len() == 0 {
        out
    } else {
        put_sample(
            put_labeled(out, name, label, entries.drop_last()),
            name,
            label_text(label, entries.last().label),
            text::decimal(entries.last().value as nat),
        )
    }
}

/// The text with a labeled family, in the order of the label values; a family
/// without counters is left out.
pub open spec fn put_family(
    out: Seq<char>,
    family: LabeledFamily,
    name: Seq<char>,
    label: Seq<char>,
    help: Seq<char>,
) -> Seq<char> {
    if family.entries@.len() == 0 {
        out
    } else {
        put_labeled(
            put_header(out, name, help, "counter"@),
            name,
            label,
            order::sort_seq::<LabeledCounter>(family.entries.deep_view()),
        )
    }
}

/// Writes a labeled family out, in the order of its label values.
pub fn render_labeled_family(
    out: &mut String,
    family: &LabeledFamily,
    name: &str,
    label: &str,
    help: &str,
)
    ensures
        final(out)@ == put_family(old(out)@, *family, name@, label@, help@),
{
    if family.entries.len() == 0 {
        return;
    }
    write_header(out, name, help, "counter");
    let sorted = sort_vec(family.entries.dup());
    let ghost s = sorted.deep_view();
    let ghost start = out@;
    let mut i: usize = 0;
    assert(s.take(0) =~= Seq::empty());
    while i < sorted.len()
        invariant
            i <= sorted@.len(),
            s == sorted.deep_view(),
            out@ == put_labeled(start, name@, label@, s.take(i as int)),
        decreases sorted.len() - i,
    {
        let mut labels = "{".to_owned();
        labels.append(label);
        labels.append("=\"");
        labels.append(escape_label(sorted[i].label.as_str()).as_str());
        labels.append("\"}");
        proof {
            assert(s.take(i + 1).last() == sorted[i as int].deep_view());
            assert(s.take(i + 1).drop_last() =~= s.take(i as int));
        }
        write_sample(out, name, labels.as_str(), u64_text(sorted[i].value).as_str());
        i += 1;
    }
    assert(s.take(s.len() as int) =~= s);
}

/// One of the series that every listener has.
#[derive(Clone, Copy, Debug, PartialEq, Eq)]
pub enum ListenerSeries {
    Accepted,
    Active,
    HttpRequests,
    TlsHandshakeFailures,
    UpstreamConnectErrors,
    UpstreamConnectTimeouts,
    Up,
}

impl ListenerSeries {
    /// The name of the series.
    pub open spec fn spec_name(self) -> Seq<char> {
        match self {
            ListenerSeries::Accepted => "listener_accepted_total"@,
            ListenerSeries::Active => "listener_active_connections"@,
            ListenerSeries::HttpRequests => "listener_http_requests_total"@,
            ListenerSeries::TlsHandshakeFailures => "listener_tls_handshake_failures_total"@,
            ListenerSeries::UpstreamConnectErrors => "listener_upstream_connect_errors_total"@,
            ListenerSeries::UpstreamConnectTimeouts => "listener_upstream_connect_timeouts_total"@,
            ListenerSeries::Up => "listener_up"@,
        }
    }

    /// What the series says.
    pub open spec fn spec_help(self) -> Seq<char> {
        match self {
            ListenerSeries::Accepted => "Connections accepted (TCP) or datagrams received (UDP) per listener"@,
            ListenerSeries::Active => "Client connections currently open per listener"@,
            ListenerSeries::HttpRequests => "HTTP requests dispatched to a backend per listener"@,
            ListenerSeries::TlsHandshakeFailures => "Client TLS handshakes that failed or timed out per listener"@,
            ListenerSeries::UpstreamConnectErrors => "Backend connects that failed (client saw 502) per listener"@,
            ListenerSeries::UpstreamConnectTimeouts => "Backend connects that timed out (client saw 504) per listener"@,
            ListenerSeries::Up => "Listener accept-loop liveness (1 = accepting)"@,
        }
    }

    /// The type of the series.
    pub open spec fn spec_kind(self) -> Seq<char> {
        match self {
            ListenerSeries::Active | ListenerSeries::Up => "gauge"@,
            _ => "counter"@,
        }
    }

    /// The listener's number in the series.
    pub open spec fn spec_value(self, s: ListenerStats) -> u64 {
        match self {
            ListenerSeries::Accepted => s.accepted,
            ListenerSeries::Active => s.active,
            ListenerSeries::HttpRequests => s.http_requests,
            ListenerSeries::TlsHandshakeFailures => s.tls_handshake_failures,
            ListenerSeries::UpstreamConnectErrors => s.upstream_connect_errors,
            ListenerSeries::UpstreamConnectTimeouts => s.upstream_connect_timeouts,
            ListenerSeries::Up => s.up,
        }
    }

    fn name(self) -> (r: &'static str)
        ensures
            r@ == self.spec_name(),
    {
        match self {
            ListenerSeries::Accepted => "listener_accepted_total",
            ListenerSeries::Active => "listener_active_connections",
            ListenerSeries::HttpRequests => "listener_http_requests_total",
            ListenerSeries::TlsHandshakeFailures => "listener_tls_handshake_failures_total",
            ListenerSeries::UpstreamConnectErrors => "listener_upstream_connect_errors_total",
            ListenerSeries::UpstreamConnectTimeouts => "listener_upstream_connect_timeouts_total",
            ListenerSeries::Up => "listener_up",
        }
    }

    fn help(self) -> (r: &'static str)
        ensures
            r@ == self.spec_help(),
    {
        match self {
            ListenerSeries::Accepted => "Connections accepted (TCP) or datagrams received (UDP) per listener",
            ListenerSeries::Active => "Client connections currently open per listener",
            ListenerSeries::HttpRequests => "HTTP requests dispatched to a backend per listener",
            ListenerSeries::TlsHandshakeFailures => "Client TLS handshakes that failed or timed out per listener",
            ListenerSeries::UpstreamConnectErrors => "Backend connects that failed (client saw 502) per listener",
            ListenerSeries::UpstreamConnectTimeouts => "Backend connects that timed out (client saw 504) per listener",
            ListenerSeries::Up => "Listener accept-loop liveness (1 = accepting)",
        }
    }

    fn kind(self) -> (r: &'static str)
        ensures
            r@ == self.spec_kind(),
    {
        match self {
            ListenerSeries::Active | ListenerSeries::Up => "gauge",
            _ => "counter",
        }
    }

    fn value(self, s: &ListenerStats) -> (r: u64)
        ensures
            r == self.spec_value(*s),
    {
        match self {
            ListenerSeries::Accepted => s.accepted,
            ListenerSeries::Active => s.active,
            ListenerSeries::HttpRequests => s.http_requests,
            ListenerSeries::TlsHandshakeFailures => s.tls_handshake_failures,
            ListenerSeries::UpstreamConnectErrors => s.upstream_connect_errors,
            ListenerSeries::UpstreamConnectTimeouts => s.upstream_connect_timeouts,
            ListenerSeries::Up => s.up,
        }
    }
}

/// The labels of a listener.
pub open spec fn listener_labels(e: ListenerEntryView) -> Seq<char> {
    "{proto=\""@ + e.proto + "\",port=\""@ + text::decimal(e.port as nat) + "\"}"@
}

/// The text with a sample for each of the listeners.
pub open spec fn put_listener_samples(
    out: Seq<char>,
    series: ListenerSeries,
    entries: Seq<ListenerEntryView>,
) -> Seq<char>
    decreases entries.len(),
{
    if entries.len() == 0 {
        out
    } else {
        put_sample(
            put_listener_samples(out, series, entries.drop_last()),
            series.spec_name(),
            listener_labels(entries.last()),
            text::decimal(series.spec_value(entries.last().stats) as nat),
        )
    }
}

/// The text with one series of all listeners.
pub open spec fn put_listener_series(
    out: Seq<char>,
    series: ListenerSeries,
    entries: Seq<ListenerEntryView>,
) -> Seq<char> {
    put_listener_samples(
        put_header(out, series.spec_name(), series.spec_help(), series.spec_kind()),
        series,
        entries,
    )
}

/// The text with every series of the listeners, in the order of protocol and
/// port; left out where there are no listeners.
pub open spec fn put_listeners(out: Seq<char>, listeners: Seq<ListenerEntryView>) -> Seq<char> {
    if listeners.len() == 0 {
        out
    } else {
        let entries = order::sort_seq::<ListenerEntry>(listeners);
        let out = put_listener_series(out, ListenerSeries::Accepted, entries);
        let out = put_listener_series(out, ListenerSeries::Active, entries);
        let out = put_listener_series(out, ListenerSeries::HttpRequests, entries);
        let out = put_listener_series(out, ListenerSeries::TlsHandshakeFailures, entries);
        let out = put_listener_series(out, ListenerSeries::UpstreamConnectErrors, entries);
        let out = put_listener_series(out, ListenerSeries::UpstreamConnectTimeouts, entries);
        let out = put_listener_series(out, ListenerSeries::Up, entries);
        out
    }
}

fn render_listener_series(out: &mut String, series: ListenerSeries, sorted: &Vec<ListenerEntry>)
    ensures
        final(out)@ == put_listener_series(old(out)@, series, sorted.deep_view()),
{
    write_header(out, series.name(), series.help(), series.kind());
    let ghost s = sorted.deep_view();
    let ghost start = out@;
    let mut i: usize = 0;
    assert(s.take(0) =~= Seq::empty());
    while i < sorted.len()
        invariant
            i <= sorted@.len(),
            s == sorted.deep_view(),
            out@ == put_listener_samples(start, series, s.take(i as int)),
        decreases sorted.len() - i,
    {
        let e = &sorted[i];
        let mut labels = "{proto=\"".to_owned();
        labels.append(e.proto.as_str());
        labels.append("\",port=\"");
        labels.append(u64_text(e.port as u64).as_str());
        labels.append("\"}");
        proof {
            assert(s.take(i + 1).last() == e.deep_view());
            assert(s.take(i + 1).drop_last() =~= s.take(i as int));
        }
        write_sample(
            out,
            series.name(),
            labels.as_str(),
            u64_text(series.value(&e.stats)).as_str(),
        );
        i += 1;
    }
    assert(s.take(s.len() as int) =~= s);
}

/// Writes every series of the listeners out.
pub fn render_listeners(out: &mut String, listeners: &Vec<ListenerEntry>)
    ensures
        final(out)@ == put_listeners(old(out)@, listeners.deep_view()),
{
    if listeners.len() == 0 {
        return;
    }
    let sorted = sort_vec(listeners.dup());
    render_listener_series(out, ListenerSeries::Accepted, &sorted);
    render_listener_series(out, ListenerSeries::Active, &sorted);
    render_listener_series(out, ListenerSeries::HttpRequests, &sorted);
    render_listener_series(out, ListenerSeries::TlsHandshakeFailures, &sorted);
    render_listener_series(out, ListenerSeries::UpstreamConnectErrors, &sorted);
    render_listener_series(out, ListenerSeries::UpstreamConnectTimeouts, &sorted);
    render_listener_series(out, ListenerSeries::Up, &sorted);
}

/// The label of a bucket.
pub open spec fn bound_text(bound: Seq<char>) -> Seq<char> {
    "_bucket{le=\""@ + bound + "\"}"@
}

/// The text with the first `n` buckets.
pub open spec fn put_buckets(out: Seq<char>, name: Seq<char>, buckets: Seq<u64>, n: int) -> Seq<
    char,
>
    decreases n,
{
    if n <= 0 {
        out
    } else {
        put_sample(
            put_buckets(out, name, buckets, n - 1),
            name,
            bound_text(LE_LABELS@[n - 1]@),
            text::decimal(cumulative(buckets, n) as nat),
        )
    }
}

/// The text with a histogram: the buckets, each with what the ones before it
/// hold, then all samples, their sum as `sum` writes it, and their count.
pub open spec fn put_histogram(
    out: Seq<char>,
    name: Seq<char>,
    help: Seq<char>,
    h: Histogram,
    sum: Seq<char>,
) -> Seq<char> {
    let count = text::decimal(shown_count(h) as nat);
    let out = put_header(out, name, help, "histogram"@);
    let out = put_buckets(out, name, h.buckets@, 21);
    let out = put_sample(out, name, bound_text("+Inf"@), count);
    let out = put_sample(out, name, "_sum"@, sum);
    put_sample(out, name, "_count"@, count)
}

fn write_bucket(out: &mut String, name: &str, bound: &str, value: u64)
    ensures
        final(out)@ == put_sample(
            old(out)@,
            name@,
            bound_text(bound@),
            text::decimal(value as nat),
        ),
{
    let mut labels = "_bucket{le=\"".to_owned();
    labels.append(bound);
    labels.append("\"}");
    write_sample(out, name, labels.as_str(), u64_text(value).as_str());
}

/// Writes a histogram out. `sum` is the sum of its samples in seconds, as it is
/// to be written.
pub fn render_histogram(out: &mut String, name: &str, help: &str, h: &Histogram, sum: &str)
    ensures
        final(out)@ == put_histogram(old(out)@, name@, help@, *h, sum@),
{
    write_header(out, name, help, "histogram");
    let ghost start = out@;
    let mut cum: u64 = 0;
    let mut i: usize = 0;
    while i < 21
        invariant
            i <= 21,
            cum == cumulative(h.buckets@, i as int),
            out@ == put_buckets(start, name@, h.buckets@, i as int),
        decreases 21 - i,
    {
        cum = cum.wrapping_add(h.buckets[i]);
        write_bucket(out, name, LE_LABELS[i], cum);
        i += 1;
    }
    let count: u64 = if h.count >= cum {
        h.count
    } else {
        cum
    };
    write_bucket(out, name, "+Inf", count);
    write_sample(out, name, "_sum", sum);
    write_sample(out, name, "_count", u64_text(count).as_str());
}

/// The text with the failed connects of each configured backend.
pub open spec fn put_connect_errors(out: Seq<char>, family: LabeledFamily) -> Seq<char> {
    put_family(
        out,
        family,
        "upstream_connect_errors_total"@,
        "backend"@,
        "Backend connects that failed (client saw 502), by configured backend"@,
    )
}

/// The text with the timed-out connects of each configured backend.
pub open spec fn put_connect_timeouts(out: Seq<char>, family: LabeledFamily) -> Seq<char> {
    put_family(
        out,
        family,
        "upstream_connect_timeouts_total"@,
        "backend"@,
        "Backend connects that timed out (client saw 504), by configured backend"@,
    )
}

/// The text with what comes before the connects: the process-wide counters and
/// the requests of each configured hostname.
pub open spec fn put_first_series(out: Seq<char>, m: Metrics) -> Seq<char> {
    put_family(
        put_counters(out, m),
        m.host_requests,
        "http_requests_total"@,
        "host"@,
        "HTTP requests dispatched to a backend, by the matched route's configured hostname"@,
    )
}

/// The text with what comes behind the connects: the listeners, the histograms
/// and the gauges.
pub open spec fn put_last_series(
    out: Seq<char>,
    m: Metrics,
    ready: bool,
    request_sum: Seq<char>,
    ttfb_sum: Seq<char>,
) -> Seq<char> {
    let out = put_listeners(out, m.listeners.deep_view());
    let out = put_histogram(
        out,
        "request_duration_seconds"@,
        "Proxied HTTP request duration, headers-complete to response flushed (upgrade tunnels excluded)"@,
        m.request_duration,
        request_sum,
    );
    let out = put_histogram(
        out,
        "upstream_ttfb_seconds"@,
        "Route match to backend response headers received (pool acquire, connect, request forward, backend processing)"@,
        m.upstream_ttfb,
        ttfb_sum,
    );
    let out = put_single(
        out,
        "active_connections"@,
        "Client connections currently open"@,
        "gauge"@,
        m.active_connections.value,
    );
    put_single(
        out,
        "ready"@,
        "Whether the data plane has bound its listener ports"@,
        "gauge"@,
        if ready {
            1
        } else {
            0
        },
    )
}

/// Everything that is measured as exposition text. `request_sum` and `ttfb_sum`
/// are the sums of the two histograms in seconds, as they are to be written.
pub open spec fn exposition(
    m: Metrics,
    ready: bool,
    request_sum: Seq<char>,
    ttfb_sum: Seq<char>,
) -> Seq<char> {
    let out = put_first_series(Seq::empty(), m);
    let out = put_connect_errors(out, m.backend_connect_errors);
    let out = put_connect_timeouts(out, m.backend_connect_timeouts);
    put_last_series(out, m, ready, request_sum, ttfb_sum)
}

/// Everything that is measured as exposition text.
pub fn render(m: &Metrics, ready: bool, request_sum: &str, ttfb_sum: &str) -> (r: String)
    ensures
        r@ == exposition(*m, ready, request_sum@, ttfb_sum@),
{
    let mut out = String::new();
    assert(out@ =~= Seq::empty());
    render_counters(&mut out, m);
    render_labeled_family(
        &mut out,
        &m.host_requests,
        "http_requests_total",
        "host",
        "HTTP requests dispatched to a backend, by the matched route's configured hostname",
    );
    render_labeled_family(
        &mut out,
        &m.backend_connect_errors,
        "upstream_connect_errors_total",
        "backend",
        "Backend connects that failed (client saw 502), by configured backend",
    );
    render_labeled_family(
        &mut out,
        &m.backend_connect_timeouts,
        "upstream_connect_timeouts_total",
        "backend",
        "Backend connects that timed out (client saw 504), by configured backend",
    );
    render_listeners(&mut out, &m.listeners);
    render_histogram(
        &mut out,
        "request_duration_seconds",
        "Proxied HTTP request duration, headers-complete to response flushed (upgrade tunnels excluded)",
        &m.request_duration,
        request_sum,
    );
    render_histogram(
        &mut out,
        "upstream_ttfb_seconds",
        "Route match to backend response headers received (pool acquire, connect, request forward, backend processing)",
        &m.upstream_ttfb,
        ttfb_sum,
    );
    write_single(
        &mut out,
        "active_connections",
        "Client connections currently open",
        "gauge",
        m.active_connections.value,
    );
    write_single(
        &mut out,
        "ready",
        "Whether the data plane has bound its listener ports",
        "gauge",
        if ready {
            1
        } else {
            0
        },
    );
    out
}

// ---------------------------------------------------------------------------
// Laws
// ---------------------------------------------------------------------------

/// How many samples the first `n` buckets hold, without a limit.
pub open spec fn total(buckets: Seq<u64>, n: int) -> nat
    decreases n,
{
    if n <= 0 {
        0
    } else {
        total(buckets, n - 1) + buckets[n - 1] as nat
    }
}

proof fn lemma_total_grows(buckets: Seq<u64>, i: int, j: int)
    requires
        i <= j,
    ensures
        total(buckets, i) <= total(buckets, j),
    decreases j - i,
{
    if i < j {
        lemma_total_grows(buckets, i, j - 1);
    }
}

proof fn lemma_cumulative_total(buckets: Seq<u64>, n: int)
    requires
        total(buckets, n) <= u64::MAX,
    ensures
        cumulative(buckets, n) == total(buckets, n),
    decreases n,
{
    if n > 0 {
        lemma_cumulative_total(buckets, n - 1);
    }
}

/// The buckets that are written out never decrease and never exceed the count,
/// as long as the samples can be counted at all.
pub proof fn law_buckets_cumulate(h: Histogram, i: int, j: int)
    requires
        0 <= i <= j <= 21,
        total(h.buckets@, 21) <= u64::MAX,
    ensures
        cumulative(h.buckets@, i) <= cumulative(h.buckets@, j) <= shown_count(h),
{
    lemma_total_grows(h.buckets@, i, j);
    lemma_total_grows(h.buckets@, j, 21);
    lemma_cumulative_total(h.buckets@, i);
    lemma_cumulative_total(h.buckets@, j);
    lemma_cumulative_total(h.buckets@, 21);
}

proof fn lemma_bucket_from(nanos: u64, i: int)
    requires
        0 <= i <= 21,
    ensures
        i <= bucket_from(nanos, i) <= 21,
        forall|k: int| i <= k < bucket_from(nanos, i) ==> nanos > #[trigger] LE_NANOS@[k],
        bucket_from(nanos, i) < 21 ==> nanos <= LE_NANOS@[bucket_from(nanos, i)],
    decreases 21 - i,
{
    if i < 21 && nanos > LE_NANOS@[i] {
        lemma_bucket_from(nanos, i + 1);
    }
}

proof fn lemma_total_update(buckets: Seq<u64>, b: int, v: u64, n: int)
    requires
        0 <= b < buckets.len(),
        0 <= n <= buckets.len(),
    ensures
        total(buckets.update(b, v), n) == total(buckets, n) + (if b < n {
            v - buckets[b]
        } else {
            0
        }),
    decreases n,
{
    if n > 0 {
        lemma_total_update(buckets, b, v, n - 1);
    }
}

proof fn lemma_sample_counts(buckets: Seq<u64>, nanos: u64, n: int)
    requires
        buckets.len() == 21,
        1 <= n <= 21,
        total(buckets, 21) < u64::MAX,
    ensures
        ({
            let after = with_sample((buckets, 0, 0), nanos).0;
            &&& cumulative(after, n) == cumulative(buckets, n) + (if nanos <= LE_NANOS@[n - 1] {
                1int
            } else {
                0
            })
            &&& total(after, 21) <= total(buckets, 21) + 1
        }),
{
    let b = bucket_from(nanos, 0);
    lemma_bucket_from(nanos, 0);
    lemma_total_grows(buckets, n, 21);
    lemma_cumulative_total(buckets, n);
    if b < 21 {
        let v = buckets[b].wrapping_add(1);
        lemma_total_grows(buckets, b + 1, 21);
        assert(total(buckets, b + 1) == total(buckets, b) + buckets[b]);
        assert(v == buckets[b] + 1);
        lemma_total_update(buckets, b, v, n);
        lemma_total_update(buckets, b, v, 21);
        lemma_total_grows(buckets.update(b, v), n, 21);
        lemma_cumulative_total(buckets.update(b, v), n);
    }
    if b < n {
        assert(LE_NANOS@[b] <= LE_NANOS@[n - 1]) by {
            lemma_bounds_rise(b, n - 1);
        }
    }
}

/// A sample raises, by one, what is written for the bucket of each bound that
/// it does not exceed, and nothing else: the bounds rise from one bucket to
/// the next.
pub proof fn law_sample_counts_where_it_fits(h: Histogram, nanos: u64, n: int)
    requires
        1 <= n <= 21,
        total(h.buckets@, 21) < u64::MAX,
    ensures
        cumulative(h.observed(nanos).0, n) == cumulative(h.buckets@, n) + (if nanos
            <= LE_NANOS@[n - 1] {
            1int
        } else {
            0
        }),
{
    lemma_sample_counts(h.buckets@, nanos, n);
}

/// How many of the samples do not exceed `bound`.
pub open spec fn at_most(samples: Seq<u64>, bound: u64) -> nat {
    samples.filter(|nanos: u64| nanos <= bound).len()
}

proof fn lemma_at_most(samples: Seq<u64>, bound: u64)
    requires
        samples.len() > 0,
    ensures
        at_most(samples, bound) == at_most(samples.drop_last(), bound) + (if samples.last()
            <= bound {
            1nat
        } else {
            0
        }),
{
    reveal(Seq::filter);
}

proof fn lemma_at_most_rises(samples: Seq<u64>, low: u64, high: u64)
    requires
        low <= high,
    ensures
        at_most(samples, low) <= at_most(samples, high) <= samples.len(),
    decreases samples.len(),
{
    reveal(Seq::filter);
    if samples.len() > 0 {
        lemma_at_most_rises(samples.drop_last(), low, high);
        lemma_at_most(samples, low);
        lemma_at_most(samples, high);
    }
}

proof fn lemma_after_samples(samples: Seq<u64>)
    requires
        samples.len() <= u64::MAX,
    ensures
        after_samples(samples).0.len() == 21,
        after_samples(samples).2 == samples.len(),
        total(after_samples(samples).0, 21) <= samples.len(),
        forall|n: int|
            1 <= n <= 21 ==> #[trigger] cumulative(after_samples(samples).0, n) == at_most(
                samples,
                LE_NANOS@[n - 1],
            ),
    decreases samples.len(),
{
    reveal(Seq::filter);
    if samples.len() == 0 {
        lemma_no_samples(21);
        assert forall|n: int| 1 <= n <= 21 implies #[trigger] cumulative(
            after_samples(samples).0,
            n,
        ) == 0 by {
            lemma_no_samples(n);
        }
    } else {
        let before = after_samples(samples.drop_last());
        lemma_after_samples(samples.drop_last());
        lemma_bucket_from(samples.last(), 0);
        lemma_sample_counts(before.0, samples.last(), 21);
        assert forall|n: int| 1 <= n <= 21 implies #[trigger] cumulative(
            after_samples(samples).0,
            n,
        ) == at_most(samples, LE_NANOS@[n - 1]) by {
            lemma_sample_counts(before.0, samples.last(), n);
            lemma_at_most(samples, LE_NANOS@[n - 1]);
        }
    }
}

proof fn lemma_no_samples(n: int)
    requires
        0 <= n <= 21,
    ensures
        cumulative(Seq::new(21, |i: int| 0u64), n) == 0,
        total(Seq::new(21, |i: int| 0u64), n) == 0,
    decreases n,
{
    if n > 0 {
        lemma_no_samples(n - 1);
    }
}

/// The text with the first `n` buckets of these samples: each with how many of
/// them do not exceed its bound.
pub open spec fn put_sample_buckets(
    out: Seq<char>,
    name: Seq<char>,
    samples: Seq<u64>,
    n: int,
) -> Seq<char>
    decreases n,
{
    if n <= 0 {
        out
    } else {
        put_sample(
            put_sample_buckets(out, name, samples, n - 1),
            name,
            bound_text(LE_LABELS@[n - 1]@),
            text::decimal(at_most(samples, LE_NANOS@[n - 1])),
        )
    }
}

/// The text with a histogram of these samples.
pub open spec fn put_samples(
    out: Seq<char>,
    name: Seq<char>,
    help: Seq<char>,
    samples: Seq<u64>,
    sum: Seq<char>,
) -> Seq<char> {
    let count = text::decimal(samples.len());
    let out = put_header(out, name, help, "histogram"@);
    let out = put_sample_buckets(out, name, samples, 21);
    let out = put_sample(out, name, bound_text("+Inf"@), count);
    let out = put_sample(out, name, "_sum"@, sum);
    put_sample(out, name, "_count"@, count)
}

proof fn lemma_put_sample_buckets(out: Seq<char>, name: Seq<char>, samples: Seq<u64>, n: int)
    requires
        0 <= n <= 21,
        samples.len() <= u64::MAX,
    ensures
        put_buckets(out, name, after_samples(samples).0, n) == put_sample_buckets(
            out,
            name,
            samples,
            n,
        ),
    decreases n,
{
    if n > 0 {
        lemma_put_sample_buckets(out, name, samples, n - 1);
        lemma_after_samples(samples);
        assert(cumulative(after_samples(samples).0, n) == at_most(samples, LE_NANOS@[n - 1]));
    }
}

/// What is written of a histogram is what a reader would count in its samples:
/// the line of each bound shows how many of them do not exceed it, `+Inf` and
/// the count show how many there are. The bounds rise, so that no bucket shows
/// less than the one before it nor more than `+Inf`. What was written before
/// stays in front.
pub proof fn law_histogram_shows_its_samples(
    h: Histogram,
    samples: Seq<u64>,
    out: Seq<char>,
    name: Seq<char>,
    help: Seq<char>,
    sum: Seq<char>,
)
    requires
        h.holds(samples),
        samples.len() <= u64::MAX,
    ensures
        put_histogram(out, name, help, h, sum) == put_samples(out, name, help, samples, sum),
        forall|i: int, j: int|
            0 <= i < j < 21 ==> (#[trigger] LE_NANOS@[i]) < (#[trigger] LE_NANOS@[j]) && at_most(
                samples,
                LE_NANOS@[i],
            ) <= at_most(samples, LE_NANOS@[j]) <= samples.len(),
        put_histogram(out, name, help, h, sum) == out + put_histogram(
            Seq::empty(),
            name,
            help,
            h,
            sum,
        ),
{
    lemma_after_samples(samples);
    lemma_put_sample_buckets(
        put_header(out, name, help, "histogram"@),
        name,
        samples,
        21,
    );
    lemma_at_most_rises(samples, LE_NANOS@[20], LE_NANOS@[20]);
    assert(cumulative(h.buckets@, 21) == at_most(samples, LE_NANOS@[20]));
    assert forall|i: int, j: int| 0 <= i < j < 21 implies (#[trigger] LE_NANOS@[i]) < (
    #[trigger] LE_NANOS@[j]) && at_most(samples, LE_NANOS@[i]) <= at_most(samples, LE_NANOS@[j])
        <= samples.len() by {
        lemma_bounds_rise(i, j - 1);
        assert(LE_NANOS@[j - 1] < LE_NANOS@[j]);
        lemma_at_most_rises(samples, LE_NANOS@[i], LE_NANOS@[j]);
    }
    assert(out + Seq::<char>::empty() =~= out);
    lemma_histogram_appends(out, Seq::empty(), name, help, h, sum);
}

proof fn lemma_bounds_rise(i: int, j: int)
    requires
        0 <= i <= j < 21,
    ensures
        LE_NANOS@[i] <= LE_NANOS@[j],
    decreases j - i,
{
    if i < j {
        lemma_bounds_rise(i, j - 1);
        assert(LE_NANOS@[j - 1] <= LE_NANOS@[j]);
    }
}

proof fn lemma_sample_appends(
    out: Seq<char>,
    t: Seq<char>,
    name: Seq<char>,
    labels: Seq<char>,
    value: Seq<char>,
)
    ensures
        put_sample(out + t, name, labels, value) == out + put_sample(t, name, labels, value),
{
    assert(put_sample(out + t, name, labels, value) =~= out + put_sample(t, name, labels, value));
}

proof fn lemma_header_appends(
    out: Seq<char>,
    t: Seq<char>,
    name: Seq<char>,
    help: Seq<char>,
    kind: Seq<char>,
)
    ensures
        put_header(out + t, name, help, kind) == out + put_header(t, name, help, kind),
{
    assert(put_header(out + t, name, help, kind) =~= out + put_header(t, name, help, kind));
}

proof fn lemma_buckets_append(
    out: Seq<char>,
    t: Seq<char>,
    name: Seq<char>,
    buckets: Seq<u64>,
    n: int,
)
    ensures
        put_buckets(out + t, name, buckets, n) == out + put_buckets(t, name, buckets, n),
    decreases n,
{
    if n > 0 {
        lemma_buckets_append(out, t, name, buckets, n - 1);
        lemma_sample_appends(
            out,
            put_buckets(t, name, buckets, n - 1),
            name,
            bound_text(LE_LABELS@[n - 1]@),
            text::decimal(cumulative(buckets, n) as nat),
        );
    }
}

proof fn lemma_histogram_appends(
    out: Seq<char>,
    t: Seq<char>,
    name: Seq<char>,
    help: Seq<char>,
    h: Histogram,
    sum: Seq<char>,
)
    ensures
        put_histogram(out + t, name, help, h, sum) == out + put_histogram(t, name, help, h, sum),
{
    let count = text::decimal(shown_count(h) as nat);
    let a = put_header(t, name, help, "histogram"@);
    lemma_header_appends(out, t, name, help, "histogram"@);
    let b = put_buckets(a, name, h.buckets@, 21);
    lemma_buckets_append(out, a, name, h.buckets@, 21);
    let c = put_sample(b, name, bound_text("+Inf"@), count);
    lemma_sample_appends(out, b, name, bound_text("+Inf"@), count);
    let d = put_sample(c, name, "_sum"@, sum);
    lemma_sample_appends(out, c, name, "_sum"@, sum);
    lemma_sample_appends(out, d, name, "_count"@, count);
}

/// Whether no two counters have the same label.
pub open spec fn labels_unique(entries: Seq<LabeledCounterView>) -> bool {
    forall|i: int, j: int|
        0 <= i < entries.len() && 0 <= j < entries.len() && (#[trigger] entries[i]).label == (
        #[trigger] entries[j]).label ==> i == j
}

proof fn lemma_label_slot_found(entries: Seq<LabeledCounterView>, label: Seq<char>)
    ensures
        0 <= label_slot(entries, label) <= entries.len(),
        label_slot(entries, label) < entries.len() ==> entries[label_slot(entries, label)].label
            == label,
        forall|i: int|
            0 <= i < label_slot(entries, label) ==> (#[trigger] entries[i]).label != label,
    decreases entries.len(),
{
    if entries.len() > 0 && entries.first().label != label {
        let rest = entries.drop_first();
        lemma_label_slot_found(rest, label);
        assert forall|i: int| 0 <= i < label_slot(entries, label) implies (
        #[trigger] entries[i]).label != label by {
            if i > 0 {
                assert(entries[i] == rest[i - 1]);
            }
        }
    }
}

/// A family keeps one counter per label, whatever is counted.
pub proof fn law_one_counter_per_label(entries: Seq<LabeledCounterView>, label: Seq<char>)
    requires
        labels_unique(entries),
    ensures
        labels_unique(with_label(entries, label)),
        labels_unique(counted_for(entries, label)),
{
    lemma_label_slot_found(entries, label);
    let w = with_label(entries, label);
    let c = counted_for(entries, label);
    assert forall|i: int, j: int|
        0 <= i < w.len() && 0 <= j < w.len() && (#[trigger] w[i]).label == (
        #[trigger] w[j]).label implies i == j by {
        if i < entries.len() && j < entries.len() {
            assert(entries[i].label == entries[j].label);
        }
    }
    assert forall|i: int, j: int|
        0 <= i < c.len() && 0 <= j < c.len() && (#[trigger] c[i]).label == (
        #[trigger] c[j]).label implies i == j by {
        assert(w[i].label == w[j].label);
    }
}

/// A counter keeps its slot when other labels are counted, and its value too.
pub proof fn law_counter_keeps_its_slot(
    entries: Seq<LabeledCounterView>,
    label: Seq<char>,
    other: Seq<char>,
)
    requires
        label_slot(entries, label) < entries.len(),
        label != other,
    ensures
        ({
            let after = counted_for(entries, other);
            let slot = label_slot(entries, label);
            &&& label_slot(after, label) == slot
            &&& after[slot] == entries[slot]
        }),
{
    lemma_label_slot_found(entries, label);
    lemma_label_slot_found(entries, other);
    let after = counted_for(entries, other);
    let slot = label_slot(entries, label);
    assert forall|i: int| 0 <= i < slot implies (#[trigger] after[i]).label != label by {
        assert(entries[i].label != label);
    }
    lemma_label_slot(after, label, slot);
}

/// The sum of a family's counters, without a limit.
pub open spec fn family_total(entries: Seq<LabeledCounterView>) -> nat
    decreases entries.len(),
{
    if entries.len() == 0 {
        0
    } else {
        family_total(entries.drop_last()) + entries.last().value as nat
    }
}

proof fn lemma_family_total_update(
    entries: Seq<LabeledCounterView>,
    i: int,
    e: LabeledCounterView,
)
    requires
        0 <= i < entries.len(),
    ensures
        family_total(entries.update(i, e)) == family_total(entries) + e.value - entries[i].value,
    decreases entries.len(),
{
    let u = entries.update(i, e);
    if i == entries.len() - 1 {
        assert(u.drop_last() =~= entries.drop_last());
    } else {
        assert(u.drop_last() =~= entries.drop_last().update(i, e));
        lemma_family_total_update(entries.drop_last(), i, e);
    }
}

proof fn lemma_family_total_bounds(entries: Seq<LabeledCounterView>, i: int)
    requires
        0 <= i < entries.len(),
    ensures
        entries[i].value <= family_total(entries),
    decreases entries.len(),
{
    if i < entries.len() - 1 {
        lemma_family_total_bounds(entries.drop_last(), i);
    }
}

/// The labels part the events among them: one more event raises the sum over
/// all labels by one.
pub proof fn law_labels_partition_events(entries: Seq<LabeledCounterView>, label: Seq<char>)
    requires
        family_total(entries) < u64::MAX,
    ensures
        family_total(counted_for(entries, label)) == family_total(entries) + 1,
{
    lemma_label_slot_found(entries, label);
    let w = with_label(entries, label);
    let slot = label_slot(entries, label);
    if slot == entries.len() {
        assert(w.drop_last() =~= entries);
    }
    lemma_family_total_bounds(w, slot);
    lemma_family_total_update(
        w,
        slot,
        LabeledCounterView { value: w[slot].value.wrapping_add(1), ..w[slot] },
    );
}

proof fn lemma_family_sort(x: Seq<LabeledCounterView>, y: Seq<LabeledCounterView>)
    requires
        labels_unique(x),
        x.to_multiset() == y.to_multiset(),
    ensures
        order::sort_seq::<LabeledCounter>(x) == order::sort_seq::<LabeledCounter>(y),
        x.len() == y.len(),
{
    let le = |p: LabeledCounterView, q: LabeledCounterView| LabeledCounter::spec_le(p, q);
    order::lemma_text_le_total_ordering();
    let t = |p: Seq<char>, q: Seq<char>| order::text_le(p, q);
    assert forall|p: LabeledCounterView, q: LabeledCounterView, r: LabeledCounterView|
        #[trigger] le(p, q) && #[trigger] le(q, r) implies le(p, r) by {
        assert(t(p.label, q.label) && t(q.label, r.label));
        assert(t(p.label, r.label));
    }
    assert forall|p: LabeledCounterView, q: LabeledCounterView| #[trigger] le(p, q) || le(q, p) by {
        assert(t(p.label, q.label) || t(q.label, p.label));
    }
    order::lemma_sort_sorted::<LabeledCounter>(x);
    order::lemma_sort_sorted::<LabeledCounter>(y);
    order::lemma_sort_multiset::<LabeledCounter>(x);
    order::lemma_sort_multiset::<LabeledCounter>(y);
    let sx = order::sort_seq::<LabeledCounter>(x);
    let sy = order::sort_seq::<LabeledCounter>(y);
    broadcast use vstd::seq_lib::group_to_multiset_ensures;

    assert(x.len() == x.to_multiset().len());
    assert(y.len() == y.to_multiset().len());
    assert forall|i: int, j: int|
        #![trigger sx[i], sx[j]]
        0 <= i < sx.len() && 0 <= j < sx.len() && le(sx[i], sx[j]) && le(
            sx[j],
            sx[i],
        ) implies sx[i] == sx[j] by {
        assert(t(sx[i].label, sx[j].label) && t(sx[j].label, sx[i].label));
        assert(sx[i].label == sx[j].label);
        assert(sx.contains(sx[i]) && sx.contains(sx[j]));
        assert(x.to_multiset().count(sx[i]) > 0 && x.to_multiset().count(sx[j]) > 0);
        let k = choose|k: int| 0 <= k < x.len() && x[k] == sx[i];
        let l = choose|l: int| 0 <= l < x.len() && x[l] == sx[j];
        assert(x.contains(sx[i]) && x.contains(sx[j]));
        assert(x[k].label == x[l].label);
    }
    order::lemma_sorted_lists_equal(sx, sy, le);
}

/// The scrape shows a family in one order, whatever order its labels were first
/// seen in.
pub proof fn law_family_order(a: LabeledFamily, b: LabeledFamily)
    requires
        labels_unique(a.entries.deep_view()),
        a.entries.deep_view().to_multiset() == b.entries.deep_view().to_multiset(),
    ensures
        forall|out: Seq<char>, name: Seq<char>, label: Seq<char>, help: Seq<char>|
            #[trigger] put_family(out, a, name, label, help) == put_family(
                out,
                b,
                name,
                label,
                help,
            ),
{
    lemma_family_sort(a.entries.deep_view(), b.entries.deep_view());
}

/// The line of a labeled counter.
pub open spec fn counter_line(name: Seq<char>, label: Seq<char>, e: LabeledCounterView) -> Seq<
    char,
> {
    put_sample(Seq::empty(), name, label_text(label, e.label), text::decimal(e.value as nat))
}

/// The lines of counters, in the order of the label values.
pub open spec fn counter_lines(
    entries: Seq<LabeledCounterView>,
    name: Seq<char>,
    label: Seq<char>,
) -> Seq<Seq<char>> {
    order::sort_seq::<LabeledCounter>(entries).map_values(
        |e: LabeledCounterView| counter_line(name, label, e),
    )
}

/// What the counter of a label stands at; zero where it has none.
pub open spec fn counter_value(entries: Seq<LabeledCounterView>, label: Seq<char>) -> u64 {
    if label_slot(entries, label) < entries.len() {
        entries[label_slot(entries, label)].value
    } else {
        0
    }
}

/// The counters of all other labels.
pub open spec fn other_counters(entries: Seq<LabeledCounterView>, label: Seq<char>) -> Seq<
    LabeledCounterView,
> {
    entries.filter(|e: LabeledCounterView| e.label != label)
}

proof fn lemma_labeled_appends(
    out: Seq<char>,
    t: Seq<char>,
    name: Seq<char>,
    label: Seq<char>,
    entries: Seq<LabeledCounterView>,
)
    ensures
        put_labeled(out + t, name, label, entries) == out + put_labeled(t, name, label, entries),
    decreases entries.len(),
{
    if entries.len() > 0 {
        lemma_labeled_appends(out, t, name, label, entries.drop_last());
        lemma_sample_appends(
            out,
            put_labeled(t, name, label, entries.drop_last()),
            name,
            label_text(label, entries.last().label),
            text::decimal(entries.last().value as nat),
        );
    }
}

proof fn lemma_labeled_lines(
    out: Seq<char>,
    name: Seq<char>,
    label: Seq<char>,
    entries: Seq<LabeledCounterView>,
)
    ensures
        put_labeled(out, name, label, entries) == out + entries.map_values(
            |e: LabeledCounterView| counter_line(name, label, e),
        ).flatten(),
    decreases entries.len(),
{
    let f = |e: LabeledCounterView| counter_line(name, label, e);
    let none = Seq::<char>::empty();
    if entries.len() == 0 {
        assert(entries.map_values(f).flatten() =~= none);
    } else {
        let init = entries.drop_last();
        let before = put_labeled(out, name, label, init);
        lemma_labeled_lines(out, name, label, init);
        assert(entries.map_values(f) =~= init.map_values(f).push(f(entries.last())));
        init.map_values(f).lemma_flatten_push(f(entries.last()));
        assert(before + none =~= before);
        lemma_sample_appends(
            before,
            none,
            name,
            label_text(label, entries.last().label),
            text::decimal(entries.last().value as nat),
        );
        assert(out + init.map_values(f).flatten() + f(entries.last()) =~= out + (init.map_values(
            f,
        ).flatten() + f(entries.last())));
    }
}

/// A family is written as the line that declares it and the lines of its
/// counters, and as nothing where it has none.
pub proof fn law_family_is_its_lines(
    out: Seq<char>,
    family: LabeledFamily,
    name: Seq<char>,
    label: Seq<char>,
    help: Seq<char>,
)
    ensures
        put_family(out, family, name, label, help) == if family.entries@.len() == 0 {
            out
        } else {
            put_header(out, name, help, "counter"@) + counter_lines(
                family.entries.deep_view(),
                name,
                label,
            ).flatten()
        },
{
    lemma_labeled_lines(
        put_header(out, name, help, "counter"@),
        name,
        label,
        order::sort_seq::<LabeledCounter>(family.entries.deep_view()),
    );
}

proof fn lemma_others_all(entries: Seq<LabeledCounterView>, label: Seq<char>)
    requires
        forall|i: int| 0 <= i < entries.len() ==> (#[trigger] entries[i]).label != label,
    ensures
        other_counters(entries, label) == entries,
    decreases entries.len(),
{
    reveal(Seq::filter);
    if entries.len() > 0 {
        let init = entries.drop_last();
        assert forall|i: int| 0 <= i < init.len() implies (#[trigger] init[i]).label != label by {
            assert(entries[i].label != label);
        }
        lemma_others_all(init, label);
        assert(init.push(entries.last()) =~= entries);
    }
}

proof fn lemma_others_but_one(entries: Seq<LabeledCounterView>, label: Seq<char>, k: int)
    requires
        0 <= k < entries.len(),
        forall|i: int|
            0 <= i < entries.len() ==> ((#[trigger] entries[i]).label == label <==> i == k),
    ensures
        other_counters(entries, label) == entries.remove(k),
    decreases entries.len(),
{
    reveal(Seq::filter);
    let init = entries.drop_last();
    if k == entries.len() - 1 {
        assert forall|i: int| 0 <= i < init.len() implies (#[trigger] init[i]).label != label by {
            assert(entries[i].label != label);
        }
        lemma_others_all(init, label);
        assert(entries.remove(k) =~= init);
    } else {
        assert forall|i: int| 0 <= i < init.len() implies ((#[trigger] init[i]).label == label <==> i
            == k) by {
            assert(entries[i].label == label <==> i == k);
        }
        lemma_others_but_one(init, label, k);
        assert(entries[entries.len() - 1].label != label);
        assert(init.remove(k).push(entries.last()) =~= entries.remove(k));
    }
}

/// Where a counter goes in a sorted list: its label alone decides.
pub open spec fn place(sorted: Seq<LabeledCounterView>, label: Seq<char>) -> int
    decreases sorted.len(),
{
    if sorted.len() == 0 {
        0
    } else if !order::text_le(label, sorted.last().label) {
        sorted.len() as int
    } else {
        place(sorted.drop_last(), label)
    }
}

proof fn lemma_place(sorted: Seq<LabeledCounterView>, e: LabeledCounterView)
    ensures
        0 <= place(sorted, e.label) <= sorted.len(),
        order::insert_sorted::<LabeledCounter>(sorted, e) == sorted.insert(
            place(sorted, e.label),
            e,
        ),
    decreases sorted.len(),
{
    if sorted.len() == 0 {
        assert(seq![e] =~= sorted.insert(0, e));
    } else if !order::text_le(e.label, sorted.last().label) {
        assert(sorted.push(e) =~= sorted.insert(sorted.len() as int, e));
    } else {
        let init = sorted.drop_last();
        lemma_place(init, e);
        assert(init.insert(place(init, e.label), e).push(sorted.last()) =~= sorted.insert(
            place(init, e.label),
            e,
        ));
    }
}

/// The counters with one taken out and put in front sort to the others with
/// that one in its place.
proof fn lemma_sort_with(
    entries: Seq<LabeledCounterView>,
    rest: Seq<LabeledCounterView>,
    e: LabeledCounterView,
)
    requires
        labels_unique(entries),
        entries.to_multiset() == rest.to_multiset().insert(e),
    ensures
        order::sort_seq::<LabeledCounter>(entries) == order::sort_seq::<LabeledCounter>(
            rest,
        ).insert(place(order::sort_seq::<LabeledCounter>(rest), e.label), e),
{
    broadcast use vstd::seq_lib::group_to_multiset_ensures;

    let front = seq![e] + rest;
    assert(front.drop_first() =~= rest);
    assert(front.remove(0) =~= rest);
    assert(front.contains(front[0]));
    assert(rest.push(e).to_multiset() =~= rest.to_multiset().insert(e));
    assert(front.to_multiset() =~= rest.to_multiset().insert(e)) by {
        assert(front.remove(0).to_multiset() =~= front.to_multiset().remove(e));
    }
    lemma_family_sort(entries, front);
    lemma_place(order::sort_seq::<LabeledCounter>(rest), e);
}

proof fn lemma_remove_multiset(entries: Seq<LabeledCounterView>, k: int)
    requires
        0 <= k < entries.len(),
    ensures
        entries.to_multiset() == entries.remove(k).to_multiset().insert(entries[k]),
{
    broadcast use vstd::seq_lib::group_to_multiset_ensures;

    assert(entries.contains(entries[k]));
    assert(entries.remove(k).to_multiset() =~= entries.to_multiset().remove(entries[k]));
    assert(entries.to_multiset() =~= entries.remove(k).to_multiset().insert(entries[k]));
}

/// One more event for a label changes one line of its family: the line shows
/// one more than before, or one where there was none. The lines of all other
/// labels stay what and where they were.
pub proof fn law_event_changes_one_line(
    entries: Seq<LabeledCounterView>,
    label: Seq<char>,
    name: Seq<char>,
    label_name: Seq<char>,
)
    requires
        labels_unique(entries),
        counter_value(entries, label) < u64::MAX,
    ensures
        ({
            let others = counter_lines(other_counters(entries, label), name, label_name);
            let at = place(
                order::sort_seq::<LabeledCounter>(other_counters(entries, label)),
                label,
            );
            let v = counter_value(entries, label);
            &&& 0 <= at <= others.len()
            &&& counter_lines(entries, name, label_name) == if label_slot(entries, label)
                < entries.len() {
                others.insert(
                    at,
                    counter_line(name, label_name, LabeledCounterView { label, value: v }),
                )
            } else {
                others
            }
            &&& counter_lines(counted_for(entries, label), name, label_name) == others.insert(
                at,
                counter_line(
                    name,
                    label_name,
                    LabeledCounterView { label, value: (v + 1) as u64 },
                ),
            )
        }),
{
    broadcast use vstd::seq_lib::group_to_multiset_ensures;

    let f = |e: LabeledCounterView| counter_line(name, label_name, e);
    let slot = label_slot(entries, label);
    let v = counter_value(entries, label);
    let rest = other_counters(entries, label);
    let after = counted_for(entries, label);
    let e = LabeledCounterView { label, value: (v + 1) as u64 };
    let sorted = order::sort_seq::<LabeledCounter>(rest);
    let at = place(sorted, label);
    lemma_label_slot_found(entries, label);
    law_one_counter_per_label(entries, label);
    lemma_place(sorted, e);
    if slot < entries.len() {
        let old_e = entries[slot];
        assert forall|i: int| 0 <= i < entries.len() implies ((#[trigger] entries[i]).label
            == label <==> i == slot) by {}
        lemma_others_but_one(entries, label, slot);
        lemma_remove_multiset(entries, slot);
        lemma_sort_with(entries, rest, old_e);
        assert(after[slot] == e);
        assert(after.remove(slot) =~= rest);
        lemma_remove_multiset(after, slot);
        assert(sorted.insert(at, old_e).map_values(f) =~= sorted.map_values(f).insert(
            at,
            f(old_e),
        ));
    } else {
        lemma_others_all(entries, label);
        assert(after =~= entries.push(e));
    }
    lemma_sort_with(after, rest, e);
    assert(sorted.insert(at, e).map_values(f) =~= sorted.map_values(f).insert(at, f(e)));
}

proof fn lemma_single_appends(
    out: Seq<char>,
    t: Seq<char>,
    name: Seq<char>,
    help: Seq<char>,
    kind: Seq<char>,
    value: u64,
)
    ensures
        put_single(out + t, name, help, kind, value) == out + put_single(
            t,
            name,
            help,
            kind,
            value,
        ),
{
    lemma_header_appends(out, t, name, help, kind);
    lemma_sample_appends(
        out,
        put_header(t, name, help, kind),
        name,
        ""@,
        text::decimal(value as nat),
    );
}

proof fn lemma_family_appends(
    out: Seq<char>,
    t: Seq<char>,
    family: LabeledFamily,
    name: Seq<char>,
    label: Seq<char>,
    help: Seq<char>,
)
    ensures
        put_family(out + t, family, name, label, help) == out + put_family(
            t,
            family,
            name,
            label,
            help,
        ),
{
    lemma_header_appends(out, t, name, help, "counter"@);
    lemma_labeled_appends(
        out,
        put_header(t, name, help, "counter"@),
        name,
        label,
        order::sort_seq::<LabeledCounter>(family.entries.deep_view()),
    );
}

proof fn lemma_listener_samples_append(
    out: Seq<char>,
    t: Seq<char>,
    series: ListenerSeries,
    entries: Seq<ListenerEntryView>,
)
    ensures
        put_listener_samples(out + t, series, entries) == out + put_listener_samples(
            t,
            series,
            entries,
        ),
    decreases entries.len(),
{
    if entries.len() > 0 {
        lemma_listener_samples_append(out, t, series, entries.drop_last());
        lemma_sample_appends(
            out,
            put_listener_samples(t, series, entries.drop_last()),
            series.spec_name(),
            listener_labels(entries.last()),
            text::decimal(series.spec_value(entries.last().stats) as nat),
        );
    }
}

proof fn lemma_listener_series_appends(
    out: Seq<char>,
    t: Seq<char>,
    series: ListenerSeries,
    entries: Seq<ListenerEntryView>,
)
    ensures
        put_listener_series(out + t, series, entries) == out + put_listener_series(
            t,
            series,
            entries,
        ),
{
    lemma_header_appends(out, t, series.spec_name(), series.spec_help(), series.spec_kind());
    lemma_listener_samples_append(
        out,
        put_header(t, series.spec_name(), series.spec_help(), series.spec_kind()),
        series,
        entries,
    );
}

proof fn lemma_listeners_append(
    out: Seq<char>,
    t: Seq<char>,
    listeners: Seq<ListenerEntryView>,
)
    ensures
        put_listeners(out + t, listeners) == out + put_listeners(t, listeners),
{
    let s = order::sort_seq::<ListenerEntry>(listeners);
    let a = put_listener_series(t, ListenerSeries::Accepted, s);
    lemma_listener_series_appends(out, t, ListenerSeries::Accepted, s);
    let b = put_listener_series(a, ListenerSeries::Active, s);
    lemma_listener_series_appends(out, a, ListenerSeries::Active, s);
    let c = put_listener_series(b, ListenerSeries::HttpRequests, s);
    lemma_listener_series_appends(out, b, ListenerSeries::HttpRequests, s);
    let d = put_listener_series(c, ListenerSeries::TlsHandshakeFailures, s);
    lemma_listener_series_appends(out, c, ListenerSeries::TlsHandshakeFailures, s);
    let e = put_listener_series(d, ListenerSeries::UpstreamConnectErrors, s);
    lemma_listener_series_appends(out, d, ListenerSeries::UpstreamConnectErrors, s);
    let f = put_listener_series(e, ListenerSeries::UpstreamConnectTimeouts, s);
    lemma_listener_series_appends(out, e, ListenerSeries::UpstreamConnectTimeouts, s);
    lemma_listener_series_appends(out, f, ListenerSeries::Up, s);
}

proof fn lemma_last_series_append(
    out: Seq<char>,
    t: Seq<char>,
    m: Metrics,
    ready: bool,
    request_sum: Seq<char>,
    ttfb_sum: Seq<char>,
)
    ensures
        put_last_series(out + t, m, ready, request_sum, ttfb_sum) == out + put_last_series(
            t,
            m,
            ready,
            request_sum,
            ttfb_sum,
        ),
{
    let request_name = "request_duration_seconds"@;
    let request_help =
        "Proxied HTTP request duration, headers-complete to response flushed (upgrade tunnels excluded)"@;
    let ttfb_name = "upstream_ttfb_seconds"@;
    let ttfb_help =
        "Route match to backend response headers received (pool acquire, connect, request forward, backend processing)"@;
    let active_name = "active_connections"@;
    let active_help = "Client connections currently open"@;
    let up: u64 = if ready {
        1
    } else {
        0
    };
    let a = put_listeners(t, m.listeners.deep_view());
    lemma_listeners_append(out, t, m.listeners.deep_view());
    let b = put_histogram(a, request_name, request_help, m.request_duration, request_sum);
    lemma_histogram_appends(out, a, request_name, request_help, m.request_duration, request_sum);
    let c = put_histogram(b, ttfb_name, ttfb_help, m.upstream_ttfb, ttfb_sum);
    lemma_histogram_appends(out, b, ttfb_name, ttfb_help, m.upstream_ttfb, ttfb_sum);
    let d = put_single(c, active_name, active_help, "gauge"@, m.active_connections.value);
    lemma_single_appends(
        out,
        c,
        active_name,
        active_help,
        "gauge"@,
        m.active_connections.value,
    );
    lemma_single_appends(
        out,
        d,
        "ready"@,
        "Whether the data plane has bound its listener ports"@,
        "gauge"@,
        up,
    );
}

/// The scrape is four texts, one behind the other: what comes before the
/// connects, the failed connects, the timed-out connects, and the rest.
pub proof fn law_scrape_parts(
    m: Metrics,
    ready: bool,
    request_sum: Seq<char>,
    ttfb_sum: Seq<char>,
)
    ensures
        exposition(m, ready, request_sum, ttfb_sum) == put_first_series(Seq::empty(), m)
            + put_connect_errors(Seq::empty(), m.backend_connect_errors) + put_connect_timeouts(
            Seq::empty(),
            m.backend_connect_timeouts,
        ) + put_last_series(Seq::empty(), m, ready, request_sum, ttfb_sum),
{
    let none = Seq::<char>::empty();
    let first = put_first_series(none, m);
    let errors = put_connect_errors(none, m.backend_connect_errors);
    let timeouts = put_connect_timeouts(none, m.backend_connect_timeouts);
    assert(first + none =~= first);
    lemma_family_appends(
        first,
        none,
        m.backend_connect_errors,
        "upstream_connect_errors_total"@,
        "backend"@,
        "Backend connects that failed (client saw 502), by configured backend"@,
    );
    let two = first + errors;
    assert(two + none =~= two);
    lemma_family_appends(
        two,
        none,
        m.backend_connect_timeouts,
        "upstream_connect_timeouts_total"@,
        "backend"@,
        "Backend connects that timed out (client saw 504), by configured backend"@,
    );
    let three = two + timeouts;
    assert(three + none =~= three);
    lemma_last_series_append(three, none, m, ready, request_sum, ttfb_sum);
}

/// After a failed connect the scrape shows one more for that backend, from zero
/// where it had none, and is otherwise as it was: the lines of every other
/// backend, all timed-out connects and every other series.
#[verifier::spinoff_prover]
#[verifier::rlimit(40)]
pub proof fn law_connect_error_is_shown(
    before: Metrics,
    after: Metrics,
    backend: Seq<char>,
    ready: bool,
    request_sum: Seq<char>,
    ttfb_sum: Seq<char>,
)
    requires
        labels_unique(before.backend_connect_errors.entries.deep_view()),
        counter_value(before.backend_connect_errors.entries.deep_view(), backend) < u64::MAX,
        after.backend_connect_errors.entries.deep_view() == counted_for(
            before.backend_connect_errors.entries.deep_view(),
            backend,
        ),
        after == (Metrics { backend_connect_errors: after.backend_connect_errors, ..before }),
    ensures
        ({
            let name = "upstream_connect_errors_total"@;
            let help = "Backend connects that failed (client saw 502), by configured backend"@;
            let entries = before.backend_connect_errors.entries.deep_view();
            let had = label_slot(entries, backend) < entries.len();
            let v = counter_value(entries, backend);
            let rest = other_counters(entries, backend);
            let others = counter_lines(rest, name, "backend"@);
            let at = place(order::sort_seq::<LabeledCounter>(rest), backend);
            let first = put_first_series(Seq::empty(), before);
            let declared = put_header(Seq::empty(), name, help, "counter"@);
            let timeouts = put_connect_timeouts(Seq::empty(), before.backend_connect_timeouts);
            let last = put_last_series(Seq::empty(), before, ready, request_sum, ttfb_sum);
            &&& 0 <= at <= others.len()
            &&& exposition(before, ready, request_sum, ttfb_sum) == first + (if entries.len()
                == 0 {
                Seq::empty()
            } else if had {
                declared + others.insert(
                    at,
                    counter_line(name, "backend"@, LabeledCounterView { label: backend, value: v }),
                ).flatten()
            } else {
                declared + others.flatten()
            }) + timeouts + last
            &&& exposition(after, ready, request_sum, ttfb_sum) == first + (declared
                + others.insert(
                at,
                counter_line(
                    name,
                    "backend"@,
                    LabeledCounterView { label: backend, value: (v + 1) as u64 },
                ),
            ).flatten()) + timeouts + last
        }),
{
    let none = Seq::<char>::empty();
    let name = "upstream_connect_errors_total"@;
    let help = "Backend connects that failed (client saw 502), by configured backend"@;
    let entries = before.backend_connect_errors.entries.deep_view();
    law_event_changes_one_line(entries, backend, name, "backend"@);
    law_scrape_parts(before, ready, request_sum, ttfb_sum);
    law_scrape_parts(after, ready, request_sum, ttfb_sum);
    law_family_is_its_lines(none, before.backend_connect_errors, name, "backend"@, help);
    law_family_is_its_lines(none, after.backend_connect_errors, name, "backend"@, help);
    lemma_label_slot_found(entries, backend);
    assert(after.backend_connect_errors.entries.deep_view().len() > 0);
    assert(put_first_series(none, after) == put_first_series(none, before));
    assert(put_last_series(none, after, ready, request_sum, ttfb_sum) == put_last_series(
        none,
        before,
        ready,
        request_sum,
        ttfb_sum,
    ));
}

/// A label value cannot break a line of the scrape.
pub proof fn law_label_stays_on_its_line(v: Seq<char>)
    ensures
        !escaped(v).contains('\n'),
    decreases v.len(),
{
    if v.len() > 0 {
        law_label_stays_on_its_line(v.drop_last());
        let head = escaped(v.drop_last());
        let tail = escaped_char(v.last());
        assert forall|i: int| 0 <= i < escaped(v).len() implies #[trigger] escaped(v)[i]
            != '\n' by {
            if i < head.len() {
                assert(head.contains(head[i]));
            } else {
                assert(escaped(v)[i] == tail[i - head.len()]);
            }
        }
    }
}

proof fn lemma_listener_slot_found(
    entries: Seq<ListenerEntryView>,
    proto: Seq<char>,
    port: u16,
)
    ensures
        ({
            let s = listener_slot(entries, proto, port);
            &&& 0 <= s <= entries.len()
            &&& s < entries.len() ==> entries[s].proto == proto && entries[s].port == port
            &&& forall|i: int|
                0 <= i < s ==> !((#[trigger] entries[i]).proto == proto && entries[i].port == port)
        }),
    decreases entries.len(),
{
    if entries.len() > 0 && !(entries.first().proto == proto && entries.first().port == port) {
        let rest = entries.drop_first();
        lemma_listener_slot_found(rest, proto, port);
        assert forall|i: int| 0 <= i < listener_slot(entries, proto, port) implies !((
        #[trigger] entries[i]).proto == proto && entries[i].port == port) by {
            if i > 0 {
                assert(entries[i] == rest[i - 1]);
            }
        }
    }
}

/// A listener that goes down and is bound again takes up the stats that it had:
/// they are as they were while it was up, and it is up.
pub proof fn law_rebind_keeps_stats(entries: Seq<ListenerEntryView>, proto: Seq<char>, port: u16)
    ensures
        ({
            let slot = listener_slot(entries, proto, port);
            let up = registered(entries, proto, port);
            let down = with_up(up, slot, 0);
            &&& up[slot].stats.up == 1
            &&& down[slot].stats.up == 0
            &&& registered(down, proto, port) == up
        }),
{
    lemma_listener_slot_found(entries, proto, port);
    let slot = listener_slot(entries, proto, port);
    let up = registered(entries, proto, port);
    let down = with_up(up, slot, 0);
    assert forall|i: int| 0 <= i < slot implies !((#[trigger] down[i]).proto == proto
        && down[i].port == port) by {
        assert(!(entries[i].proto == proto && entries[i].port == port));
    }
    lemma_listener_slot(down, proto, port, slot);
    assert(registered(down, proto, port) =~= up);
}

/// Registering a listener leaves every other listener alone.
pub proof fn law_register_spares_others(
    entries: Seq<ListenerEntryView>,
    proto: Seq<char>,
    port: u16,
    i: int,
)
    requires
        0 <= i < entries.len(),
        i != listener_slot(entries, proto, port),
    ensures
        registered(entries, proto, port)[i] == entries[i],
{
    lemma_listener_slot_found(entries, proto, port);
}

/// Escaping goes character by character: backslash, double quote and newline
/// get a backslash in front, the newline as an `n`, and all others stay.
pub proof fn law_escaping(a: Seq<char>, b: Seq<char>, c: char)
    ensures
        escaped(Seq::empty()).len() == 0,
        escaped(a + b) == escaped(a) + escaped(b),
        escaped(seq!['\\']) == seq!['\\', '\\'],
        escaped(seq!['"']) == seq!['\\', '"'],
        escaped(seq!['\n']) == seq!['\\', 'n'],
        c != '\\' && c != '"' && c != '\n' ==> escaped(seq![c]) == seq![c],
    decreases b.len(),
{
    lemma_escaped_one('\\');
    lemma_escaped_one('"');
    lemma_escaped_one('\n');
    lemma_escaped_one(c);
    if b.len() == 0 {
        assert(a + b =~= a);
        assert(escaped(a) + escaped(b) =~= escaped(a));
    } else {
        law_escaping(a, b.drop_last(), c);
        assert((a + b).drop_last() =~= a + b.drop_last());
        assert((a + b).last() == b.last());
        assert(escaped(a) + (escaped(b.drop_last()) + escaped_char(b.last())) =~= (escaped(a)
            + escaped(b.drop_last())) + escaped_char(b.last()));
    }
}

proof fn lemma_escaped_one(c: char)
    ensures
        escaped(seq![c]) == escaped_char(c),
{
    assert(seq![c].drop_last() =~= Seq::empty());
    assert(escaped(Seq::<char>::empty()) =~= Seq::empty());
    assert(Seq::empty() + escaped_char(c) =~= escaped_char(c));
}

/// The lines of the scrape: a series is declared with its help and its type,
/// and a sample is the name, its labels and its value.
pub proof fn law_line_texts(
    name: Seq<char>,
    help: Seq<char>,
    kind: Seq<char>,
    label: Seq<char>,
    e: LabeledCounterView,
    value: u64,
)
    ensures
        put_single(Seq::empty(), name, help, kind, value) == "# HELP portail_"@ + name + " "@ + help
            + "\n# TYPE portail_"@ + name + " "@ + kind + "\n"@ + "portail_"@ + name + " "@
            + text::decimal(value as nat) + "\n"@,
        counter_line(name, label, e) == "portail_"@ + name + "{"@ + label + "=\""@ + escaped(
            e.label,
        ) + "\"}"@ + " "@ + text::decimal(e.value as nat) + "\n"@,
{
    reveal_strlit("");
    assert(""@ =~= Seq::<char>::empty());
    assert(put_single(Seq::empty(), name, help, kind, value) =~= "# HELP portail_"@ + name + " "@
        + help + "\n# TYPE portail_"@ + name + " "@ + kind + "\n"@ + "portail_"@ + name + " "@
        + text::decimal(value as nat) + "\n"@);
    assert(counter_line(name, label, e) =~= "portail_"@ + name + "{"@ + label + "=\""@ + escaped(
        e.label,
    ) + "\"}"@ + " "@ + text::decimal(e.value as nat) + "\n"@);
}

/// The line of an unlabeled counter.
pub open spec fn single_line(name: Seq<char>, value: u64) -> Seq<char> {
    "portail_"@ + name + " "@ + text::decimal(value as nat) + "\n"@
}

/// Whether a text holds a part.
pub open spec fn shows(whole: Seq<char>, part: Seq<char>) -> bool {
    exists|a: Seq<char>, b: Seq<char>| whole == #[trigger] (a + part + b)
}

proof fn lemma_single_shows(
    out: Seq<char>,
    name: Seq<char>,
    help: Seq<char>,
    kind: Seq<char>,
    value: u64,
)
    ensures
        shows(put_single(out, name, help, kind, value), single_line(name, value)),
        forall|part: Seq<char>| #[trigger]
            shows(out, part) ==> shows(put_single(out, name, help, kind, value), part),
{
    reveal_strlit("");
    assert(""@ =~= Seq::<char>::empty());
    let r = put_single(out, name, help, kind, value);
    let head = put_header(out, name, help, kind);
    assert(r =~= head + single_line(name, value) + Seq::empty());
    assert forall|part: Seq<char>| #[trigger] shows(out, part) implies shows(r, part) by {
        let (a, b) = choose|a: Seq<char>, b: Seq<char>| out == #[trigger] (a + part + b);
        let tail = r.skip(out.len() as int);
        assert(r =~= out + tail) by {
            lemma_single_appends(out, Seq::empty(), name, help, kind, value);
            assert(out + Seq::empty() =~= out);
        }
        assert(r =~= a + part + (b + tail));
    }
}

/// Each process-wide counter is shown under its own name with its own value.
pub proof fn law_counters_are_shown(out: Seq<char>, m: Metrics)
    ensures
        ({
            let r = put_counters(out, m);
            let line = |name: Seq<char>, c: Counter| shows(r, single_line(name, c.value));
            &&& line("access_log_dropped_total"@, m.access_log_dropped_total)
            &&& line("connections_accepted_total"@, m.connections_accepted_total)
            &&& line("tls_handshake_failures_total"@, m.tls_handshake_failures_total)
            &&& line("upstream_connects_total"@, m.upstream_connects_total)
            &&& line("pool_hits_total"@, m.pool_hits_total)
            &&& line("pool_misses_total"@, m.pool_misses_total)
            &&& line("pool_stale_discards_total"@, m.pool_stale_discards_total)
            &&& line("pool_overflow_drops_total"@, m.pool_overflow_drops_total)
            &&& line("pool_stale_retries_total"@, m.pool_stale_retries_total)
            &&& line("dns_refresh_swaps_total"@, m.dns_refresh_swaps_total)
            &&& line("dns_refresh_superseded_total"@, m.dns_refresh_superseded_total)
            &&& line("dns_refresh_unchanged_total"@, m.dns_refresh_unchanged_total)
            &&& line("backends_marked_unhealthy_total"@, m.backends_marked_unhealthy_total)
            &&& line("backends_recovered_total"@, m.backends_recovered_total)
            &&& line("reconcile_runs_total"@, m.reconcile_runs_total)
            &&& line("reconcile_skips_total"@, m.reconcile_skips_total)
        }),
{
    let o = out;
    let help = "Access log lines dropped because the writer lagged or its sink failed"@;
    lemma_single_shows(o, "access_log_dropped_total"@, help, "counter"@, m.access_log_dropped_total.value);
    let o = put_single(o, "access_log_dropped_total"@, help, "counter"@, m.access_log_dropped_total.value);
    let help = "Client connections accepted across all listeners"@;
    lemma_single_shows(o, "connections_accepted_total"@, help, "counter"@, m.connections_accepted_total.value);
    let o = put_single(o, "connections_accepted_total"@, help, "counter"@, m.connections_accepted_total.value);
    let help = "Client TLS handshakes that failed or timed out"@;
    lemma_single_shows(o, "tls_handshake_failures_total"@, help, "counter"@, m.tls_handshake_failures_total.value);
    let o = put_single(o, "tls_handshake_failures_total"@, help, "counter"@, m.tls_handshake_failures_total.value);
    let help = "Backend connections established"@;
    lemma_single_shows(o, "upstream_connects_total"@, help, "counter"@, m.upstream_connects_total.value);
    let o = put_single(o, "upstream_connects_total"@, help, "counter"@, m.upstream_connects_total.value);
    let help = "Backend pool checkouts served by an idle connection"@;
    lemma_single_shows(o, "pool_hits_total"@, help, "counter"@, m.pool_hits_total.value);
    let o = put_single(o, "pool_hits_total"@, help, "counter"@, m.pool_hits_total.value);
    let help = "Backend pool checkouts that had to open a new connection"@;
    lemma_single_shows(o, "pool_misses_total"@, help, "counter"@, m.pool_misses_total.value);
    let o = put_single(o, "pool_misses_total"@, help, "counter"@, m.pool_misses_total.value);
    let help = "Idle pool connections found dead at checkout and discarded"@;
    lemma_single_shows(o, "pool_stale_discards_total"@, help, "counter"@, m.pool_stale_discards_total.value);
    let o = put_single(o, "pool_stale_discards_total"@, help, "counter"@, m.pool_stale_discards_total.value);
    let help = "Connections dropped at check-in because the pool was full"@;
    lemma_single_shows(o, "pool_overflow_drops_total"@, help, "counter"@, m.pool_overflow_drops_total.value);
    let o = put_single(o, "pool_overflow_drops_total"@, help, "counter"@, m.pool_overflow_drops_total.value);
    let help = "Requests replayed on a fresh connection after a pooled one died on send"@;
    lemma_single_shows(o, "pool_stale_retries_total"@, help, "counter"@, m.pool_stale_retries_total.value);
    let o = put_single(o, "pool_stale_retries_total"@, help, "counter"@, m.pool_stale_retries_total.value);
    let help = "DNS refresh passes that installed a changed backend set"@;
    lemma_single_shows(o, "dns_refresh_swaps_total"@, help, "counter"@, m.dns_refresh_swaps_total.value);
    let o = put_single(o, "dns_refresh_swaps_total"@, help, "counter"@, m.dns_refresh_swaps_total.value);
    let help = "DNS refresh passes dropped because a reconcile swapped concurrently"@;
    lemma_single_shows(o, "dns_refresh_superseded_total"@, help, "counter"@, m.dns_refresh_superseded_total.value);
    let o = put_single(o, "dns_refresh_superseded_total"@, help, "counter"@, m.dns_refresh_superseded_total.value);
    let help = "DNS refresh passes with an unchanged backend set"@;
    lemma_single_shows(o, "dns_refresh_unchanged_total"@, help, "counter"@, m.dns_refresh_unchanged_total.value);
    let o = put_single(o, "dns_refresh_unchanged_total"@, help, "counter"@, m.dns_refresh_unchanged_total.value);
    let help = "Backend health transitions into UNHEALTHY"@;
    lemma_single_shows(o, "backends_marked_unhealthy_total"@, help, "counter"@, m.backends_marked_unhealthy_total.value);
    let o = put_single(o, "backends_marked_unhealthy_total"@, help, "counter"@, m.backends_marked_unhealthy_total.value);
    let help = "Backend health recoveries (probe or passive)"@;
    lemma_single_shows(o, "backends_recovered_total"@, help, "counter"@, m.backends_recovered_total.value);
    let o = put_single(o, "backends_recovered_total"@, help, "counter"@, m.backends_recovered_total.value);
    let help = "Gateway reconcile passes that ran the apply path"@;
    lemma_single_shows(o, "reconcile_runs_total"@, help, "counter"@, m.reconcile_runs_total.value);
    let o = put_single(o, "reconcile_runs_total"@, help, "counter"@, m.reconcile_runs_total.value);
    let help = "Gateway reconcile passes short-circuited by the fingerprint gate"@;
    lemma_single_shows(o, "reconcile_skips_total"@, help, "counter"@, m.reconcile_skips_total.value);
}

/// The gauges at the end of the scrape: the open connections, and one or zero
/// for readiness.
pub proof fn law_gauges_are_shown(
    out: Seq<char>,
    m: Metrics,
    ready: bool,
    request_sum: Seq<char>,
    ttfb_sum: Seq<char>,
)
    ensures
        ({
            let r = put_last_series(out, m, ready, request_sum, ttfb_sum);
            &&& shows(r, single_line("active_connections"@, m.active_connections.value))
            &&& ready ==> shows(r, single_line("ready"@, 1))
            &&& !ready ==> shows(r, single_line("ready"@, 0))
        }),
{
    let o = put_listeners(out, m.listeners.deep_view());
    let o = put_histogram(
        o,
        "request_duration_seconds"@,
        "Proxied HTTP request duration, headers-complete to response flushed (upgrade tunnels excluded)"@,
        m.request_duration,
        request_sum,
    );
    let o = put_histogram(
        o,
        "upstream_ttfb_seconds"@,
        "Route match to backend response headers received (pool acquire, connect, request forward, backend processing)"@,
        m.upstream_ttfb,
        ttfb_sum,
    );
    let help = "Client connections currently open"@;
    lemma_single_shows(o, "active_connections"@, help, "gauge"@, m.active_connections.value);
    let o = put_single(o, "active_connections"@, help, "gauge"@, m.active_connections.value);
    lemma_single_shows(
        o,
        "ready"@,
        "Whether the data plane has bound its listener ports"@,
        "gauge"@,
        if ready {
            1
        } else {
            0
        },
    );
}

/// Every listener has seven series, each with its own name, type and number.
pub proof fn law_listener_series(s: ListenerStats)
    ensures
        ListenerSeries::Accepted.spec_name() == "listener_accepted_total"@,
        ListenerSeries::Accepted.spec_value(s) == s.accepted,
        ListenerSeries::Accepted.spec_kind() == "counter"@,
        ListenerSeries::Active.spec_name() == "listener_active_connections"@,
        ListenerSeries::Active.spec_value(s) == s.active,
        ListenerSeries::Active.spec_kind() == "gauge"@,
        ListenerSeries::HttpRequests.spec_name() == "listener_http_requests_total"@,
        ListenerSeries::HttpRequests.spec_value(s) == s.http_requests,
        ListenerSeries::HttpRequests.spec_kind() == "counter"@,
        ListenerSeries::TlsHandshakeFailures.spec_name()
            == "listener_tls_handshake_failures_total"@,
        ListenerSeries::TlsHandshakeFailures.spec_value(s) == s.tls_handshake_failures,
        ListenerSeries::TlsHandshakeFailures.spec_kind() == "counter"@,
        ListenerSeries::UpstreamConnectErrors.spec_name()
            == "listener_upstream_connect_errors_total"@,
        ListenerSeries::UpstreamConnectErrors.spec_value(s) == s.upstream_connect_errors,
        ListenerSeries::UpstreamConnectErrors.spec_kind() == "counter"@,
        ListenerSeries::UpstreamConnectTimeouts.spec_name()
            == "listener_upstream_connect_timeouts_total"@,
        ListenerSeries::UpstreamConnectTimeouts.spec_value(s) == s.upstream_connect_timeouts,
        ListenerSeries::UpstreamConnectTimeouts.spec_kind() == "counter"@,
        ListenerSeries::Up.spec_name() == "listener_up"@,
        ListenerSeries::Up.spec_value(s) == s.up,
        ListenerSeries::Up.spec_kind() == "gauge"@,
{
}

/// A series of listeners is its declaration and a line for each listener, by
/// protocol and port.
pub proof fn law_listener_lines(
    out: Seq<char>,
    series: ListenerSeries,
    entries: Seq<ListenerEntryView>,
    e: ListenerEntryView,
)
    ensures
        put_listener_series(out, series, Seq::empty()) == out + "# HELP portail_"@
            + series.spec_name() + " "@ + series.spec_help() + "\n# TYPE portail_"@
            + series.spec_name() + " "@ + series.spec_kind() + "\n"@,
        put_listener_series(out, series, entries.push(e)) == put_listener_series(
            out,
            series,
            entries,
        ) + ("portail_"@ + series.spec_name() + "{proto=\""@ + e.proto + "\",port=\""@
            + text::decimal(e.port as nat) + "\"}"@ + " "@ + text::decimal(
            series.spec_value(e.stats) as nat,
        ) + "\n"@),
{
    let more = entries.push(e);
    assert(more.drop_last() =~= entries);
    assert(more.last() == e);
    let before = put_listener_series(out, series, entries);
    assert(put_listener_series(out, series, more) =~= before + ("portail_"@ + series.spec_name()
        + "{proto=\""@ + e.proto + "\",port=\""@ + text::decimal(e.port as nat) + "\"}"@ + " "@
        + text::decimal(series.spec_value(e.stats) as nat) + "\n"@));
}

/// The series of listeners come one behind the other, all over the same sorted
/// listeners; without listeners there are none.
pub proof fn law_all_listener_series(listeners: Seq<ListenerEntryView>)
    ensures
        ({
            let sorted = order::sort_seq::<ListenerEntry>(listeners);
            let part = |s: ListenerSeries| put_listener_series(Seq::empty(), s, sorted);
            &&& listeners.len() == 0 ==> put_listeners(Seq::empty(), listeners).len() == 0
            &&& listeners.len() > 0 ==> put_listeners(Seq::empty(), listeners) == part(
                ListenerSeries::Accepted,
            ) + part(ListenerSeries::Active) + part(ListenerSeries::HttpRequests) + part(
                ListenerSeries::TlsHandshakeFailures,
            ) + part(ListenerSeries::UpstreamConnectErrors) + part(
                ListenerSeries::UpstreamConnectTimeouts,
            ) + part(ListenerSeries::Up)
        }),
{
    let none = Seq::<char>::empty();
    let sorted = order::sort_seq::<ListenerEntry>(listeners);
    let o = put_listener_series(none, ListenerSeries::Accepted, sorted);
    lemma_series_follows(o, ListenerSeries::Active, sorted);
    let o = put_listener_series(o, ListenerSeries::Active, sorted);
    lemma_series_follows(o, ListenerSeries::HttpRequests, sorted);
    let o = put_listener_series(o, ListenerSeries::HttpRequests, sorted);
    lemma_series_follows(o, ListenerSeries::TlsHandshakeFailures, sorted);
    let o = put_listener_series(o, ListenerSeries::TlsHandshakeFailures, sorted);
    lemma_series_follows(o, ListenerSeries::UpstreamConnectErrors, sorted);
    let o = put_listener_series(o, ListenerSeries::UpstreamConnectErrors, sorted);
    lemma_series_follows(o, ListenerSeries::UpstreamConnectTimeouts, sorted);
    let o = put_listener_series(o, ListenerSeries::UpstreamConnectTimeouts, sorted);
    lemma_series_follows(o, ListenerSeries::Up, sorted);
}

proof fn lemma_series_follows(
    out: Seq<char>,
    series: ListenerSeries,
    entries: Seq<ListenerEntryView>,
)
    ensures
        put_listener_series(out, series, entries) == out + put_listener_series(
            Seq::empty(),
            series,
            entries,
        ),
{
    lemma_listener_series_appends(out, Seq::empty(), series, entries);
    assert(out + Seq::empty() =~= out);
}

/// Listeners are ordered by protocol, then port.
pub proof fn law_listener_order(a: ListenerEntryView, b: ListenerEntryView)
    ensures
        a.proto == b.proto ==> (ListenerEntry::spec_le(a, b) <==> a.port <= b.port),
        a.proto != b.proto ==> (ListenerEntry::spec_le(a, b) <==> order::text_le(a.proto, b.proto)),
{
}

/// A listener that is new starts with nothing counted, and is up. Going up or
/// down changes nothing else.
pub proof fn law_new_listener(
    entries: Seq<ListenerEntryView>,
    proto: Seq<char>,
    port: u16,
    i: int,
    up: u64,
)
    ensures
        (forall|j: int|
            0 <= j < entries.len() ==> (#[trigger] entries[j]).proto != proto || entries[j].port
                != port) ==> ({
            let after = registered(entries, proto, port);
            let e = after[entries.len() as int];
            &&& after.len() == entries.len() + 1
            &&& after.take(entries.len() as int) == entries
            &&& e.proto == proto && e.port == port
            &&& e.stats.accepted == 0 && e.stats.active == 0 && e.stats.http_requests == 0
            &&& e.stats.tls_handshake_failures == 0 && e.stats.upstream_connect_errors == 0
            &&& e.stats.upstream_connect_timeouts == 0 && e.stats.up == 1
        }),
        0 <= i < entries.len() ==> ({
            let after = with_up(entries, i, up);
            &&& after.len() == entries.len()
            &&& after[i].proto == entries[i].proto && after[i].port == entries[i].port
            &&& after[i].stats.up == up
            &&& after[i].stats == (ListenerStats { up, ..entries[i].stats })
            &&& forall|j: int|
                0 <= j < entries.len() && j != i ==> #[trigger] after[j] == entries[j]
        }),
{
    if forall|j: int|
        0 <= j < entries.len() ==> (#[trigger] entries[j]).proto != proto || entries[j].port
            != port {
        lemma_listener_slot(entries, proto, port, entries.len() as int);
        assert(registered(entries, proto, port).take(entries.len() as int) =~= entries);
    }
}

/// A sample adds itself to the sum and one to the count, and counts in one
/// bucket at most: the first whose bound it does not exceed.
pub proof fn law_sample_adds_up(h: Histogram, nanos: u64, i: int)
    requires
        0 <= i < 21,
    ensures
        ({
            let after = h.observed(nanos);
            &&& after.1 == h.sum_nanos.wrapping_add(nanos)
            &&& after.2 == h.count.wrapping_add(1)
            &&& after.0.len() == 21
            &&& nanos <= LE_NANOS@[i] && (i == 0 || nanos > LE_NANOS@[i - 1]) ==> after.0[i]
                == h.buckets@[i].wrapping_add(1)
            &&& nanos > LE_NANOS@[i] || (i > 0 && nanos <= LE_NANOS@[i - 1]) ==> after.0[i]
                == h.buckets@[i]
        }),
{
    lemma_bucket_from(nanos, 0);
    let b = bucket_from(nanos, 0);
    if b < i {
        lemma_bounds_rise(b, i - 1);
    }
}

/// A duration is kept as it is, up to the largest that can be.
pub proof fn law_saturation(nanos: u128)
    ensures
        saturated(nanos) <= nanos,
        nanos <= u64::MAX ==> saturated(nanos) == nanos,
        nanos > u64::MAX ==> saturated(nanos) == u64::MAX,
{
}

/// The labels of buckets, the series of requests by hostname, and what the
/// series of listeners say of themselves.
pub proof fn law_series_texts(out: Seq<char>, m: Metrics, bound: Seq<char>)
    ensures
        bound_text(bound) == "_bucket{le=\""@ + bound + "\"}"@,
        put_first_series(out, m) == put_family(
            put_counters(out, m),
            m.host_requests,
            "http_requests_total"@,
            "host"@,
            "HTTP requests dispatched to a backend, by the matched route's configured hostname"@,
        ),
        ListenerSeries::Accepted.spec_help()
            == "Connections accepted (TCP) or datagrams received (UDP) per listener"@,
        ListenerSeries::Active.spec_help() == "Client connections currently open per listener"@,
        ListenerSeries::HttpRequests.spec_help()
            == "HTTP requests dispatched to a backend per listener"@,
        ListenerSeries::TlsHandshakeFailures.spec_help()
            == "Client TLS handshakes that failed or timed out per listener"@,
        ListenerSeries::UpstreamConnectErrors.spec_help()
            == "Backend connects that failed (client saw 502) per listener"@,
        ListenerSeries::UpstreamConnectTimeouts.spec_help()
            == "Backend connects that timed out (client saw 504) per listener"@,
        ListenerSeries::Up.spec_help() == "Listener accept-loop liveness (1 = accepting)"@,
{
}

} // verus!
