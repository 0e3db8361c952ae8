//! Per-request metric computation and the process-wide registry. The
//! numbers of a report are computed and checked here; tacho holds the
//! realized scope and renders the exposition text.

use vstd::prelude::*;
use crate::ip::spec_ip_str;

verus! {

/// How many outcomes carry a reply.
pub open spec fn count_some(pings: Seq<Option<u64>>) -> nat
    decreases pings.len(),
{
    if pings.len() == 0 {
        0
    } else {
        count_some(pings.drop_last()) + if pings.last() is Some {
            1nat
        } else {
            0nat
        }
    }
}

/// How many outcomes carry no reply.
pub open spec fn count_none(pings: Seq<Option<u64>>) -> nat
    decreases pings.len(),
{
    if pings.len() == 0 {
        0
    } else {
        count_none(pings.drop_last()) + if pings.last() is None {
            1nat
        } else {
            0nat
        }
    }
}

/// The reply times, in emission order.
pub open spec fn reply_times(pings: Seq<Option<u64>>) -> Seq<u64>
    decreases pings.len(),
{
    if pings.len() == 0 {
        Seq::<u64>::empty()
    } else {
        reply_times(pings.drop_last()) + match pings.last() {
            Some(v) => seq![v],
            None => Seq::<u64>::empty(),
        }
    }
}

/// Of every list of outcomes, the replies and the losses partition the
/// whole: successes plus failures equal the total.
pub proof fn lemma_success_failed_total(pings: Seq<Option<u64>>)
    ensures
        count_some(pings) + count_none(pings) == pings.len(),
    decreases pings.len(),
{
    if pings.len() > 0 {
        lemma_success_failed_total(pings.drop_last());
    }
}

/// A per-request metric scope as plain data: labels in the order they
/// were attached, gauges in the order they were set, and the additions to
/// the round-trip-time histogram.
pub struct MetricScope {
    pub labels: Vec<(&'static str, String)>,
    pub gauges: Vec<(&'static str, u64)>,
    pub times: Vec<u64>,
}

impl MetricScope {
    /// A fresh scope with nothing attached.
    pub fn new() -> (r: MetricScope)
        ensures
            r.labels@ =~= Seq::<(&'static str, String)>::empty(),
            r.gauges@ =~= Seq::<(&'static str, u64)>::empty(),
            r.times@ =~= Seq::<u64>::empty(),
    {
        MetricScope { labels: Vec::new(), gauges: Vec::new(), times: Vec::new() }
    }

    /// Attach one label.
    pub fn labeled(self, k: &'static str, v: String) -> (r: MetricScope)
        ensures
            r.labels@ == self.labels@.push((k, v)),
            r.gauges@ == self.gauges@,
            r.times@ == self.times@,
    {
        let mut labels = self.labels;
        labels.push((k, v));
        MetricScope { labels, gauges: self.gauges, times: self.times }
    }

    /// Set one gauge.
    fn gauge_set(self, k: &'static str, v: u64) -> (r: MetricScope)
        ensures
            r.labels@ == self.labels@,
            r.gauges@ == self.gauges@.push((k, v)),
            r.times@ == self.times@,
    {
        let mut gauges = self.gauges;
        gauges.push((k, v));
        MetricScope { labels: self.labels, gauges, times: self.times }
    }
}

/// The scope of a report that failed to resolve: one `error` label with
/// the failure's text, the `ping_resolve_error` gauge at one, and nothing
/// else new.
pub open spec fn failure_scope(m: MetricScope, r: MetricScope, msg: Seq<char>) -> bool {
    &&& r.labels@.len() == m.labels@.len() + 1
    &&& r.labels@.drop_last() == m.labels@
    &&& r.labels@.last().0@ == "error"@
    &&& r.labels@.last().1@ == msg
    &&& r.gauges@.len() == m.gauges@.len() + 1
    &&& r.gauges@.drop_last() == m.gauges@
    &&& r.gauges@.last().0@ == "ping_resolve_error"@
    &&& r.gauges@.last().1 == 1
    &&& r.times@ == m.times@
}

/// The scope of a successful report: the probed address as an `ip` label,
/// each reply time added to the histogram, and the session's gauges, with
/// the loss percentage only where at least one probe was sent.
pub open spec fn success_scope(
    m: MetricScope,
    r: MetricScope,
    resolve_time_ns: u64,
    addr: crate::ip::IpAddr,
    pings: Seq<Option<u64>>,
) -> bool {
    let g0 = m.gauges@.len() as int;
    let total = pings.len() as nat;
    &&& r.labels@.len() == m.labels@.len() + 1
    &&& r.labels@.drop_last() == m.labels@
    &&& r.labels@.last().0@ == "ip"@
    &&& r.labels@.last().1@ == spec_ip_str(addr)
    &&& r.times@ == m.times@ + reply_times(pings)
    &&& r.gauges@.subrange(0, g0) == m.gauges@
    &&& r.gauges@.len() == g0 + if total > 0 {
        6int
    } else {
        5int
    }
    &&& r.gauges@[g0].0@ == "ping_resolve_time"@
    &&& r.gauges@[g0].1 == resolve_time_ns / 1000000
    &&& r.gauges@[g0 + 1].0@ == "ping_packets_total"@
    &&& r.gauges@[g0 + 1].1 == total
    &&& r.gauges@[g0 + 2].0@ == "ping_packets_success"@
    &&& r.gauges@[g0 + 2].1 == count_some(pings)
    &&& r.gauges@[g0 + 3].0@ == "ping_packets_failed"@
    &&& r.gauges@[g0 + 3].1 == count_none(pings)
    &&& (total > 0 ==> {
        &&& r.gauges@[g0 + 4].0@ == "ping_packets_loss"@
        &&& r.gauges@[g0 + 4].1 == count_none(pings) * 100 / total
        &&& r.gauges@[g0 + 5].0@ == "ping_resolve_error"@
        &&& r.gauges@[g0 + 5].1 == 0
    })
    &&& (total == 0 ==> {
        &&& r.gauges@[g0 + 4].0@ == "ping_resolve_error"@
        &&& r.gauges@[g0 + 4].1 == 0
    })
}

/// Fill a per-request scope from a report: resolve failures become one
/// labeled error gauge; a success becomes the session's gauges and the
/// round-trip-time histogram. The loss gauge is the integer percentage
/// `failed * 100 / total`, truncated, and is absent when nothing was
/// sent.
pub fn set_metrics(metrics: MetricScope, report: crate::pinger::Report) -> (r: MetricScope)
    ensures
        match report {
            crate::pinger::Report::ResolveTimedOut => failure_scope(metrics, r, "timed out"@),
            crate::pinger::Report::ResolveNotFound => failure_scope(metrics, r, "not found"@),
            crate::pinger::Report::ResolveOtherError => failure_scope(metrics, r, "internal error"@),
            crate::pinger::Report::Success { resolve_time_ns, addr, pings } => success_scope(
                metrics,
                r,
                resolve_time_ns,
                addr,
                pings@,
            ),
        },
{
    match report {
        crate::pinger::Report::ResolveTimedOut => set_failure(metrics, "timed out"),
        crate::pinger::Report::ResolveNotFound => set_failure(metrics, "not found"),
        crate::pinger::Report::ResolveOtherError => set_failure(metrics, "internal error"),
        crate::pinger::Report::Success { resolve_time_ns, addr, pings } => {
            let ip_text = crate::ip::ip_to_string(&addr);
            let mut m = metrics.labeled("ip", ip_text);
            m = m.gauge_set("ping_resolve_time", resolve_time_ns / 1000000);

            let total: u64 = pings.len() as u64;
            let mut successful: u64 = 0;
            let mut failures: u64 = 0;
            let mut i: usize = 0;
            let ghost base_times = m.times@;
            let ghost base_labels = m.labels@;
            let ghost base_gauges = m.gauges@;
            while i < pings.len()
                invariant
                    i <= pings@.len(),
                    total == pings@.len(),
                    successful == count_some(pings@.subrange(0, i as int)),
                    failures == count_none(pings@.subrange(0, i as int)),
                    m.times@ == base_times + reply_times(pings@.subrange(0, i as int)),
                    m.labels@ == base_labels,
                    m.gauges@ == base_gauges,
                decreases pings@.len() - i,
            {
                proof {
                    let pre = pings@.subrange(0, i as int);
                    let post = pings@.subrange(0, i as int + 1);
                    assert(post.drop_last() =~= pre);
                    assert(post.last() == pings@[i as int]);
                    lemma_success_failed_total(pre);
                }
                match pings[i] {
                    Some(reply_ms) => {
                        let mut times = m.times;
                        times.push(reply_ms);
                        m = MetricScope { labels: m.labels, gauges: m.gauges, times };
                        successful = successful + 1;
                        proof {
                            assert(m.times@ =~= base_times + reply_times(
                                pings@.subrange(0, i as int + 1),
                            ));
                        }
                    },
                    None => {
                        failures = failures + 1;
                        proof {
                            assert(m.times@ =~= base_times + reply_times(
                                pings@.subrange(0, i as int + 1),
                            ));
                        }
                    },
                }
                i = i + 1;
            }
            proof {
                assert(pings@.subrange(0, pings@.len() as int) =~= pings@);
            }
            m = m.gauge_set("ping_packets_total", total);
            m = m.gauge_set("ping_packets_success", successful);
            m = m.gauge_set("ping_packets_failed", failures);
            if total > 0 {
                proof {
                    lemma_success_failed_total(pings@);
                    assert(failures * 100 / (total as int) <= 100) by (nonlinear_arith)
                        requires
                            failures <= total,
                            0 < total,
                    ;
                }
                let loss128: u128 = (failures as u128) * 100 / (total as u128);
                let loss: u64 = loss128 as u64;
                m = m.gauge_set("ping_packets_loss", loss);
            }
            m = m.gauge_set("ping_resolve_error", 0);
            proof {
                assert(m.gauges@.subrange(0, base_gauges.len() as int - 1) =~= metrics.gauges@);
                assert(m.labels@.drop_last() =~= metrics.labels@);
            }
            m
        },
    }
}

/// The scope of a resolve failure.
fn set_failure(metrics: MetricScope, msg: &'static str) -> (r: MetricScope)
    ensures
        failure_scope(metrics, r, msg@),
{
    let m = metrics.labeled("error", String::from_str(msg));
    let r = m.gauge_set("ping_resolve_error", 1);
    proof {
        assert(r.labels@.drop_last() =~= metrics.labels@);
        assert(r.gauges@.drop_last() =~= metrics.gauges@);
    }
    r
}



/// Of every successful session's scope, the success and failed gauges
/// partition the total gauge: their values sum to it.
pub proof fn lemma_scope_packets_partition(
    m: MetricScope,
    r: MetricScope,
    resolve_time_ns: u64,
    addr: crate::ip::IpAddr,
    pings: Seq<Option<u64>>,
)
    requires
        success_scope(m, r, resolve_time_ns, addr, pings),
    ensures
        r.gauges@[m.gauges@.len() as int + 2].1 + r.gauges@[m.gauges@.len() as int + 3].1
            == r.gauges@[m.gauges@.len() as int + 1].1,
{
    lemma_success_failed_total(pings);
}

/// Of every successful session that sent at least one probe, the loss
/// gauge is the truncated integer percentage of failed probes.
pub proof fn lemma_scope_loss_value(
    m: MetricScope,
    r: MetricScope,
    resolve_time_ns: u64,
    addr: crate::ip::IpAddr,
    pings: Seq<Option<u64>>,
)
    requires
        success_scope(m, r, resolve_time_ns, addr, pings),
        pings.len() > 0,
    ensures
        r.gauges@[m.gauges@.len() as int + 4].0@ == "ping_packets_loss"@,
        r.gauges@[m.gauges@.len() as int + 4].1 == count_none(pings) * 100 / pings.len(),
{
}

/// A session that sent nothing has no loss gauge: a fresh scope filled
/// from such a report holds no gauge of that name.
pub proof fn lemma_scope_loss_absent(
    m: MetricScope,
    r: MetricScope,
    resolve_time_ns: u64,
    addr: crate::ip::IpAddr,
    pings: Seq<Option<u64>>,
)
    requires
        success_scope(m, r, resolve_time_ns, addr, pings),
        m.gauges@.len() == 0,
        pings.len() == 0,
    ensures
        forall|k: int| 0 <= k < r.gauges@.len() ==> (#[trigger] r.gauges@[k]).0@
            != "ping_packets_loss"@,
{
    reveal_strlit("ping_packets_loss");
    reveal_strlit("ping_resolve_time");
    reveal_strlit("ping_packets_total");
    reveal_strlit("ping_packets_success");
    reveal_strlit("ping_packets_failed");
    reveal_strlit("ping_resolve_error");
    assert forall|k: int| 0 <= k < r.gauges@.len() implies (#[trigger] r.gauges@[k]).0@
        != "ping_packets_loss"@ by {
        assert(r.gauges@.len() == 5);
        assert("ping_packets_loss"@.len() == 17);
        assert("ping_packets_loss"@[5] == 'p');
        if k == 0 {
            assert(r.gauges@[k].0@ == "ping_resolve_time"@);
            assert("ping_resolve_time"@[5] == 'r');
        } else if k == 1 {
            assert(r.gauges@[k].0@ == "ping_packets_total"@);
            assert("ping_packets_total"@.len() == 18);
        } else if k == 2 {
            assert(r.gauges@[k].0@ == "ping_packets_success"@);
            assert("ping_packets_success"@.len() == 20);
        } else if k == 3 {
            assert(r.gauges@[k].0@ == "ping_packets_failed"@);
            assert("ping_packets_failed"@.len() == 19);
        } else {
            assert(r.gauges@[k].0@ == "ping_resolve_error"@);
            assert("ping_resolve_error"@.len() == 18);
        }
    }
}

// ------------------------------------------------------------------
// The tacho registry behind the exposition text
// ------------------------------------------------------------------

#[verifier::external_type_specification]
#[verifier::external_body]
pub struct ExTachoScope(tacho::Scope);

#[verifier::external_type_specification]
#[verifier::external_body]
pub struct ExTachoReporter(tacho::Reporter);

#[verifier::external_type_specification]
#[verifier::external_body]
pub struct ExTachoCounter(tacho::Counter);

#[verifier::external_type_specification]
#[verifier::external_body]
pub struct ExTachoGauge(tacho::Gauge);

#[verifier::external_type_specification]
#[verifier::external_body]
pub struct ExTachoStat(tacho::Stat);

/// Relies on tacho::new: a fresh registry as a scope and its reporter.
#[verifier::external_body]
pub(crate) fn tacho_new() -> (tacho::Scope, tacho::Reporter) {
    tacho::new()
}

/// Relies on tacho::Scope::labeled: the scope with one label attached.
#[verifier::external_body]
fn scope_labeled(s: tacho::Scope, k: &'static str, v: String) -> tacho::Scope {
    s.labeled(k, v)
}

/// Relies on tacho::Scope::counter: the counter registered under `name`.
#[verifier::external_body]
pub(crate) fn scope_counter(s: &tacho::Scope, name: &'static str) -> tacho::Counter {
    s.counter(name)
}

/// Relies on tacho::Scope::gauge: the gauge registered under `name`.
#[verifier::external_body]
fn scope_gauge(s: &tacho::Scope, name: &'static str) -> tacho::Gauge {
    s.gauge(name)
}

/// Relies on tacho::Gauge::set: stores the value.
#[verifier::external_body]
fn tacho_gauge_set(g: &tacho::Gauge, v: u64) {
    g.set(v as usize)
}

/// Relies on tacho::Scope::stat: the histogram registered under `name`.
#[verifier::external_body]
fn scope_stat(s: &tacho::Scope, name: &'static str) -> tacho::Stat {
    s.stat(name)
}

/// Relies on tacho::Stat::add: records one value into the histogram.
#[verifier::external_body]
fn stat_add(st: &tacho::Stat, v: u64) {
    st.add(v)
}

/// Relies on tacho::Reporter::peek and tacho::prometheus::string: the
/// exposition text of a snapshot of the registry.
#[verifier::external_body]
pub(crate) fn reporter_text(r: &tacho::Reporter) -> Result<String, ()> {
    match tacho::prometheus::string(&r.peek()) {
        Ok(s) => Ok(s),
        Err(_) => Err(()),
    }
}

/// Pour a computed scope into a tacho scope: every label, every gauge,
/// and every histogram value, in order.
pub(crate) fn realize_scope(m: &MetricScope, scope: tacho::Scope) -> tacho::Scope {
    let mut s = scope;
    let mut i: usize = 0;
    while i < m.labels.len()
        decreases m.labels.len() - i,
    {
        let k = m.labels[i].0;
        let v = m.labels[i].1.clone();
        s = scope_labeled(s, k, v);
        i = i + 1;
    }
    let mut j: usize = 0;
    while j < m.gauges.len()
        decreases m.gauges.len() - j,
    {
        let g = scope_gauge(&s, m.gauges[j].0);
        tacho_gauge_set(&g, m.gauges[j].1);
        j = j + 1;
    }
    if m.times.len() > 0 {
        let st = scope_stat(&s, "ping_times");
        let mut k: usize = 0;
        while k < m.times.len()
            decreases m.times.len() - k,
        {
            stat_add(&st, m.times[k]);
            k = k + 1;
        }
    }
    s
}

/// Create the process-wide registry: the scope that service-level
/// counters hang off, and the reporter that the metrics route reads.
pub fn init() -> (tacho::Scope, tacho::Reporter) {
    tacho_new()
}

} // verus!
