use vstd::prelude::*;
use crate::config::NodeConfig;
use crate::error::AppError;

verus! {

/// Consecutive failed probes after which an endpoint is unhealthy.
pub const MAX_CONSECUTIVE_FAILURES: u32 = 3;

/// Whether `url::Url::parse` accepts the string.
pub uninterp spec fn url_parses(s: Seq<char>) -> bool;

/// Relies on `url::Url::parse`: reports whether the string is a valid
/// absolute URL. Nothing else of the parsed value is used.
#[verifier::external_body]
fn url_is_valid(s: &str) -> (r: bool)
    ensures
        r == url_parses(s@),
{
    url::Url::parse(s).is_ok()
}

/// Health of one endpoint, identified by its URL.
#[derive(Debug, Clone, PartialEq, Eq)]
pub struct NodeHealth {
    pub url: String,
    pub healthy: bool,
    pub consecutive_failures: u32,
    pub last_check_ms: u64,
    pub probe_interval_ms: u64,
}

/// What the caller of `get_healthy_client` does next.
#[derive(Debug, Clone, Copy, PartialEq, Eq)]
pub enum HealthAction {
    /// The endpoint at this index is due for a liveness probe: probe it and
    /// report the outcome through `record_probe`.
    Probe(usize),
    /// Use the endpoint at this index.
    Use(usize),
    /// No endpoint is eligible.
    Unavailable,
}

pub open spec fn node_wf(n: NodeHealth) -> bool {
    n.healthy <==> n.consecutive_failures < MAX_CONSECUTIVE_FAILURES
}

pub open spec fn eligible(n: NodeHealth) -> bool {
    n.healthy && n.consecutive_failures < MAX_CONSECUTIVE_FAILURES
}

/// A probe is due once `probe_interval_ms` has passed since the last check;
/// an endpoint checked at this very instant is never due.
pub open spec fn stale(n: NodeHealth, now: u64) -> bool {
    now > n.last_check_ms && now - n.last_check_ms >= n.probe_interval_ms
}

pub open spec fn bumped(f: u32) -> u32 {
    if f == u32::MAX {
        f
    } else {
        (f + 1) as u32
    }
}

/// The endpoint after one more failure, without a new check time.
pub open spec fn after_failure(n: NodeHealth) -> NodeHealth {
    NodeHealth {
        healthy: bumped(n.consecutive_failures) < MAX_CONSECUTIVE_FAILURES,
        consecutive_failures: bumped(n.consecutive_failures),
        ..n
    }
}

/// The endpoint after a probe at `now` that succeeded (`ok`) or failed.
pub open spec fn after_probe(n: NodeHealth, ok: bool, now: u64) -> NodeHealth {
    if ok {
        NodeHealth { healthy: true, consecutive_failures: 0, last_check_ms: now, ..n }
    } else {
        NodeHealth { last_check_ms: now, ..after_failure(n) }
    }
}

pub open spec fn probed(nodes: Seq<NodeHealth>, i: int, ok: bool, now: u64) -> Seq<NodeHealth> {
    nodes.update(i, after_probe(nodes[i], ok, now))
}

pub open spec fn fresh_node(config: NodeConfig, now: u64) -> NodeHealth {
    NodeHealth {
        url: config.url,
        healthy: true,
        consecutive_failures: 0,
        last_check_ms: now,
        probe_interval_ms: config.health_check_interval_ms,
    }
}

/// `i` is the first eligible endpoint in priority order.
pub open spec fn picks(nodes: Seq<NodeHealth>, i: int) -> bool {
    &&& 0 <= i < nodes.len()
    &&& eligible(nodes[i])
    &&& forall|j: int| 0 <= j < i ==> !eligible(#[trigger] nodes[j])
}

/// Neither due for a probe nor eligible: passed over by the selection.
pub open spec fn passed_over(n: NodeHealth, now: u64) -> bool {
    !stale(n, now) && !eligible(n)
}

/// The action that lazy selection takes at `now` on these endpoints.
pub open spec fn selection(nodes: Seq<NodeHealth>, now: u64, a: HealthAction) -> bool {
    match a {
        HealthAction::Probe(i) => {
            &&& i < nodes.len()
            &&& stale(nodes[i as int], now)
            &&& forall|j: int| 0 <= j < i ==> passed_over(#[trigger] nodes[j], now)
        },
        HealthAction::Use(i) => {
            &&& i < nodes.len()
            &&& !stale(nodes[i as int], now)
            &&& eligible(nodes[i as int])
            &&& forall|j: int| 0 <= j < i ==> passed_over(#[trigger] nodes[j], now)
        },
        HealthAction::Unavailable => forall|j: int|
            0 <= j < nodes.len() ==> passed_over(#[trigger] nodes[j], now),
    }
}

pub open spec fn distinct_urls(nodes: Seq<NodeHealth>) -> bool {
    forall|i: int, j: int|
        0 <= i < nodes.len() && 0 <= j < nodes.len() && i != j ==> nodes[i].url@
            != nodes[j].url@
}

/// Endpoints in fixed priority order with their health state.
#[derive(Debug, Clone)]
pub struct HealthChecker {
    pub nodes: Vec<NodeHealth>,
}

impl HealthChecker {
    pub open spec fn wf(self) -> bool {
        &&& forall|i: int| 0 <= i < self.nodes@.len() ==> node_wf(#[trigger] self.nodes@[i])
        &&& distinct_urls(self.nodes@)
    }

    pub fn new() -> (r: Self)
        ensures
            r.wf(),
            r.nodes@.len() == 0,
    {
        HealthChecker { nodes: Vec::new() }
    }

    /// Adds the endpoint after its initial probe, given whether its URL is
    /// valid and whether that probe succeeded. An endpoint whose URL is
    /// already known takes that entry's place.
    pub fn add_probed_node(
        &mut self,
        config: &NodeConfig,
        url_valid: bool,
        probe_ok: bool,
        now_ms: u64,
    ) -> (r: Result<(), AppError>)
        requires
            old(self).wf(),
        ensures
            final(self).wf(),
            !url_valid ==> r matches Err(AppError::Config(_)),
            url_valid && !probe_ok ==> r matches Err(AppError::ConnectionFailure(_)),
            r is Err ==> final(self).nodes@ == old(self).nodes@,
            r is Ok <==> url_valid && probe_ok,
            r is Ok ==> {
                ||| exists|i: int|
                    0 <= i < old(self).nodes@.len() && old(self).nodes@[i].url@ == config.url@
                        && final(self).nodes@ == old(self).nodes@.update(i, fresh_node(*config, now_ms))
                ||| (forall|i: int|
                    0 <= i < old(self).nodes@.len() ==> old(self).nodes@[i].url@ != config.url@)
                    && final(self).nodes@ == old(self).nodes@.push(fresh_node(*config, now_ms))
            },
    {
        if !url_valid {
            return Err(AppError::config_error("endpoint URL does not parse"));
        }
        if !probe_ok {
            return Err(AppError::connection_error("endpoint failed its initial probe"));
        }
        let node = NodeHealth {
            url: config.url.clone(),
            healthy: true,
            consecutive_failures: 0,
            last_check_ms: now_ms,
            probe_interval_ms: config.health_check_interval_ms,
        };
        let mut i: usize = 0;
        while i < self.nodes.len()
            invariant
                self.wf(),
                self.nodes@ == old(self).nodes@,
                i <= self.nodes@.len(),
                forall|j: int| 0 <= j < i ==> self.nodes@[j].url@ != config.url@,
                url_valid,
                probe_ok,
                node == fresh_node(*config, now_ms),
            decreases self.nodes@.len() - i,
        {
            if self.nodes[i].url == config.url {
                let ghost before = self.nodes@;
                self.nodes.set(i, node);
                proof {
                    assert forall|a: int, b: int|
                        0 <= a < self.nodes@.len() && 0 <= b < self.nodes@.len() && a != b implies self.nodes@[a].url@
                        != self.nodes@[b].url@ by {
                        assert(before[a].url@ != before[b].url@);
                    }
                }
                return Ok(());
            }
            i = i + 1;
        }
        let ghost before = self.nodes@;
        self.nodes.push(node);
        proof {
            assert forall|a: int, b: int|
                0 <= a < self.nodes@.len() && 0 <= b < self.nodes@.len() && a != b implies self.nodes@[a].url@
                != self.nodes@[b].url@ by {
                if a < before.len() && b < before.len() {
                    assert(before[a].url@ != before[b].url@);
                }
            }
        }
        Ok(())
    }

    /// Adds the endpoint after its initial probe: fails with a configuration
    /// error when its URL does not parse, and with a connection failure when
    /// the probe failed.
    pub fn add_node(&mut self, config: &NodeConfig, probe_ok: bool, now_ms: u64) -> (r: Result<
        (),
        AppError,
    >)
        requires
            old(self).wf(),
        ensures
            final(self).wf(),
            r is Ok <==> url_parses(config.url@) && probe_ok,
            !url_parses(config.url@) ==> r matches Err(AppError::Config(_)),
            url_parses(config.url@) && !probe_ok ==> r matches Err(AppError::ConnectionFailure(_)),
            r is Err ==> final(self).nodes@ == old(self).nodes@,
            r is Ok ==> final(self).nodes@.contains(fresh_node(*config, now_ms)),
            r is Ok ==> {
                ||| exists|i: int|
                    0 <= i < old(self).nodes@.len() && old(self).nodes@[i].url@ == config.url@
                        && final(self).nodes@ == old(self).nodes@.update(i, fresh_node(*config, now_ms))
                ||| (forall|i: int|
                    0 <= i < old(self).nodes@.len() ==> old(self).nodes@[i].url@ != config.url@)
                    && final(self).nodes@ == old(self).nodes@.push(fresh_node(*config, now_ms))
            },
    {
        let url_valid = url_is_valid(config.url.as_str());
        let r = self.add_probed_node(config, url_valid, probe_ok, now_ms);
        proof {
            if r is Ok {
                if exists|i: int|
                    0 <= i < old(self).nodes@.len() && old(self).nodes@[i].url@ == config.url@
                        && self.nodes@ == old(self).nodes@.update(
                        i,
                        fresh_node(*config, now_ms),
                    ) {
                    let i = choose|i: int|
                        0 <= i < old(self).nodes@.len() && old(self).nodes@[i].url@ == config.url@
                            && self.nodes@ == old(self).nodes@.update(
                            i,
                            fresh_node(*config, now_ms),
                        );
                    assert(self.nodes@[i] == fresh_node(*config, now_ms));
                } else {
                    assert(self.nodes@[old(self).nodes@.len() as int] == fresh_node(
                        *config,
                        now_ms,
                    ));
                }
            }
        }
        r
    }

    /// Applies the outcome of a liveness probe of endpoint `index` made at `now_ms`.
    pub fn record_probe(&mut self, index: usize, ok: bool, now_ms: u64)
        requires
            old(self).wf(),
            index < old(self).nodes@.len(),
        ensures
            final(self).wf(),
            final(self).nodes@ == probed(old(self).nodes@, index as int, ok, now_ms),
    {
        let n = &self.nodes[index];
        let failures = if ok {
            0
        } else if n.consecutive_failures == u32::MAX {
            u32::MAX
        } else {
            n.consecutive_failures + 1
        };
        let updated = NodeHealth {
            url: n.url.clone(),
            healthy: failures < MAX_CONSECUTIVE_FAILURES,
            consecutive_failures: failures,
            last_check_ms: now_ms,
            probe_interval_ms: n.probe_interval_ms,
        };
        self.nodes.set(index, updated);
        proof {
            assert forall|i: int, j: int|
                0 <= i < self.nodes@.len() && 0 <= j < self.nodes@.len() && i != j implies self.nodes@[i].url@
                != self.nodes@[j].url@ by {
                assert(old(self).nodes@[i].url@ != old(self).nodes@[j].url@);
            }
        }
    }

    /// Counts a failed call through endpoint `index` (a timeout or transport
    /// error) as a failed probe, without changing its check time.
    pub fn mark_unhealthy(&mut self, index: usize)
        requires
            old(self).wf(),
            index < old(self).nodes@.len(),
        ensures
            final(self).wf(),
            final(self).nodes@ == old(self).nodes@.update(
                index as int,
                after_failure(old(self).nodes@[index as int]),
            ),
    {
        let n = &self.nodes[index];
        let failures = if n.consecutive_failures == u32::MAX {
            u32::MAX
        } else {
            n.consecutive_failures + 1
        };
        let updated = NodeHealth {
            url: n.url.clone(),
            healthy: failures < MAX_CONSECUTIVE_FAILURES,
            consecutive_failures: failures,
            last_check_ms: n.last_check_ms,
            probe_interval_ms: n.probe_interval_ms,
        };
        self.nodes.set(index, updated);
        proof {
            assert forall|i: int, j: int|
                0 <= i < self.nodes@.len() && 0 <= j < self.nodes@.len() && i != j implies self.nodes@[i].url@
                != self.nodes@[j].url@ by {
                assert(old(self).nodes@[i].url@ != old(self).nodes@[j].url@);
            }
        }
    }

    /// The first eligible endpoint in priority order, on the current state.
    pub fn pick_healthy(&self) -> (r: Result<usize, AppError>)
        requires
            self.wf(),
        ensures
            r matches Ok(i) ==> picks(self.nodes@, i as int),
            r is Err <==> forall|j: int|
                0 <= j < self.nodes@.len() ==> !eligible(#[trigger] self.nodes@[j]),
            r matches Err(e) ==> e is NoHealthyEndpoints,
    {
        let mut i: usize = 0;
        while i < self.nodes.len()
            invariant
                i <= self.nodes@.len(),
                forall|j: int| 0 <= j < i ==> !eligible(#[trigger] self.nodes@[j]),
            decreases self.nodes@.len() - i,
        {
            let n = &self.nodes[i];
            if n.healthy && n.consecutive_failures < MAX_CONSECUTIVE_FAILURES {
                return Ok(i);
            }
            i = i + 1;
        }
        Err(AppError::NoHealthyEndpoints)
    }

    /// Lazy on-demand selection at `now_ms`: walks the endpoints in priority
    /// order and stops at the first one that is either due for a probe or
    /// eligible.
    pub fn get_healthy_client(&self, now_ms: u64) -> (r: HealthAction)
        requires
            self.wf(),
        ensures
            selection(self.nodes@, now_ms, r),
    {
        let mut i: usize = 0;
        while i < self.nodes.len()
            invariant
                i <= self.nodes@.len(),
                forall|j: int| 0 <= j < i ==> passed_over(#[trigger] self.nodes@[j], now_ms),
            decreases self.nodes@.len() - i,
        {
            let n = &self.nodes[i];
            if now_ms > n.last_check_ms && now_ms - n.last_check_ms >= n.probe_interval_ms {
                return HealthAction::Probe(i);
            }
            if n.healthy && n.consecutive_failures < MAX_CONSECUTIVE_FAILURES {
                return HealthAction::Use(i);
            }
            i = i + 1;
        }
        HealthAction::Unavailable
    }
}

/// An unhealthy endpoint stays unhealthy through further failed probes and
/// failed calls; only a successful probe makes it healthy again, and every
/// transition keeps health and failure count consistent.
pub proof fn lemma_only_success_restores(n: NodeHealth, now: u64)
    requires
        node_wf(n),
    ensures
        node_wf(after_failure(n)),
        node_wf(after_probe(n, false, now)),
        node_wf(after_probe(n, true, now)),
        !n.healthy ==> !after_failure(n).healthy && !after_probe(n, false, now).healthy,
        after_probe(n, true, now).healthy,
        after_probe(n, true, now).consecutive_failures == 0,
{
}

/// After `MAX_CONSECUTIVE_FAILURES` consecutive failed probes an endpoint is
/// no longer eligible, so the selection never returns it; one successful
/// probe afterwards makes it eligible again with its failure count reset.
pub proof fn lemma_failures_exclude_then_probe_restores(
    nodes: Seq<NodeHealth>,
    i: int,
    t1: u64,
    t2: u64,
    t3: u64,
    t4: u64,
)
    requires
        0 <= i < nodes.len(),
    ensures
        ({
            let failed = probed(probed(probed(nodes, i, false, t1), i, false, t2), i, false, t3);
            let restored = probed(failed, i, true, t4);
            &&& !eligible(failed[i])
            &&& !picks(failed, i)
            &&& eligible(restored[i])
            &&& restored[i].consecutive_failures == 0
            &&& (forall|j: int| 0 <= j < i ==> !eligible(#[trigger] restored[j])) ==> picks(
                restored,
                i,
            )
        }),
{
    let f1 = probed(nodes, i, false, t1);
    let f2 = probed(f1, i, false, t2);
    let f3 = probed(f2, i, false, t3);
    assert(f1[i].consecutive_failures >= 1);
    assert(f2[i].consecutive_failures >= 2);
    assert(f3[i].consecutive_failures >= 3);
}

} // verus!
