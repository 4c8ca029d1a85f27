//! Aggregate counters of the federation layer.

use crate::counter::{bump, bumped};
use vstd::prelude::*;

verus! {

/// Failures counted against one backend.
#[derive(Debug, Clone)]
pub struct ServerFailures {
    pub server_id: String,
    pub failures: u64,
}

/// Counters and status of the federation layer.
#[derive(Debug, Clone)]
pub struct FederationMetrics {
    pub active_connections: usize,
    pub total_servers: usize,
    pub tool_calls_forwarded: u64,
    pub federation_errors: u64,
    /// Milliseconds since the Unix epoch.
    pub last_sync: Option<u64>,
    pub sync_duration_ms: u64,
    /// One entry per backend that has failed, no backend twice.
    pub server_failures: Vec<ServerFailures>,
    pub open_circuits: usize,
    pub circuit_open_skips: u64,
}

pub struct FederationMetricsView {
    pub active_connections: usize,
    pub total_servers: usize,
    pub tool_calls_forwarded: u64,
    pub federation_errors: u64,
    pub last_sync: Option<u64>,
    pub sync_duration_ms: u64,
    pub server_failures: Map<Seq<char>, u64>,
    pub open_circuits: usize,
    pub circuit_open_skips: u64,
}

/// No backend is listed twice.
pub open spec fn distinct_servers(list: Seq<ServerFailures>) -> bool {
    forall|i: int, j: int| 0 <= i < j < list.len() ==> list[i].server_id@ != list[j].server_id@
}

pub open spec fn listed(list: Seq<ServerFailures>, id: Seq<char>) -> bool {
    exists|i: int| 0 <= i < list.len() && #[trigger] list[i].server_id@ == id
}

pub open spec fn position_of(list: Seq<ServerFailures>, id: Seq<char>) -> int {
    choose|i: int| 0 <= i < list.len() && #[trigger] list[i].server_id@ == id
}

/// The failure count of each listed backend.
pub open spec fn failure_counts(list: Seq<ServerFailures>) -> Map<Seq<char>, u64> {
    Map::new(|id: Seq<char>| listed(list, id), |id: Seq<char>| list[position_of(list, id)].failures)
}

/// The failures counted against `id`, zero where it is not listed.
pub open spec fn failures_of(counts: Map<Seq<char>, u64>, id: Seq<char>) -> u64 {
    if counts.contains_key(id) {
        counts[id]
    } else {
        0
    }
}

impl View for FederationMetrics {
    type V = FederationMetricsView;

    open spec fn view(&self) -> FederationMetricsView {
        FederationMetricsView {
            active_connections: self.active_connections,
            total_servers: self.total_servers,
            tool_calls_forwarded: self.tool_calls_forwarded,
            federation_errors: self.federation_errors,
            last_sync: self.last_sync,
            sync_duration_ms: self.sync_duration_ms,
            server_failures: failure_counts(self.server_failures@),
            open_circuits: self.open_circuits,
            circuit_open_skips: self.circuit_open_skips,
        }
    }
}

impl FederationMetricsView {
    pub open spec fn zero() -> FederationMetricsView {
        FederationMetricsView {
            active_connections: 0,
            total_servers: 0,
            tool_calls_forwarded: 0,
            federation_errors: 0,
            last_sync: None,
            sync_duration_ms: 0,
            server_failures: Map::empty(),
            open_circuits: 0,
            circuit_open_skips: 0,
        }
    }

    /// The counters after one failure of backend `id`, with `open_circuits`
    /// circuits open.
    pub open spec fn with_failure(self, id: Seq<char>, open_circuits: usize) -> FederationMetricsView {
        FederationMetricsView {
            federation_errors: bumped(self.federation_errors),
            server_failures: self.server_failures.insert(
                id,
                bumped(failures_of(self.server_failures, id)),
            ),
            open_circuits,
            ..self
        }
    }
}

impl FederationMetrics {
    pub open spec fn wf(self) -> bool {
        distinct_servers(self.server_failures@)
    }

    /// Counts one failure against backend `id`.
    pub fn count_server_failure(&mut self, id: &str)
        requires
            old(self).wf(),
        ensures
            final(self).wf(),
            final(self)@ == (FederationMetricsView {
                server_failures: old(self)@.server_failures.insert(
                    id@,
                    bumped(failures_of(old(self)@.server_failures, id@)),
                ),
                ..old(self)@
            }),
    {
        let wanted = id.to_owned();
        let ghost before = self.server_failures@;
        let mut i: usize = 0;
        while i < self.server_failures.len()
            invariant
                i <= self.server_failures@.len(),
                self.server_failures@ == before,
                distinct_servers(before),
                *self == *old(self),
                wanted@ == id@,
                forall|j: int| 0 <= j < i ==> #[trigger] before[j].server_id@ != id@,
            decreases self.server_failures@.len() - i,
        {
            if self.server_failures[i].server_id == wanted {
                let next = bump(self.server_failures[i].failures);
                self.server_failures.set(i, ServerFailures { server_id: wanted, failures: next });
                proof {
                    let after = self.server_failures@;
                    assert forall|k: Seq<char>| listed(after, k) <==> listed(before, k) by {
                        if listed(after, k) {
                            let p = position_of(after, k);
                            assert(before[p].server_id@ == k);
                        }
                        if listed(before, k) {
                            let p = position_of(before, k);
                            assert(after[p].server_id@ == k);
                        }
                    }
                    assert(listed(before, id@)) by {
                        assert(before[i as int].server_id@ == id@);
                    }
                    assert forall|k: Seq<char>| listed(after, k) implies failure_counts(after)[k]
                        == failure_counts(before).insert(
                        id@,
                        bumped(failures_of(failure_counts(before), id@)),
                    )[k] by {
                        let p = position_of(after, k);
                        let q = position_of(before, k);
                        assert(after[p].server_id@ == k && before[q].server_id@ == k);
                        assert(before[p].server_id@ == k);
                        assert(p == q);
                        if k == id@ {
                            assert(p == i);
                        }
                    }
                    assert(failure_counts(after) =~= failure_counts(before).insert(
                        id@,
                        bumped(failures_of(failure_counts(before), id@)),
                    ));
                }
                return ;
            }
            i = i + 1;
        }
        self.server_failures.push(ServerFailures { server_id: wanted, failures: 1 });
        proof {
            let after = self.server_failures@;
            assert(!listed(before, id@));
            assert forall|k: Seq<char>| listed(after, k) <==> (k == id@ || listed(before, k)) by {
                if listed(after, k) {
                    let p = position_of(after, k);
                    if p < before.len() {
                        assert(before[p].server_id@ == k);
                    }
                }
                if listed(before, k) {
                    let p = position_of(before, k);
                    assert(after[p].server_id@ == k);
                }
                if k == id@ {
                    assert(after[before.len() as int].server_id@ == k);
                }
            }
            assert forall|k: Seq<char>| listed(after, k) implies failure_counts(after)[k]
                == failure_counts(before).insert(id@, 1u64)[k] by {
                let p = position_of(after, k);
                assert(after[p].server_id@ == k);
                if k == id@ {
                    assert(p == before.len()) by {
                        if p < before.len() {
                            assert(before[p].server_id@ == id@);
                        }
                    }
                } else {
                    let q = position_of(before, k);
                    assert(before[q].server_id@ == k);
                    assert(after[q].server_id@ == k);
                    assert(p == q);
                }
            }
            assert(failure_counts(after) =~= failure_counts(before).insert(id@, 1u64));
        }
    }
}

impl Default for FederationMetrics {
    fn default() -> (metrics: Self)
        ensures
            metrics.wf(),
            metrics@ == FederationMetricsView::zero(),
    {
        let metrics = FederationMetrics {
            active_connections: 0,
            total_servers: 0,
            tool_calls_forwarded: 0,
            federation_errors: 0,
            last_sync: None,
            sync_duration_ms: 0,
            server_failures: Vec::new(),
            open_circuits: 0,
            circuit_open_skips: 0,
        };
        assert(failure_counts(metrics.server_failures@) =~= Map::empty());
        metrics
    }
}

} // verus!
