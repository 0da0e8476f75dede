use vstd::prelude::*;

use crate::json::JsonValue;
use crate::labels::{
    CollectorCountLabel, EthdevStatsLabels, LFKeymanagerDictLabels, LFKeymanagerStatsLabels,
    LFWorkerStatsLabels,
};
use crate::mapper::{
    list_len, list_len_of, name_of, port_list, port_list_of, port_name, stats_of, stats_samples,
    worker_count,
};
use crate::telemetry::{param_query, param_query_of, QueryError};

verus! {

/// Cores that host no worker by default: the main core and the key-manager core.
pub const DEFAULT_RESERVED_CORES: usize = 2;

/// The most workers a cycle walks: their indices must fit the `i16` label.
pub const MAX_WORKERS: usize = 32768;

/// Where a collection cycle stands: the query it waits on next.
#[derive(Debug)]
pub enum Stage {
    /// The list of interfaces.
    EthdevList,
    /// The name of the interface at index `port` of the list.
    EthdevInfo { port: usize },
    /// The counters of the interface at index `port`, named `name`.
    EthdevStats { port: usize, name: String },
    /// The list of logical cores, from which the workers follow.
    LcoreList,
    /// The counters of worker `worker` of `count`.
    WorkerStats { worker: usize, count: usize },
    /// The key-manager counters.
    KeymanagerStats,
    /// The key-manager dictionary.
    KeymanagerDict,
    /// The cycle is over.
    Done,
}

/// A gauge to set to a value.
#[derive(Debug)]
pub enum Update {
    Ethdev(EthdevStatsLabels, i64),
    Worker(LFWorkerStatsLabels, i64),
    KeymanagerStats(LFKeymanagerStatsLabels, i64),
    KeymanagerDict(LFKeymanagerDictLabels, i64),
}

/// One collection cycle: the families in a fixed order (interfaces, workers,
/// key-manager stats, key-manager dictionary), one query at a time. The
/// caller sends `next_query`, hands the outcome to `advance` and applies the
/// updates that come back, until `is_done`. A gauge whose labels stop
/// appearing keeps its last value: a cycle only ever sets gauges.
pub struct Cycle {
    pub stage: Stage,
    /// The interfaces listed in this cycle.
    pub ports: Vec<i16>,
    /// How many logical cores host no worker.
    pub reserved_cores: usize,
    /// Whether some step of this cycle failed.
    pub failed: bool,
}

pub open spec fn ethdev_list_path() -> Seq<char> {
    "/ethdev/list"@
}

pub open spec fn ethdev_info_path() -> Seq<char> {
    "/ethdev/info"@
}

pub open spec fn ethdev_stats_path() -> Seq<char> {
    "/ethdev/stats"@
}

pub open spec fn lcore_list_path() -> Seq<char> {
    "/eal/lcore/list"@
}

pub open spec fn worker_stats_path() -> Seq<char> {
    "/lf/worker/stats"@
}

pub open spec fn keymanager_stats_path() -> Seq<char> {
    "/lf/keymanager/stats"@
}

pub open spec fn keymanager_dict_path() -> Seq<char> {
    "/lf/keymanager/dict"@
}

/// Where a cycle goes when a step of `stage` fails: the next family.
pub open spec fn skip_family(stage: Stage) -> Stage {
    match stage {
        Stage::EthdevList | Stage::EthdevInfo { .. } | Stage::EthdevStats { .. } => Stage::LcoreList,
        Stage::LcoreList | Stage::WorkerStats { .. } => Stage::KeymanagerStats,
        Stage::KeymanagerStats => Stage::KeymanagerDict,
        _ => Stage::Done,
    }
}

/// The gauges that interface counters set.
pub open spec fn ethdev_updates(port_id: i16, name: String, s: Seq<(String, i64)>) -> Seq<Update> {
    s.map_values(
        |p: (String, i64)|
            Update::Ethdev(EthdevStatsLabels { port_id, port_name: name, metric: p.0 }, p.1),
    )
}

/// The gauges that worker counters set.
pub open spec fn worker_updates(worker_id: i16, s: Seq<(String, i64)>) -> Seq<Update> {
    s.map_values(
        |p: (String, i64)| Update::Worker(LFWorkerStatsLabels { worker_id, metric: p.0 }, p.1),
    )
}

/// The gauges that key-manager counters set.
pub open spec fn keymanager_stats_updates(s: Seq<(String, i64)>) -> Seq<Update> {
    s.map_values(
        |p: (String, i64)| Update::KeymanagerStats(LFKeymanagerStatsLabels { result: p.0 }, p.1),
    )
}

/// The gauges that key-manager dictionary entries set.
pub open spec fn keymanager_dict_updates(s: Seq<(String, i64)>) -> Seq<Update> {
    s.map_values(
        |p: (String, i64)| Update::KeymanagerDict(LFKeymanagerDictLabels { key: p.0 }, p.1),
    )
}

/// The stage a failed step of `stage` moves to.
fn skip_stage(stage: &Stage) -> (r: Stage)
    ensures
        r == skip_family(*stage),
{
    match stage {
        Stage::EthdevList | Stage::EthdevInfo { .. } | Stage::EthdevStats { .. } => Stage::LcoreList,
        Stage::LcoreList | Stage::WorkerStats { .. } => Stage::KeymanagerStats,
        Stage::KeymanagerStats => Stage::KeymanagerDict,
        _ => Stage::Done,
    }
}

/// The interface gauges for the counters of one interface.
fn to_ethdev_updates(port_id: i16, name: &String, samples: &Vec<(String, i64)>) -> (r: Vec<Update>)
    ensures
        r@ == ethdev_updates(port_id, *name, samples@),
{
    let mut out: Vec<Update> = Vec::new();
    let mut i: usize = 0;
    while i < samples.len()
        invariant
            i <= samples@.len(),
            out@.len() == i,
            forall|j: int| 0 <= j < i ==> out@[j] == ethdev_updates(port_id, *name, samples@)[j],
        decreases samples@.len() - i,
    {
        let labels = EthdevStatsLabels {
            port_id,
            port_name: name.clone(),
            metric: samples[i].0.clone(),
        };
        out.push(Update::Ethdev(labels, samples[i].1));
        i = i + 1;
    }
    assert(out@ =~= ethdev_updates(port_id, *name, samples@));
    out
}

/// The worker gauges for the counters of one worker.
fn to_worker_updates(worker_id: i16, samples: &Vec<(String, i64)>) -> (r: Vec<Update>)
    ensures
        r@ == worker_updates(worker_id, samples@),
{
    let mut out: Vec<Update> = Vec::new();
    let mut i: usize = 0;
    while i < samples.len()
        invariant
            i <= samples@.len(),
            out@.len() == i,
            forall|j: int| 0 <= j < i ==> out@[j] == worker_updates(worker_id, samples@)[j],
        decreases samples@.len() - i,
    {
        let labels = LFWorkerStatsLabels { worker_id, metric: samples[i].0.clone() };
        out.push(Update::Worker(labels, samples[i].1));
        i = i + 1;
    }
    assert(out@ =~= worker_updates(worker_id, samples@));
    out
}

/// The key-manager gauges for its counters.
fn to_keymanager_stats_updates(samples: &Vec<(String, i64)>) -> (r: Vec<Update>)
    ensures
        r@ == keymanager_stats_updates(samples@),
{
    let mut out: Vec<Update> = Vec::new();
    let mut i: usize = 0;
    while i < samples.len()
        invariant
            i <= samples@.len(),
            out@.len() == i,
            forall|j: int| 0 <= j < i ==> out@[j] == keymanager_stats_updates(samples@)[j],
        decreases samples@.len() - i,
    {
        let labels = LFKeymanagerStatsLabels { result: samples[i].0.clone() };
        out.push(Update::KeymanagerStats(labels, samples[i].1));
        i = i + 1;
    }
    assert(out@ =~= keymanager_stats_updates(samples@));
    out
}

/// The dictionary gauges for the key-manager dictionary's entries.
fn to_keymanager_dict_updates(samples: &Vec<(String, i64)>) -> (r: Vec<Update>)
    ensures
        r@ == keymanager_dict_updates(samples@),
{
    let mut out: Vec<Update> = Vec::new();
    let mut i: usize = 0;
    while i < samples.len()
        invariant
            i <= samples@.len(),
            out@.len() == i,
            forall|j: int| 0 <= j < i ==> out@[j] == keymanager_dict_updates(samples@)[j],
        decreases samples@.len() - i,
    {
        let labels = LFKeymanagerDictLabels { key: samples[i].0.clone() };
        out.push(Update::KeymanagerDict(labels, samples[i].1));
        i = i + 1;
    }
    assert(out@ =~= keymanager_dict_updates(samples@));
    out
}

impl Cycle {
    pub open spec fn wf(&self) -> bool {
        match self.stage {
            Stage::EthdevInfo { port } => port < self.ports@.len(),
            Stage::EthdevStats { port, .. } => port < self.ports@.len(),
            Stage::WorkerStats { worker, count } => worker < count <= MAX_WORKERS,
            _ => true,
        }
    }

    /// The query that the cycle waits on; `None` once it is over.
    pub open spec fn query_of(&self) -> Option<Seq<char>> {
        match self.stage {
            Stage::EthdevList => Some(ethdev_list_path()),
            Stage::EthdevInfo { port } => Some(
                param_query_of(ethdev_info_path(), self.ports@[port as int] as int),
            ),
            Stage::EthdevStats { port, .. } => Some(
                param_query_of(ethdev_stats_path(), self.ports@[port as int] as int),
            ),
            Stage::LcoreList => Some(lcore_list_path()),
            Stage::WorkerStats { worker, .. } => Some(
                param_query_of(worker_stats_path(), worker as int),
            ),
            Stage::KeymanagerStats => Some(keymanager_stats_path()),
            Stage::KeymanagerDict => Some(keymanager_dict_path()),
            Stage::Done => None,
        }
    }

    /// Where the interface walk goes after the interface at `port`.
    pub open spec fn after_port(&self, port: usize) -> Stage {
        if port + 1 < self.ports@.len() {
            Stage::EthdevInfo { port: (port + 1) as usize }
        } else {
            Stage::LcoreList
        }
    }

    /// Whether the step of the current stage fails on `resp`.
    pub open spec fn step_fails(&self, resp: Result<JsonValue, QueryError>) -> bool {
        match resp {
            Err(_) => true,
            Ok(v) => match self.stage {
                Stage::EthdevList => port_list_of(v, ethdev_list_path()) is None,
                Stage::EthdevInfo { .. } => name_of(v, ethdev_info_path()) is None,
                Stage::EthdevStats { .. } => stats_of(v, ethdev_stats_path()) is Err,
                Stage::LcoreList => match list_len_of(v, lcore_list_path()) {
                    Some(n) => n < self.reserved_cores || n - self.reserved_cores > MAX_WORKERS,
                    None => true,
                },
                Stage::WorkerStats { .. } => stats_of(v, worker_stats_path()) is Err,
                Stage::KeymanagerStats => stats_of(v, keymanager_stats_path()) is Err,
                Stage::KeymanagerDict => stats_of(v, keymanager_dict_path()) is Err,
                Stage::Done => false,
            },
        }
    }

    /// The stage that follows the current one on `resp`.
    pub open spec fn next_stage(&self, resp: Result<JsonValue, QueryError>) -> Stage {
        if self.step_fails(resp) {
            skip_family(self.stage)
        } else {
            let v = resp->Ok_0;
            match self.stage {
                Stage::EthdevList => if port_list_of(v, ethdev_list_path())->0.len() > 0 {
                    Stage::EthdevInfo { port: 0 }
                } else {
                    Stage::LcoreList
                },
                Stage::EthdevInfo { port } => Stage::EthdevStats {
                    port,
                    name: name_of(v, ethdev_info_path())->0,
                },
                Stage::EthdevStats { port, .. } => self.after_port(port),
                Stage::LcoreList => {
                    let workers = list_len_of(v, lcore_list_path())->0 - self.reserved_cores;
                    if workers > 0 {
                        Stage::WorkerStats { worker: 0, count: workers as usize }
                    } else {
                        Stage::KeymanagerStats
                    }
                },
                Stage::WorkerStats { worker, count } => if worker + 1 < count {
                    Stage::WorkerStats { worker: (worker + 1) as usize, count }
                } else {
                    Stage::KeymanagerStats
                },
                Stage::KeymanagerStats => Stage::KeymanagerDict,
                _ => Stage::Done,
            }
        }
    }

    /// The interfaces known after the step on `resp`.
    pub open spec fn next_ports(&self, resp: Result<JsonValue, QueryError>) -> Seq<i16> {
        match (self.stage, resp) {
            (Stage::EthdevList, Ok(v)) => match port_list_of(v, ethdev_list_path()) {
                Some(p) => p,
                None => self.ports@,
            },
            _ => self.ports@,
        }
    }

    /// The gauges that the step on `resp` sets; none when it fails.
    pub open spec fn updates_of(&self, resp: Result<JsonValue, QueryError>) -> Seq<Update> {
        if self.step_fails(resp) {
            Seq::empty()
        } else {
            let v = resp->Ok_0;
            match self.stage {
                Stage::EthdevStats { port, name } => ethdev_updates(
                    self.ports@[port as int],
                    name,
                    stats_of(v, ethdev_stats_path())->Ok_0,
                ),
                Stage::WorkerStats { worker, .. } => worker_updates(
                    worker as i16,
                    stats_of(v, worker_stats_path())->Ok_0,
                ),
                Stage::KeymanagerStats => keymanager_stats_updates(
                    stats_of(v, keymanager_stats_path())->Ok_0,
                ),
                Stage::KeymanagerDict => keymanager_dict_updates(
                    stats_of(v, keymanager_dict_path())->Ok_0,
                ),
                _ => Seq::empty(),
            }
        }
    }

    /// A cycle at its start, on a machine where `reserved_cores` logical
    /// cores host no worker.
    pub fn new(reserved_cores: usize) -> (r: Cycle)
        ensures
            r.wf(),
            r.stage is EthdevList,
            r.ports@.len() == 0,
            r.reserved_cores == reserved_cores,
            !r.failed,
    {
        Cycle { stage: Stage::EthdevList, ports: Vec::new(), reserved_cores, failed: false }
    }

    /// Whether the cycle is over.
    pub fn is_done(&self) -> (r: bool)
        ensures
            r == (self.stage is Done),
    {
        match self.stage {
            Stage::Done => true,
            _ => false,
        }
    }

    /// The query to send next; `None` once the cycle is over.
    pub fn next_query(&self) -> (r: Option<String>)
        requires
            self.wf(),
        ensures
            match r {
                Some(q) => self.query_of() == Some(q@),
                None => self.query_of() is None,
            },
    {
        match &self.stage {
            Stage::EthdevList => Some("/ethdev/list".to_owned()),
            Stage::EthdevInfo { port } => Some(param_query("/ethdev/info", self.ports[*port] as i64)),
            Stage::EthdevStats { port, .. } => Some(
                param_query("/ethdev/stats", self.ports[*port] as i64),
            ),
            Stage::LcoreList => Some("/eal/lcore/list".to_owned()),
            Stage::WorkerStats { worker, .. } => Some(param_query("/lf/worker/stats", *worker as i64)),
            Stage::KeymanagerStats => Some("/lf/keymanager/stats".to_owned()),
            Stage::KeymanagerDict => Some("/lf/keymanager/dict".to_owned()),
            Stage::Done => None,
        }
    }

    /// Ends the current step as failed: the rest of its family is skipped.
    fn skip(&mut self)
        ensures
            final(self).stage == skip_family(old(self).stage),
            final(self).ports == old(self).ports,
            final(self).reserved_cores == old(self).reserved_cores,
            final(self).failed,
    {
        self.stage = skip_stage(&self.stage);
        self.failed = true;
    }

    /// Takes the outcome of the query that `next_query` gave: moves to the
    /// next stage and returns the gauges to set. A failed query or a
    /// response of the wrong shape sets nothing, marks the cycle as failed
    /// and skips the rest of its family.
    pub fn advance(&mut self, resp: Result<JsonValue, QueryError>) -> (r: Vec<Update>)
        requires
            old(self).wf(),
            !(old(self).stage is Done),
        ensures
            final(self).wf(),
            final(self).stage == old(self).next_stage(resp),
            final(self).ports@ == old(self).next_ports(resp),
            final(self).reserved_cores == old(self).reserved_cores,
            final(self).failed == (old(self).failed || old(self).step_fails(resp)),
            r@ == old(self).updates_of(resp),
    {
        let v = match resp {
            Ok(v) => v,
            Err(_) => {
                self.skip();
                return Vec::new();
            },
        };
        match &self.stage {
            Stage::EthdevList => match port_list(&v, "/ethdev/list") {
                Ok(p) => {
                    let n = p.len();
                    self.ports = p;
                    if n > 0 {
                        self.stage = Stage::EthdevInfo { port: 0 };
                    } else {
                        self.stage = Stage::LcoreList;
                    }
                    Vec::new()
                },
                Err(_) => {
                    self.skip();
                    Vec::new()
                },
            },
            Stage::EthdevInfo { port } => {
                let port = *port;
                match port_name(&v, "/ethdev/info") {
                    Ok(name) => {
                        self.stage = Stage::EthdevStats { port, name };
                        Vec::new()
                    },
                    Err(_) => {
                        self.skip();
                        Vec::new()
                    },
                }
            },
            Stage::EthdevStats { port, name } => {
                let port = *port;
                let name = name.clone();
                match stats_samples(&v, "/ethdev/stats") {
                    Ok(samples) => {
                        let updates = to_ethdev_updates(self.ports[port], &name, &samples);
                        if self.ports.len() - port > 1 {
                            self.stage = Stage::EthdevInfo { port: port + 1 };
                        } else {
                            self.stage = Stage::LcoreList;
                        }
                        updates
                    },
                    Err(_) => {
                        self.skip();
                        Vec::new()
                    },
                }
            },
            Stage::LcoreList => {
                match list_len(&v, "/eal/lcore/list") {
                    Ok(n) => match worker_count(n, self.reserved_cores) {
                        Ok(workers) => {
                            if workers > MAX_WORKERS {
                                self.skip();
                            } else if workers > 0 {
                                self.stage = Stage::WorkerStats { worker: 0, count: workers };
                            } else {
                                self.stage = Stage::KeymanagerStats;
                            }
                            Vec::new()
                        },
                        Err(_) => {
                            self.skip();
                            Vec::new()
                        },
                    },
                    Err(_) => {
                        self.skip();
                        Vec::new()
                    },
                }
            },
            Stage::WorkerStats { worker, count } => {
                let worker = *worker;
                let count = *count;
                match stats_samples(&v, "/lf/worker/stats") {
                    Ok(samples) => {
                        let updates = to_worker_updates(worker as i16, &samples);
                        if worker + 1 < count {
                            self.stage = Stage::WorkerStats { worker: worker + 1, count };
                        } else {
                            self.stage = Stage::KeymanagerStats;
                        }
                        updates
                    },
                    Err(_) => {
                        self.skip();
                        Vec::new()
                    },
                }
            },
            Stage::KeymanagerStats => match stats_samples(&v, "/lf/keymanager/stats") {
                Ok(samples) => {
                    self.stage = Stage::KeymanagerDict;
                    to_keymanager_stats_updates(&samples)
                },
                Err(_) => {
                    self.skip();
                    Vec::new()
                },
            },
            Stage::KeymanagerDict => match stats_samples(&v, "/lf/keymanager/dict") {
                Ok(samples) => {
                    self.stage = Stage::Done;
                    to_keymanager_dict_updates(&samples)
                },
                Err(_) => {
                    self.skip();
                    Vec::new()
                },
            },
            Stage::Done => Vec::new(),
        }
    }

    /// The label of the cycle counter that this cycle increments.
    pub fn outcome(&self) -> (r: CollectorCountLabel)
        ensures
            r.result@ == (if self.failed {
                "failure"@
            } else {
                "success"@
            }),
    {
        if self.failed {
            CollectorCountLabel { result: "failure".to_owned() }
        } else {
            CollectorCountLabel { result: "success".to_owned() }
        }
    }
}

} // verus!

verus! {

/// A gauge: its family and its labels.
pub enum GaugeKey {
    Ethdev(EthdevStatsLabels),
    Worker(LFWorkerStatsLabels),
    KeymanagerStats(LFKeymanagerStatsLabels),
    KeymanagerDict(LFKeymanagerDictLabels),
}

impl Update {
    /// The gauge this update sets.
    pub open spec fn key(self) -> GaugeKey {
        match self {
            Update::Ethdev(l, _) => GaugeKey::Ethdev(l),
            Update::Worker(l, _) => GaugeKey::Worker(l),
            Update::KeymanagerStats(l, _) => GaugeKey::KeymanagerStats(l),
            Update::KeymanagerDict(l, _) => GaugeKey::KeymanagerDict(l),
        }
    }

    /// The value this update sets its gauge to.
    pub open spec fn value(self) -> i64 {
        match self {
            Update::Ethdev(_, v) => v,
            Update::Worker(_, v) => v,
            Update::KeymanagerStats(_, v) => v,
            Update::KeymanagerDict(_, v) => v,
        }
    }
}

/// The gauges after setting each of `updates` in turn: a later value
/// overwrites an earlier one.
pub open spec fn apply_updates(gauges: Map<GaugeKey, i64>, updates: Seq<Update>) -> Map<GaugeKey, i64>
    decreases updates.len(),
{
    if updates.len() == 0 {
        gauges
    } else {
        apply_updates(gauges, updates.drop_last()).insert(updates.last().key(), updates.last().value())
    }
}

proof fn lemma_apply_overrides(gauges: Map<GaugeKey, i64>, updates: Seq<Update>)
    ensures
        apply_updates(gauges, updates) == gauges.union_prefer_right(
            apply_updates(Map::empty(), updates),
        ),
    decreases updates.len(),
{
    if updates.len() == 0 {
        assert(gauges.union_prefer_right(Map::empty()) =~= gauges);
    } else {
        lemma_apply_overrides(gauges, updates.drop_last());
        lemma_apply_overrides(Map::empty(), updates.drop_last());
        assert(apply_updates(gauges, updates) =~= gauges.union_prefer_right(
            apply_updates(Map::empty(), updates),
        ));
    }
}

/// Setting the same updates twice leaves the gauges as setting them once.
pub proof fn lemma_apply_idempotent(gauges: Map<GaugeKey, i64>, updates: Seq<Update>)
    ensures
        apply_updates(apply_updates(gauges, updates), updates) == apply_updates(gauges, updates),
{
    let once = apply_updates(gauges, updates);
    let last = apply_updates(Map::empty(), updates);
    lemma_apply_overrides(gauges, updates);
    lemma_apply_overrides(once, updates);
    assert(once.union_prefer_right(last) =~= once);
}

/// Applying the gauges of one response twice leaves them as applying them
/// once.
pub proof fn lemma_response_idempotent(
    cycle: Cycle,
    resp: Result<JsonValue, QueryError>,
    gauges: Map<GaugeKey, i64>,
)
    ensures
        apply_updates(apply_updates(gauges, cycle.updates_of(resp)), cycle.updates_of(resp))
            == apply_updates(gauges, cycle.updates_of(resp)),
{
    lemma_apply_idempotent(gauges, cycle.updates_of(resp));
}

/// A step whose query failed, or whose response has the wrong shape, sets
/// no gauge, so each gauge keeps its prior value; the cycle is then marked
/// as failed and moves on to the next family.
pub proof fn lemma_failed_step_keeps_gauges(
    cycle: Cycle,
    resp: Result<JsonValue, QueryError>,
    gauges: Map<GaugeKey, i64>,
)
    requires
        cycle.step_fails(resp),
    ensures
        apply_updates(gauges, cycle.updates_of(resp)) == gauges,
        cycle.next_stage(resp) == skip_family(cycle.stage),
{
}

} // verus!

verus! {

/// Whether some step among the first `n` of a run failed.
pub open spec fn some_step_failed(
    cycles: Seq<Cycle>,
    resps: Seq<Result<JsonValue, QueryError>>,
    n: int,
) -> bool {
    exists|i: int| 0 <= i < n && #[trigger] cycles[i].step_fails(resps[i])
}

/// Over a run of steps from a fresh cycle, each state being what `advance`
/// leaves after the one before, the cycle counts as failed exactly when at
/// least one step failed; otherwise its outcome is success.
pub proof fn lemma_outcome_reports_failed_steps(
    cycles: Seq<Cycle>,
    resps: Seq<Result<JsonValue, QueryError>>,
)
    requires
        cycles.len() == resps.len() + 1,
        !cycles[0].failed,
        forall|i: int|
            0 <= i < resps.len() ==> #[trigger] cycles[i + 1].failed == (cycles[i].failed
                || cycles[i].step_fails(resps[i])),
    ensures
        cycles.last().failed == some_step_failed(cycles, resps, resps.len() as int),
    decreases resps.len(),
{
    let n = resps.len() as int;
    if n > 0 {
        let c = cycles.drop_last();
        let r = resps.drop_last();
        assert forall|i: int| 0 <= i < r.len() implies #[trigger] c[i + 1].failed == (c[i].failed
            || c[i].step_fails(r[i])) by {
            assert(cycles[i + 1].failed == (cycles[i].failed || cycles[i].step_fails(resps[i])));
        }
        lemma_outcome_reports_failed_steps(c, r);
        assert(cycles[n].failed == (cycles[n - 1].failed || cycles[n - 1].step_fails(resps[n - 1])));
        if some_step_failed(c, r, n - 1) {
            let i = choose|i: int| 0 <= i < n - 1 && #[trigger] c[i].step_fails(r[i]);
            assert(cycles[i].step_fails(resps[i]));
        }
        if some_step_failed(cycles, resps, n) && !cycles[n - 1].step_fails(resps[n - 1]) {
            let i = choose|i: int| 0 <= i < n && #[trigger] cycles[i].step_fails(resps[i]);
            assert(c[i].step_fails(r[i]));
        }
    }
}

} // verus!
