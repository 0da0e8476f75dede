use vstd::prelude::*;

verus! {

/// A metric family with the name and help text it is registered under.
#[derive(Clone, Debug)]
pub struct PrometheusMetric<T> {
    pub name: String,
    pub help: String,
    pub metric: T,
}

/// Labels of the collection cycle counter: the cycle's outcome.
#[derive(Clone, Debug, Hash, PartialEq, Eq)]
pub struct CollectorCountLabel {
    pub result: String,
}

/// Labels of the interface stats gauge.
#[derive(Clone, Debug, Hash, PartialEq, Eq)]
pub struct EthdevStatsLabels {
    pub port_id: i16,
    pub port_name: String,
    pub metric: String,
}

/// Labels of the worker stats gauge.
#[derive(Clone, Debug, Hash, PartialEq, Eq)]
pub struct LFWorkerStatsLabels {
    pub worker_id: i16,
    pub metric: String,
}

/// Labels of the key-manager stats gauge; `result` names the counter.
#[derive(Clone, Debug, Hash, PartialEq, Eq)]
pub struct LFKeymanagerStatsLabels {
    pub result: String,
}

/// Labels of the key-manager dictionary gauge.
#[derive(Clone, Debug, Hash, PartialEq, Eq)]
pub struct LFKeymanagerDictLabels {
    pub key: String,
}

} // verus!
