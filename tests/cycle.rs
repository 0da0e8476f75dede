use lf_monitor::collector::{Cycle, Stage, Update, DEFAULT_RESERVED_CORES};
use lf_monitor::json::{parse_json, JsonValue};
use lf_monitor::telemetry::QueryError;

fn doc(text: &str) -> Result<JsonValue, QueryError> {
    Ok(parse_json(text.as_bytes()).expect("valid JSON"))
}

fn step(cycle: &mut Cycle, expected_query: &str, resp: Result<JsonValue, QueryError>) -> Vec<Update> {
    assert_eq!(cycle.next_query().as_deref(), Some(expected_query));
    cycle.advance(resp)
}

#[test]
fn ethdev_scenario_sets_numeric_counter_only() {
    let mut c = Cycle::new(DEFAULT_RESERVED_CORES);
    assert!(step(&mut c, "/ethdev/list", doc(r#"{"/ethdev/list": [0]}"#)).is_empty());
    assert!(step(&mut c, "/ethdev/info,0", doc(r#"{"/ethdev/info": {"name": "eth0"}}"#)).is_empty());
    let ups = step(
        &mut c,
        "/ethdev/stats,0",
        doc(r#"{"/ethdev/stats": {"rx_packets": 42, "status": "up"}}"#),
    );
    assert_eq!(ups.len(), 1);
    match &ups[0] {
        Update::Ethdev(l, v) => {
            assert_eq!(l.port_id, 0);
            assert_eq!(l.port_name, "eth0");
            assert_eq!(l.metric, "rx_packets");
            assert_eq!(*v, 42);
        }
        other => panic!("unexpected update {:?}", other),
    }
    assert!(matches!(c.stage, Stage::LcoreList));
    assert!(!c.failed);
}

#[test]
fn keymanager_dict_scenario_ignores_strings() {
    let mut c = Cycle::new(DEFAULT_RESERVED_CORES);
    c.stage = Stage::KeymanagerDict;
    let ups = step(
        &mut c,
        "/lf/keymanager/dict",
        doc(r#"{"/lf/keymanager/dict": {"entries": 7, "label": "x"}}"#),
    );
    assert_eq!(ups.len(), 1);
    match &ups[0] {
        Update::KeymanagerDict(l, v) => {
            assert_eq!(l.key, "entries");
            assert_eq!(*v, 7);
        }
        other => panic!("unexpected update {:?}", other),
    }
    assert!(c.is_done());
    assert_eq!(c.outcome().result, "success");
}

#[test]
fn full_cycle_walks_families_in_order() {
    let mut c = Cycle::new(2);
    step(&mut c, "/ethdev/list", doc(r#"{"/ethdev/list": [0, 1]}"#));
    step(&mut c, "/ethdev/info,0", doc(r#"{"/ethdev/info": {"name": "a"}}"#));
    step(&mut c, "/ethdev/stats,0", doc(r#"{"/ethdev/stats": {"x": 1}}"#));
    step(&mut c, "/ethdev/info,1", doc(r#"{"/ethdev/info": {"name": "b"}}"#));
    let ups = step(&mut c, "/ethdev/stats,1", doc(r#"{"/ethdev/stats": {"x": 2, "y": 3}}"#));
    assert_eq!(ups.len(), 2);
    step(&mut c, "/eal/lcore/list", doc(r#"{"/eal/lcore/list": [0, 1, 2, 3]}"#));
    let ups = step(&mut c, "/lf/worker/stats,0", doc(r#"{"/lf/worker/stats": {"pkts": 5}}"#));
    match &ups[0] {
        Update::Worker(l, v) => {
            assert_eq!(l.worker_id, 0);
            assert_eq!(l.metric, "pkts");
            assert_eq!(*v, 5);
        }
        other => panic!("unexpected update {:?}", other),
    }
    let ups = step(&mut c, "/lf/worker/stats,1", doc(r#"{"/lf/worker/stats": {"pkts": 6}}"#));
    assert!(matches!(&ups[0], Update::Worker(l, 6) if l.worker_id == 1));
    let ups = step(&mut c, "/lf/keymanager/stats", doc(r#"{"/lf/keymanager/stats": {"added": 9}}"#));
    assert!(matches!(&ups[0], Update::KeymanagerStats(l, 9) if l.result == "added"));
    step(&mut c, "/lf/keymanager/dict", doc(r#"{"/lf/keymanager/dict": {}}"#));
    assert!(c.is_done());
    assert_eq!(c.next_query(), None);
    assert_eq!(c.outcome().result, "success");
}

#[test]
fn failed_query_skips_family_and_marks_failure() {
    let mut c = Cycle::new(2);
    let ups = step(&mut c, "/ethdev/list", Err(QueryError::Malformed));
    assert!(ups.is_empty());
    assert!(matches!(c.stage, Stage::LcoreList));
    assert!(c.failed);
    assert_eq!(c.outcome().result, "failure");
}

#[test]
fn wrong_shape_skips_family() {
    let mut c = Cycle::new(2);
    c.stage = Stage::KeymanagerStats;
    let ups = step(&mut c, "/lf/keymanager/stats", doc(r#"{"/lf/keymanager/stats": [1, 2]}"#));
    assert!(ups.is_empty());
    assert!(matches!(c.stage, Stage::KeymanagerDict));
    assert!(c.failed);
}

#[test]
fn too_few_cores_is_a_failure() {
    let mut c = Cycle::new(2);
    c.stage = Stage::LcoreList;
    step(&mut c, "/eal/lcore/list", doc(r#"{"/eal/lcore/list": [0]}"#));
    assert!(matches!(c.stage, Stage::KeymanagerStats));
    assert!(c.failed);
}

#[test]
fn exactly_reserved_cores_means_no_workers() {
    let mut c = Cycle::new(2);
    c.stage = Stage::LcoreList;
    step(&mut c, "/eal/lcore/list", doc(r#"{"/eal/lcore/list": [0, 1]}"#));
    assert!(matches!(c.stage, Stage::KeymanagerStats));
    assert!(!c.failed);
}

#[test]
fn empty_port_list_goes_to_workers() {
    let mut c = Cycle::new(2);
    step(&mut c, "/ethdev/list", doc(r#"{"/ethdev/list": []}"#));
    assert!(matches!(c.stage, Stage::LcoreList));
    assert!(!c.failed);
}

#[test]
fn same_response_twice_gives_same_updates() {
    let resp = r#"{"/lf/keymanager/stats": {"a": 1, "b": "no", "c": 3}}"#;
    let mut c1 = Cycle::new(2);
    c1.stage = Stage::KeymanagerStats;
    let mut c2 = Cycle::new(2);
    c2.stage = Stage::KeymanagerStats;
    let u1 = c1.advance(doc(resp));
    let u2 = c2.advance(doc(resp));
    assert_eq!(format!("{:?}", u1), format!("{:?}", u2));
    assert_eq!(u1.len(), 2);
}
