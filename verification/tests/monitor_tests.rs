use blabbergraph::pw::peak_monitor::MonitorSet;

fn req(id: u32, name: &str, sink: bool) -> (u32, String, bool) {
    (id, name.to_string(), sink)
}

#[test]
fn unrequested_streams_are_dropped() {
    let mut m: MonitorSet<&str> = MonitorSet::new();
    m.insert_stream(5, "s5");
    m.insert_stream(3, "s3");
    m.insert_stream(9, "s9");
    let removed = m.retain_requested(&vec![req(5, "a", false)]);
    assert_eq!(removed, vec![3, 9]);
    assert!(m.is_monitored(5));
    assert!(!m.is_monitored(3));
    assert_eq!(m.streams.len(), 1);
}

#[test]
fn requests_to_open_skip_metered_nodes() {
    let mut m: MonitorSet<&str> = MonitorSet::new();
    m.insert_stream(5, "s5");
    let nodes = vec![req(7, "b", true), req(5, "a", false), req(7, "b2", false), req(8, "c", false)];
    assert_eq!(m.requests_to_open(&nodes), vec![req(7, "b", true), req(7, "b2", false), req(8, "c", false)]);
}

#[test]
fn later_request_tried_when_first_open_fails() {
    let mut m: MonitorSet<&str> = MonitorSet::new();
    let nodes = vec![req(7, "b", true), req(7, "b2", false)];
    let mut tried = Vec::new();
    for (id, name, _) in m.requests_to_open(&nodes) {
        if m.is_monitored(id) {
            continue;
        }
        tried.push(name.clone());
        if name == "b2" {
            m.insert_stream(id, "opened");
        }
    }
    assert_eq!(tried, vec!["b".to_string(), "b2".to_string()]);
    assert!(m.is_monitored(7));
}

#[test]
fn metering_follows_the_request() {
    let mut m: MonitorSet<u32> = MonitorSet::new();
    m.insert_stream(1, 1);
    m.insert_stream(2, 2);
    let nodes = vec![req(2, "x", false), req(4, "y", true)];
    m.retain_requested(&nodes);
    for (id, _, _) in m.requests_to_open(&nodes) {
        m.insert_stream(id, id);
    }
    let mut ids: Vec<u32> = m.streams.keys().copied().collect();
    ids.sort();
    assert_eq!(ids, vec![2, 4]);
}
