use blabbergraph::model::config::AppConfig;
use blabbergraph::model::state::AppState;
use blabbergraph::pw::graph::NodeInfo;
use blabbergraph::pw::message::{BusId, StripId, VirtualOutputId};

fn node(id: u32, name: &str) -> NodeInfo {
    NodeInfo {
        id,
        name: name.to_string(),
        description: String::new(),
        media_class: "Audio/Source".to_string(),
        volumes: Vec::new(),
        muted: false,
        properties: Vec::new(),
    }
}

#[test]
fn new_state_is_empty_and_pending() {
    let s = AppState::new(AppConfig::default_config());
    assert!(s.graph.nodes.is_empty());
    assert!(s.bus_node_map.is_empty());
    assert!(s.restore_pending);
    assert!(!s.cleanup_done);
    assert_eq!(s.config.buses.len(), 2);
}

#[test]
fn registered_nodes_are_found_both_ways() {
    let mut s = AppState::new(AppConfig::default_config());
    assert_eq!(s.bus_node_id(BusId(1)), None);
    s.register_bus(BusId(1), 40);
    s.register_strip(StripId(3), 41);
    s.register_voutput(VirtualOutputId(2), 42);
    assert_eq!(s.bus_node_id(BusId(1)), Some(40));
    assert_eq!(s.node_bus_map.get(&40), Some(&BusId(1)));
    assert_eq!(s.strip_node_id(StripId(3)), Some(41));
    assert_eq!(s.node_strip_map.get(&41), Some(&StripId(3)));
    assert_eq!(s.voutput_node_id(VirtualOutputId(2)), Some(42));
    assert_eq!(s.node_voutput_map.get(&42), Some(&VirtualOutputId(2)));
    assert_eq!(s.bus_node_id(BusId(2)), None);
    s.register_bus(BusId(1), 50);
    assert_eq!(s.bus_node_id(BusId(1)), Some(50));
}

#[test]
fn hardware_node_found_by_name_lowest_id() {
    let mut s = AppState::new(AppConfig::default_config());
    s.graph.add_node(node(30, "usb_mic"));
    s.graph.add_node(node(12, "usb_mic"));
    s.graph.add_node(node(5, "other"));
    assert_eq!(s.find_hardware_node_by_name("usb_mic"), Some(12));
    assert_eq!(s.find_hardware_node_by_name("missing"), None);
}

#[test]
fn hardware_node_lookup_gives_the_node_id() {
    let mut s = AppState::new(AppConfig::default_config());
    let mut n = node(99, "usb_mic");
    n.id = 7;
    s.graph.nodes.insert(99, n);
    assert_eq!(s.find_hardware_node_by_name("usb_mic"), Some(7));
    assert_eq!(s.find_node_key_by_name("usb_mic"), Some(99));
}
