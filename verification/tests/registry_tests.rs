use blabbergraph::pw::link_factory::link_properties;
use blabbergraph::pw::message::{BusId, LinkState, PortDirection, PwEvent, StripId, VirtualOutputId};
use blabbergraph::pw::registry::{
    global_event, link_state_event, merge_props, params_event, prop_get, prop_get_id, prop_get_text, GlobalKind, ParamProp,
    ProxyStore, ReportedLinkState,
};

fn props(pairs: &[(&str, &str)]) -> Vec<(String, String)> {
    pairs.iter().map(|(k, v)| (k.to_string(), v.to_string())).collect()
}

#[test]
fn first_pair_with_key_wins() {
    let p = props(&[("a", "1"), ("b", "2"), ("a", "3")]);
    assert_eq!(prop_get(&p, "a"), Some("1".to_string()));
    assert_eq!(prop_get(&p, "c"), None);
    assert_eq!(prop_get_text(&p, "c"), "");
    assert_eq!(prop_get_id(&p, "b"), 2);
    assert_eq!(prop_get_id(&p, "c"), 0);
    assert_eq!(prop_get_id(&props(&[("n", "x7")]), "n"), 0);
}

#[test]
fn node_global_becomes_node_added() {
    let p = props(&[
        ("node.name", "alsa_output.pci"),
        ("node.nick", "Speakers"),
        ("media.class", "Audio/Sink"),
    ]);
    match global_event(GlobalKind::Node, 42, &p) {
        Some(PwEvent::NodeAdded { id, name, media_class, description, properties }) => {
            assert_eq!(id, 42);
            assert_eq!(name, "alsa_output.pci");
            assert_eq!(media_class, "Audio/Sink");
            assert_eq!(description, "Speakers");
            assert_eq!(properties, p);
        },
        other => panic!("unexpected {:?}", other),
    }
}

#[test]
fn node_properties_keep_one_pair_per_key() {
    let p = props(&[("a", "1"), ("b", "2"), ("a", "3"), ("c", "4")]);
    assert_eq!(merge_props(&p), props(&[("a", "3"), ("b", "2"), ("c", "4")]));
    match global_event(GlobalKind::Node, 1, &p) {
        Some(PwEvent::NodeAdded { properties, .. }) => assert_eq!(properties, props(&[("a", "3"), ("b", "2"), ("c", "4")])),
        other => panic!("unexpected {:?}", other),
    }
}

#[test]
fn node_description_falls_back_in_order() {
    let with_desc = props(&[("node.name", "n"), ("node.nick", "k"), ("node.description", "d")]);
    let name_only = props(&[("node.name", "n")]);
    let nothing = props(&[]);
    let described = |p: &Vec<(String, String)>| match global_event(GlobalKind::Node, 1, p) {
        Some(PwEvent::NodeAdded { description, name, media_class, .. }) => (description, name, media_class),
        other => panic!("unexpected {:?}", other),
    };
    assert_eq!(described(&with_desc).0, "d");
    assert_eq!(described(&name_only).0, "n");
    assert_eq!(described(&nothing), (String::new(), String::new(), String::new()));
}

#[test]
fn port_global_becomes_port_added() {
    let p = props(&[("node.id", "42"), ("port.name", "playback_FL"), ("port.direction", "in")]);
    match global_event(GlobalKind::Port, 7, &p) {
        Some(PwEvent::PortAdded { id, node_id, name, direction }) => {
            assert_eq!((id, node_id), (7, 42));
            assert_eq!(name, "playback_FL");
            assert_eq!(direction, PortDirection::Input);
        },
        other => panic!("unexpected {:?}", other),
    }
    let out = props(&[("port.direction", "out"), ("node.id", "bad")]);
    match global_event(GlobalKind::Port, 8, &out) {
        Some(PwEvent::PortAdded { node_id, direction, name, .. }) => {
            assert_eq!(node_id, 0);
            assert_eq!(direction, PortDirection::Output);
            assert_eq!(name, "");
        },
        other => panic!("unexpected {:?}", other),
    }
}

#[test]
fn port_without_direction_is_ignored() {
    assert!(global_event(GlobalKind::Port, 7, &props(&[("port.direction", "sideways")])).is_none());
    assert!(global_event(GlobalKind::Port, 7, &props(&[("node.id", "1")])).is_none());
}

#[test]
fn link_global_becomes_negotiating_link() {
    let p = props(&[("link.output.port", "11"), ("link.input.port", "21")]);
    match global_event(GlobalKind::Link, 99, &p) {
        Some(PwEvent::LinkAdded { id, output_port_id, input_port_id, state }) => {
            assert_eq!((id, output_port_id, input_port_id), (99, 11, 21));
            assert_eq!(state, LinkState::Negotiating);
        },
        other => panic!("unexpected {:?}", other),
    }
    assert!(global_event(GlobalKind::Other, 1, &p).is_none());
}

#[test]
fn created_link_is_announced_with_its_ports() {
    let p = link_properties(123, 4567);
    match global_event(GlobalKind::Link, 5, &p) {
        Some(PwEvent::LinkAdded { output_port_id, input_port_id, .. }) => {
            assert_eq!((output_port_id, input_port_id), (123, 4567));
        },
        other => panic!("unexpected {:?}", other),
    }
}

#[test]
fn link_states_map_init_to_negotiating() {
    let cases = [
        (ReportedLinkState::Error, LinkState::Error),
        (ReportedLinkState::Unlinked, LinkState::Unlinked),
        (ReportedLinkState::Init, LinkState::Negotiating),
        (ReportedLinkState::Negotiating, LinkState::Negotiating),
        (ReportedLinkState::Allocating, LinkState::Allocating),
        (ReportedLinkState::Paused, LinkState::Paused),
        (ReportedLinkState::Active, LinkState::Active),
    ];
    for (reported, expected) in cases {
        match link_state_event(3, reported) {
            PwEvent::LinkStateChanged { id, state } => assert_eq!((id, state), (3, expected)),
            other => panic!("unexpected {:?}", other),
        }
    }
}

#[test]
fn params_keep_the_last_value_of_each_kind() {
    let p = vec![
        ParamProp::ChannelVolumes(vec![1, 2]),
        ParamProp::Mute(true),
        ParamProp::Other,
        ParamProp::ChannelVolumes(vec![3, 4]),
        ParamProp::MonitorVolumes(vec![5]),
    ];
    match params_event(9, &p) {
        Some(PwEvent::ParamsChanged { node_id, volumes, muted, soft_volumes, monitor_volumes }) => {
            assert_eq!(node_id, 9);
            assert_eq!(volumes, Some(vec![3, 4]));
            assert_eq!(muted, Some(true));
            assert_eq!(soft_volumes, None);
            assert_eq!(monitor_volumes, Some(vec![5]));
        },
        other => panic!("unexpected {:?}", other),
    }
}

#[test]
fn params_without_values_report_nothing() {
    assert!(params_event(9, &vec![]).is_none());
    assert!(params_event(9, &vec![ParamProp::Other]).is_none());
    assert!(params_event(9, &vec![ParamProp::SoftVolumes(vec![7])]).is_none());
    assert!(params_event(9, &vec![ParamProp::MonitorVolumes(vec![7]), ParamProp::Other]).is_none());
    assert!(matches!(
        params_event(9, &vec![ParamProp::SoftVolumes(vec![7]), ParamProp::Mute(false)]),
        Some(PwEvent::ParamsChanged { soft_volumes: Some(_), volumes: None, muted: Some(false), .. })
    ));
}

#[test]
fn removed_global_is_node_link_or_port() {
    let mut store: ProxyStore<&str, &str> = ProxyStore::new();
    store.nodes.insert(1, "node");
    store.links.insert(2, "link");
    assert!(matches!(store.remove_global(1), PwEvent::NodeRemoved { id: 1 }));
    assert!(store.nodes.is_empty());
    assert!(matches!(store.remove_global(2), PwEvent::LinkRemoved { id: 2 }));
    assert!(store.links.is_empty());
    assert!(matches!(store.remove_global(1), PwEvent::PortRemoved { id: 1 }));
}

#[test]
fn created_nodes_are_recorded_and_taken_back() {
    let mut store: ProxyStore<&str, &str> = ProxyStore::new();
    assert!(matches!(store.record_bus_node(BusId(1), 30), PwEvent::BusCreated { bus_id: BusId(1), node_id: 30 }));
    assert!(matches!(
        store.record_virtual_input_node(StripId(2), 31),
        PwEvent::VirtualInputCreated { strip_id: StripId(2), node_id: 31 }
    ));
    assert!(matches!(
        store.record_virtual_output_node(VirtualOutputId(3), 32),
        PwEvent::VirtualOutputCreated { voutput_id: VirtualOutputId(3), node_id: 32 }
    ));
    store.nodes.insert(30, "bus proxy");
    store.nodes.insert(31, "input proxy");
    assert_eq!(store.take_bus_node(BusId(1)), Some("bus proxy"));
    assert!(store.bus_nodes.is_empty());
    assert!(!store.nodes.contains_key(&30));
    assert_eq!(store.take_bus_node(BusId(1)), None);
    assert_eq!(store.take_virtual_input_node(StripId(2)), Some("input proxy"));
    assert_eq!(store.take_virtual_output_node(VirtualOutputId(3)), None);
    assert!(store.virtual_output_nodes.is_empty());
}
