use blabbergraph::model::config::AppConfig;
use blabbergraph::model::state::AppState;
use blabbergraph::model::strip::StripConfig;
use blabbergraph::pw::message::{BusId, ChannelLayout, LinkState, PortDirection, PwCommand, PwEvent, StripId};
use blabbergraph::ui::app::{check_and_restore_routing, process_event, Refresh};

const UNITY: u32 = 0x3F80_0000;

fn node_added(id: u32, name: &str, class: &str, description: &str) -> PwEvent {
    PwEvent::NodeAdded {
        id,
        name: name.to_string(),
        media_class: class.to_string(),
        description: description.to_string(),
        properties: vec![("node.name".to_string(), name.to_string())],
    }
}

fn port_added(id: u32, node_id: u32, name: &str, direction: PortDirection) -> PwEvent {
    PwEvent::PortAdded { id, node_id, name: name.to_string(), direction }
}

fn feed(state: &mut AppState, events: Vec<PwEvent>) {
    for e in events {
        let (_, cmds) = process_event(e, state);
        assert!(cmds.is_empty());
    }
}

fn describe(c: &PwCommand) -> String {
    match c {
        PwCommand::DestroyGlobal { id } => format!("destroy {}", id),
        PwCommand::SetVolume { node_id, volumes } => format!("volume {} {:?}", node_id, volumes),
        PwCommand::SetMute { node_id, muted } => format!("mute {} {}", node_id, muted),
        PwCommand::CreateLink { output_port_id, input_port_id } => format!("link {} {}", output_port_id, input_port_id),
        other => format!("{:?}", other),
    }
}

fn configured_state() -> AppState {
    let mut config = AppConfig::default_config();
    let mut strip = StripConfig::new_virtual(StripId(1), "Music".to_string(), ChannelLayout::Stereo);
    strip.add_route(BusId(1));
    config.strips.push(strip);
    config.buses[0].add_target("alsa_output".to_string());
    let mut state = AppState::new(config);
    feed(
        &mut state,
        vec![
            node_added(50, "alsa_output", "Audio/Sink", "Speakers"),
            port_added(51, 50, "playback_FL", PortDirection::Input),
            port_added(52, 50, "playback_FR", PortDirection::Input),
            node_added(70, "blabbergraph.bus.Old", "Audio/Duplex", "Old"),
            node_added(60, "blabbergraph.bus.A1", "Audio/Duplex", "A1"),
            port_added(61, 60, "playback_FL", PortDirection::Input),
            port_added(62, 60, "playback_FR", PortDirection::Input),
            port_added(63, 60, "monitor_FL", PortDirection::Output),
            port_added(64, 60, "monitor_FR", PortDirection::Output),
            node_added(80, "blabbergraph.bus.B1", "Audio/Duplex", "B1"),
            node_added(90, "blabbergraph.vinput.Music", "Audio/Sink", "Music"),
            port_added(93, 90, "monitor_FL", PortDirection::Output),
            port_added(94, 90, "monitor_FR", PortDirection::Output),
        ],
    );
    state
}

#[test]
fn node_added_mirrors_the_node_at_unity() {
    let mut state = AppState::new(AppConfig::default());
    let (refresh, cmds) = process_event(node_added(5, "n", "Audio/Sink", "d"), &mut state);
    assert!(matches!(refresh, Refresh::Rebuild));
    assert!(cmds.is_empty());
    let n = &state.graph.nodes[&5];
    assert_eq!((n.name.as_str(), n.media_class.as_str(), n.description.as_str()), ("n", "Audio/Sink", "d"));
    assert_eq!(n.volumes, vec![UNITY, UNITY]);
    assert!(!n.muted);
    assert!(state.graph.node_ports.contains_key(&5));
}

#[test]
fn graph_events_update_the_mirror() {
    let mut state = configured_state();
    let (r, _) = process_event(
        PwEvent::LinkAdded { id: 500, output_port_id: 93, input_port_id: 61, state: LinkState::Negotiating },
        &mut state,
    );
    assert!(matches!(r, Refresh::LinkAdded { output_port_id: 93, input_port_id: 61 }));
    let (r, _) = process_event(PwEvent::LinkStateChanged { id: 500, state: LinkState::Active }, &mut state);
    assert!(matches!(r, Refresh::Nothing));
    assert_eq!(state.graph.links[&500].state, LinkState::Active);
    let (r, _) = process_event(PwEvent::LinkRemoved { id: 500 }, &mut state);
    assert!(matches!(r, Refresh::LinkRemoved { output_port_id: 93, input_port_id: 61 }));
    assert!(state.graph.links.is_empty());
    let (r, _) = process_event(PwEvent::LinkRemoved { id: 500 }, &mut state);
    assert!(matches!(r, Refresh::Rebuild));
    let (r, _) = process_event(PwEvent::PortRemoved { id: 62 }, &mut state);
    assert!(matches!(r, Refresh::Rebuild));
    assert_eq!(state.graph.node_ports[&60], vec![61, 63, 64]);
    let (r, _) = process_event(PwEvent::NodeRemoved { id: 70 }, &mut state);
    assert!(matches!(r, Refresh::Rebuild));
    assert!(!state.graph.nodes.contains_key(&70));
}

#[test]
fn params_change_applies_given_values() {
    let mut state = configured_state();
    let (r, cmds) = process_event(
        PwEvent::ParamsChanged {
            node_id: 50,
            volumes: Some(vec![0x3F00_0000, 0x3F00_0000]),
            muted: None,
            soft_volumes: None,
            monitor_volumes: None,
        },
        &mut state,
    );
    assert!(matches!(r, Refresh::NodeParams { node_id: 50 }));
    assert!(cmds.is_empty());
    assert_eq!(state.graph.nodes[&50].volumes, vec![0x3F00_0000, 0x3F00_0000]);
    assert!(!state.graph.nodes[&50].muted);
    process_event(
        PwEvent::ParamsChanged { node_id: 50, volumes: None, muted: Some(true), soft_volumes: None, monitor_volumes: None },
        &mut state,
    );
    assert!(state.graph.nodes[&50].muted);
    assert_eq!(state.graph.nodes[&50].volumes, vec![0x3F00_0000, 0x3F00_0000]);
}

#[test]
fn peak_levels_only_refresh_meters() {
    let mut state = configured_state();
    let (r, cmds) = process_event(PwEvent::PeakLevel { node_id: 90, peaks: vec![1, 2] }, &mut state);
    assert!(matches!(r, Refresh::PeakLevel { node_id: 90, ref peaks } if *peaks == vec![1, 2]));
    assert!(cmds.is_empty());
}

#[test]
fn routing_restored_once_every_node_is_known() {
    let mut state = configured_state();
    let (r, cmds) = process_event(PwEvent::BusCreated { bus_id: BusId(1), node_id: 60 }, &mut state);
    assert!(matches!(r, Refresh::Rebuild));
    assert!(cmds.is_empty());
    assert_eq!(state.bus_node_id(BusId(1)), Some(60));
    let (_, cmds) = process_event(PwEvent::BusCreated { bus_id: BusId(2), node_id: 80 }, &mut state);
    assert!(cmds.is_empty());
    assert!(state.restore_pending);
    let (_, cmds) = process_event(PwEvent::VirtualInputCreated { strip_id: StripId(1), node_id: 90 }, &mut state);
    let got: Vec<String> = cmds.iter().map(describe).collect();
    let unity = format!("{:?}", vec![UNITY, UNITY]);
    assert_eq!(
        got,
        vec![
            "destroy 70".to_string(),
            format!("volume 60 {}", unity),
            "mute 60 false".to_string(),
            format!("volume 80 {}", unity),
            "mute 80 false".to_string(),
            format!("volume 90 {}", unity),
            "mute 90 false".to_string(),
            "link 93 61".to_string(),
            "link 94 62".to_string(),
            "link 63 51".to_string(),
            "link 64 52".to_string(),
        ]
    );
    assert!(!state.restore_pending);
    assert!(state.cleanup_done);
    assert!(check_and_restore_routing(&mut state).is_empty());
    let (_, cmds) = process_event(PwEvent::BusCreated { bus_id: BusId(2), node_id: 81 }, &mut state);
    assert!(cmds.is_empty());
}

#[test]
fn restore_waits_while_pending_nodes_are_missing() {
    let mut state = configured_state();
    assert!(check_and_restore_routing(&mut state).is_empty());
    assert!(state.restore_pending);
    assert!(!state.cleanup_done);
}
