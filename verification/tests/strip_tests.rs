use blabbergraph::model::config::AppConfig;
use blabbergraph::model::state::AppState;
use blabbergraph::model::strip::{StripConfig, StripKind};
use blabbergraph::pw::graph::{LinkInfo, NodeInfo, PortInfo};
use blabbergraph::pw::message::{BusId, ChannelLayout, LinkState, PortDirection, PwCommand, StripId, VirtualOutputId};
use blabbergraph::ui::channel_strip::{
    apply_rename, delete_strip, mute_command, resolve_node_and_channels, route_toggled, shows_params_of,
    shows_peaks_of, volume_command, StripRole,
};

fn node(id: u32, name: &str, class: &str) -> NodeInfo {
    NodeInfo {
        id,
        name: name.to_string(),
        description: String::new(),
        media_class: class.to_string(),
        volumes: Vec::new(),
        muted: false,
        properties: Vec::new(),
    }
}

fn port(id: u32, node_id: u32, name: &str, d: PortDirection) -> PortInfo {
    PortInfo { id, node_id, name: name.to_string(), direction: d }
}

fn state() -> AppState {
    let mut config = AppConfig::default_config();
    config.strips.push(StripConfig::new_hardware(StripId(1), "usb_mic".to_string(), ChannelLayout::Mono));
    config.strips.push(StripConfig::new_virtual(StripId(2), "Music".to_string(), ChannelLayout::Stereo));
    config.strips.push(StripConfig::new_virtual_output(StripId(3), VirtualOutputId(1), "Out".to_string(), ChannelLayout::Stereo));
    let mut s = AppState::new(config);
    s.graph.add_node(node(10, "usb_mic", "Audio/Source"));
    s.graph.add_port(port(11, 10, "capture_MONO", PortDirection::Output));
    s.graph.add_node(node(20, "blabbergraph.bus.A1", "Audio/Duplex"));
    s.graph.add_port(port(21, 20, "playback_FL", PortDirection::Input));
    s.graph.add_port(port(22, 20, "playback_FR", PortDirection::Input));
    s.graph.add_port(port(23, 20, "monitor_FL", PortDirection::Output));
    s.graph.add_port(port(24, 20, "monitor_FR", PortDirection::Output));
    s.graph.add_node(node(30, "speakers", "Audio/Sink"));
    s.graph.add_port(port(31, 30, "playback_FL", PortDirection::Input));
    s.graph.add_port(port(32, 30, "playback_FR", PortDirection::Input));
    s.register_bus(BusId(1), 20);
    s.register_strip(StripId(2), 40);
    s.register_voutput(VirtualOutputId(1), 50);
    s
}

#[test]
fn strip_nodes_and_channels() {
    let s = state();
    assert_eq!(resolve_node_and_channels(&StripRole::Input { strip_id: StripId(1) }, &s, None), (Some(10), 1));
    assert_eq!(resolve_node_and_channels(&StripRole::Input { strip_id: StripId(2) }, &s, None), (Some(40), 2));
    assert_eq!(resolve_node_and_channels(&StripRole::Input { strip_id: StripId(9) }, &s, Some(77)), (Some(77), 2));
    assert_eq!(resolve_node_and_channels(&StripRole::Bus { bus_id: BusId(1) }, &s, None), (Some(20), 2));
    assert_eq!(resolve_node_and_channels(&StripRole::Bus { bus_id: BusId(2) }, &s, None), (None, 2));
    let out = StripRole::HardwareOutput { node_name: "speakers".to_string() };
    assert_eq!(resolve_node_and_channels(&out, &s, None), (Some(30), 2));
    assert_eq!(resolve_node_and_channels(&StripRole::VirtualOutput { voutput_id: VirtualOutputId(1) }, &s, None), (Some(50), 2));
}

#[test]
fn volume_and_mute_commands() {
    let s = state();
    match volume_command(&StripRole::Input { strip_id: StripId(1) }, &s, None, 0x3F00_0000) {
        Some(PwCommand::SetVolume { node_id, volumes }) => {
            assert_eq!(node_id, 10);
            assert_eq!(volumes, vec![0x3F00_0000]);
        },
        other => panic!("unexpected {:?}", other),
    }
    match volume_command(&StripRole::Bus { bus_id: BusId(1) }, &s, None, 0) {
        Some(PwCommand::SetVolume { node_id, volumes }) => assert_eq!((node_id, volumes), (20, vec![0, 0])),
        other => panic!("unexpected {:?}", other),
    }
    assert!(volume_command(&StripRole::Bus { bus_id: BusId(2) }, &s, None, 0).is_none());
    assert!(matches!(
        mute_command(&StripRole::Bus { bus_id: BusId(1) }, &s, None, true),
        Some(PwCommand::SetMute { node_id: 20, muted: true })
    ));
    assert!(mute_command(&StripRole::Input { strip_id: StripId(9) }, &s, None, true).is_none());
}

#[test]
fn strips_show_their_own_nodes() {
    let s = state();
    assert!(shows_params_of(&StripRole::Bus { bus_id: BusId(1) }, &s, 20));
    assert!(!shows_params_of(&StripRole::Bus { bus_id: BusId(1) }, &s, 30));
    assert!(shows_params_of(&StripRole::Input { strip_id: StripId(2) }, &s, 40));
    assert!(shows_params_of(&StripRole::HardwareOutput { node_name: "speakers".to_string() }, &s, 30));
    assert!(shows_peaks_of(&StripRole::Input { strip_id: StripId(5) }, Some(10), &s, 10));
    assert!(!shows_peaks_of(&StripRole::Input { strip_id: StripId(5) }, None, &s, 10));
}

#[test]
fn renaming_virtual_strips_and_buses() {
    let mut s = state();
    apply_rename(&StripRole::Input { strip_id: StripId(2) }, "Games", &mut s);
    assert!(matches!(&s.config.strips[1].kind, StripKind::VirtualInput { name } if name == "Games"));
    apply_rename(&StripRole::Input { strip_id: StripId(1) }, "Nope", &mut s);
    assert!(matches!(&s.config.strips[0].kind, StripKind::HardwareInput { node_name } if node_name == "usb_mic"));
    apply_rename(&StripRole::VirtualOutput { voutput_id: VirtualOutputId(1) }, "Stream", &mut s);
    assert_eq!(s.config.strips[2].display_name(), "Stream");
    apply_rename(&StripRole::Bus { bus_id: BusId(2) }, "Chat", &mut s);
    assert_eq!(s.config.buses[1].name, "Chat");
    assert_eq!(s.config.buses[0].name, "A1");
}

#[test]
fn routing_an_input_to_a_bus_links_and_records() {
    let mut s = state();
    let cmds = route_toggled(&StripRole::Input { strip_id: StripId(1) }, "1", true, None, &mut s);
    let links: Vec<(u32, u32)> = cmds
        .iter()
        .map(|c| match c {
            PwCommand::CreateLink { output_port_id, input_port_id } => (*output_port_id, *input_port_id),
            other => panic!("unexpected {:?}", other),
        })
        .collect();
    assert_eq!(links, vec![(11, 21), (11, 22)]);
    assert_eq!(s.config.strips[0].routed_to, vec![BusId(1)]);
    s.graph.add_link(LinkInfo { id: 101, output_port_id: 11, input_port_id: 22, state: LinkState::Active });
    s.graph.add_link(LinkInfo { id: 100, output_port_id: 11, input_port_id: 21, state: LinkState::Active });
    let cmds = route_toggled(&StripRole::Input { strip_id: StripId(1) }, "1", false, None, &mut s);
    let ids: Vec<u32> = cmds
        .iter()
        .map(|c| match c {
            PwCommand::DestroyLink { link_id } => *link_id,
            other => panic!("unexpected {:?}", other),
        })
        .collect();
    assert_eq!(ids, vec![100, 101]);
    assert!(s.config.strips[0].routed_to.is_empty());
}

#[test]
fn routing_to_a_bus_without_node_changes_only_config() {
    let mut s = state();
    let cmds = route_toggled(&StripRole::Input { strip_id: StripId(1) }, "2", true, None, &mut s);
    assert!(cmds.is_empty());
    assert_eq!(s.config.strips[0].routed_to, vec![BusId(2)]);
}

#[test]
fn routing_a_bus_to_an_output() {
    let mut s = state();
    let cmds = route_toggled(&StripRole::Bus { bus_id: BusId(1) }, "speakers", true, None, &mut s);
    assert_eq!(cmds.len(), 2);
    assert!(matches!(cmds[0], PwCommand::CreateLink { output_port_id: 23, input_port_id: 31 }));
    assert!(matches!(cmds[1], PwCommand::CreateLink { output_port_id: 24, input_port_id: 32 }));
    assert_eq!(s.config.buses[0].output_targets, vec!["speakers".to_string()]);
    let cmds = route_toggled(&StripRole::Bus { bus_id: BusId(1) }, "nowhere", true, None, &mut s);
    assert!(cmds.is_empty());
    assert_eq!(s.config.buses[0].output_targets, vec!["speakers".to_string()]);
}

#[test]
fn deleting_strips_and_buses() {
    let mut s = state();
    s.config.strips[1].add_route(BusId(1));
    let cmds = delete_strip(&StripRole::Bus { bus_id: BusId(1) }, &mut s);
    assert!(matches!(cmds.as_slice(), [PwCommand::DestroyBus { bus_id: BusId(1) }]));
    assert_eq!(s.config.buses.len(), 1);
    assert!(s.config.strips[1].routed_to.is_empty());
    let cmds = delete_strip(&StripRole::Input { strip_id: StripId(2) }, &mut s);
    assert!(matches!(cmds.as_slice(), [PwCommand::DestroyVirtualInput { strip_id: StripId(2) }]));
    let cmds = delete_strip(&StripRole::Input { strip_id: StripId(1) }, &mut s);
    assert!(cmds.is_empty());
    assert_eq!(s.config.strips.len(), 1);
    let cmds = delete_strip(&StripRole::VirtualOutput { voutput_id: VirtualOutputId(1) }, &mut s);
    assert!(matches!(cmds.as_slice(), [PwCommand::DestroyVirtualOutput { voutput_id: VirtualOutputId(1) }]));
    assert!(s.config.strips.is_empty());
    let cmds = delete_strip(&StripRole::HardwareOutput { node_name: "speakers".to_string() }, &mut s);
    assert!(cmds.is_empty());
}
