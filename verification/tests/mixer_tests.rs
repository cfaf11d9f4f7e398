use blabbergraph::model::config::AppConfig;
use blabbergraph::model::state::AppState;
use blabbergraph::model::strip::{StripConfig, StripKind};
use blabbergraph::pw::graph::{LinkInfo, NodeInfo, PortInfo};
use blabbergraph::pw::message::{BusId, ChannelLayout, LinkState, PortDirection, PwCommand, StripId, VirtualOutputId};
use blabbergraph::ui::channel_strip::StripRole;
use blabbergraph::ui::mixer_view::{
    add_bus, add_virtual_input, add_virtual_output, bus_route_targets, compute_active_input_routes,
    discovered_ids_fit_check, mixer_plan, output_route_targets, StripPlan,
};

const UNITY: u32 = 0x3F80_0000;

fn node(id: u32, name: &str, class: &str, description: &str) -> NodeInfo {
    NodeInfo {
        id,
        name: name.to_string(),
        description: description.to_string(),
        media_class: class.to_string(),
        volumes: vec![0x3F00_0000, 0x3F00_0000],
        muted: true,
        properties: Vec::new(),
    }
}

fn pair(a: &str, b: &str) -> (String, String) {
    (a.to_string(), b.to_string())
}

fn state() -> AppState {
    let mut config = AppConfig::default_config();
    config.strips.push(StripConfig::new_hardware(StripId(1), "usb_mic".to_string(), ChannelLayout::Mono));
    config.strips.push(StripConfig::new_virtual(StripId(2), "Music".to_string(), ChannelLayout::Stereo));
    config.strips.push(StripConfig::new_virtual_output(StripId(3), VirtualOutputId(1), "Out".to_string(), ChannelLayout::Stereo));
    config.buses[1].add_target("speakers".to_string());
    let mut s = AppState::new(config);
    s.graph.add_node(node(10, "usb_mic", "Audio/Source", "USB Mic"));
    s.graph.add_node(node(11, "webcam_mic", "Audio/Source", ""));
    s.graph.add_node(node(12, "blabbergraph.vinput.Music", "Audio/Sink", "Music"));
    s.graph.add_node(node(20, "blabbergraph.bus.A1", "Audio/Duplex", "A1"));
    s.graph.add_node(node(30, "speakers", "Audio/Sink", "Speakers"));
    s.graph.add_node(node(31, "hdmi", "Audio/Sink", "Monitor HDMI"));
    s.graph.add_port(PortInfo { id: 101, node_id: 10, name: "capture_MONO".to_string(), direction: PortDirection::Output });
    s.graph.add_port(PortInfo { id: 201, node_id: 20, name: "playback_FL".to_string(), direction: PortDirection::Input });
    s.graph.add_port(PortInfo { id: 202, node_id: 20, name: "monitor_FL".to_string(), direction: PortDirection::Output });
    s.graph.add_port(PortInfo { id: 311, node_id: 31, name: "playback_FL".to_string(), direction: PortDirection::Input });
    s.graph.add_link(LinkInfo { id: 900, output_port_id: 101, input_port_id: 201, state: LinkState::Active });
    s.graph.add_link(LinkInfo { id: 901, output_port_id: 202, input_port_id: 311, state: LinkState::Active });
    s.register_bus(BusId(1), 20);
    s.register_strip(StripId(2), 12);
    s
}

fn names(plans: &[StripPlan]) -> Vec<&str> {
    plans.iter().map(|p| p.display_name.as_str()).collect()
}

#[test]
fn input_route_targets_are_buses_by_number() {
    let s = state();
    assert_eq!(bus_route_targets(&s.config.buses), vec![pair("1", "A1"), pair("2", "B1")]);
}

#[test]
fn output_route_targets_are_foreign_sinks_by_label() {
    let s = state();
    assert_eq!(output_route_targets(&s), vec![pair("hdmi", "Monitor HDMI"), pair("speakers", "Speakers")]);
}

#[test]
fn active_input_routes_follow_links() {
    let s = state();
    let targets = bus_route_targets(&s.config.buses);
    assert_eq!(compute_active_input_routes(&s, Some(10), &targets), vec!["1".to_string()]);
    assert!(compute_active_input_routes(&s, Some(11), &targets).is_empty());
    assert!(compute_active_input_routes(&s, None, &targets).is_empty());
}

#[test]
fn mixer_plan_sections() {
    let s = state();
    assert!(discovered_ids_fit_check(&s));
    let plan = mixer_plan(&s);
    assert_eq!(names(&plan.inputs), vec!["USB Mic", "Music", "webcam_mic"]);
    assert_eq!(names(&plan.buses), vec!["A1", "B1"]);
    assert_eq!(names(&plan.outputs), vec!["Monitor HDMI", "Speakers", "Out"]);

    let mic = &plan.inputs[0];
    assert!(matches!(mic.role, StripRole::Input { strip_id: StripId(1) }));
    assert_eq!(mic.active_routes, vec!["1".to_string()]);
    assert!(!mic.is_deletable && !mic.is_renamable);
    assert_eq!((mic.volume, mic.muted), (Some(UNITY), Some(false)));
    let music = &plan.inputs[1];
    assert!(music.is_deletable && music.is_renamable);
    let webcam = &plan.inputs[2];
    assert!(matches!(webcam.role, StripRole::Input { strip_id: StripId(10011) }));
    assert_eq!(webcam.pre_resolved_node_id, Some(11));
    assert_eq!((webcam.volume, webcam.muted), (None, None));

    let a1 = &plan.buses[0];
    assert_eq!(
        a1.route_targets,
        vec![pair("hdmi", "Monitor HDMI"), pair("speakers", "Speakers"), pair("blabbergraph.bus.B1", "[Bus] B1")]
    );
    assert_eq!(a1.active_routes, vec!["hdmi".to_string()]);
    let b1 = &plan.buses[1];
    assert_eq!(b1.active_routes, vec!["speakers".to_string()]);

    let hdmi = &plan.outputs[0];
    assert!(matches!(&hdmi.role, StripRole::HardwareOutput { node_name } if node_name == "hdmi"));
    assert_eq!((hdmi.volume, hdmi.muted), (Some(0x3F00_0000), Some(true)));
    assert!(matches!(plan.outputs[2].role, StripRole::VirtualOutput { voutput_id: VirtualOutputId(1) }));

    assert_eq!(
        plan.monitored,
        vec![
            (10, "usb_mic".to_string(), false),
            (12, "blabbergraph.vinput.Music".to_string(), true),
            (11, "webcam_mic".to_string(), false),
            (20, "blabbergraph.bus.A1".to_string(), true),
            (31, "hdmi".to_string(), true),
            (30, "speakers".to_string(), true),
        ]
    );
}

#[test]
fn discovered_id_too_large_is_detected() {
    let mut s = state();
    s.graph.add_node(node(u32::MAX - 5, "late_mic", "Audio/Source", ""));
    assert!(!discovered_ids_fit_check(&s));
}

#[test]
fn adding_strips_and_buses() {
    let mut s = state();
    match add_virtual_input(&mut s) {
        PwCommand::CreateVirtualInput { strip_id, name, channels } => {
            assert_eq!((strip_id, name.as_str(), channels), (StripId(1), "VInput 1", ChannelLayout::Stereo));
        },
        other => panic!("unexpected {:?}", other),
    }
    assert_eq!(s.config.next_strip_id, 2);
    assert!(matches!(&s.config.strips[3].kind, StripKind::VirtualInput { name } if name == "VInput 1"));
    match add_bus(&mut s) {
        PwCommand::CreateBus { bus_id, name, .. } => assert_eq!((bus_id, name.as_str()), (BusId(3), "Bus 3")),
        other => panic!("unexpected {:?}", other),
    }
    assert_eq!(s.config.buses.len(), 3);
    assert_eq!(s.config.buses[2].volume, vec![UNITY, UNITY]);
    match add_virtual_output(&mut s) {
        PwCommand::CreateVirtualOutput { voutput_id, name, .. } => {
            assert_eq!((voutput_id, name.as_str()), (VirtualOutputId(1), "VOutput 1"));
        },
        other => panic!("unexpected {:?}", other),
    }
    assert_eq!(s.config.strips[4].id, StripId(2));
    assert_eq!((s.config.next_strip_id, s.config.next_voutput_id), (3, 2));
}

#[test]
fn output_targets_keep_order_of_equal_labels() {
    let mut s = AppState::new(AppConfig::default());
    s.graph.add_node(node(7, "z_sink", "Audio/Sink", "Same"));
    s.graph.add_node(node(3, "a_sink", "Audio/Sink", "Same"));
    s.graph.add_node(node(5, "b_sink", "Audio/Duplex", "Alpha"));
    s.graph.add_node(node(9, "blabbergraph.bus.X", "Audio/Duplex", "X"));
    assert_eq!(
        output_route_targets(&s),
        vec![pair("b_sink", "Alpha"), pair("a_sink", "Same"), pair("z_sink", "Same")]
    );
}
