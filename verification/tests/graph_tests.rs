use blabbergraph::model::routing::{compute_link_pairs, find_links_between};
use blabbergraph::pw::graph::{LinkInfo, NodeInfo, PortInfo, PwGraph};
use blabbergraph::pw::message::{LinkState, PortDirection};

fn node(id: u32, name: &str, class: &str) -> NodeInfo {
    NodeInfo {
        id,
        name: name.to_string(),
        description: name.to_string(),
        media_class: class.to_string(),
        volumes: vec![0x3F80_0000, 0x3F80_0000],
        muted: false,
        properties: Vec::new(),
    }
}

fn port(id: u32, node_id: u32, name: &str, direction: PortDirection) -> PortInfo {
    PortInfo { id, node_id, name: name.to_string(), direction }
}

fn link(id: u32, o: u32, i: u32) -> LinkInfo {
    LinkInfo { id, output_port_id: o, input_port_id: i, state: LinkState::Active }
}

fn stereo_pair() -> PwGraph {
    let mut g = PwGraph::default();
    g.add_node(node(10, "mic", "Audio/Source"));
    g.add_node(node(20, "bus", "Audio/Duplex"));
    g.add_port(port(101, 10, "capture_FL", PortDirection::Output));
    g.add_port(port(102, 10, "capture_FR", PortDirection::Output));
    g.add_port(port(201, 20, "playback_FL", PortDirection::Input));
    g.add_port(port(202, 20, "playback_FR", PortDirection::Input));
    g.add_port(port(203, 20, "monitor_FL", PortDirection::Output));
    g
}

#[test]
fn ports_listed_in_announcement_order() {
    let g = stereo_pair();
    let ids: Vec<u32> = g.ports_for_node(20).iter().map(|p| p.id).collect();
    assert_eq!(ids, vec![201, 202, 203]);
    let outs: Vec<u32> = g.output_ports_for_node(20).iter().map(|p| p.id).collect();
    assert_eq!(outs, vec![203]);
    let ins: Vec<u32> = g.input_ports_for_node(20).iter().map(|p| p.id).collect();
    assert_eq!(ins, vec![201, 202]);
    assert!(g.ports_for_node(99).is_empty());
}

#[test]
fn removing_a_port_drops_it_from_its_node() {
    let mut g = stereo_pair();
    g.remove_port(202);
    let ids: Vec<u32> = g.ports_for_node(20).iter().map(|p| p.id).collect();
    assert_eq!(ids, vec![201, 203]);
    assert!(!g.ports.contains_key(&202));
}

#[test]
fn removing_a_node_forgets_its_port_list() {
    let mut g = stereo_pair();
    g.remove_node(10);
    assert!(!g.nodes.contains_key(&10));
    assert!(g.ports_for_node(10).is_empty());
    assert!(g.ports.contains_key(&101));
}

#[test]
fn audio_nodes_by_class() {
    let mut g = stereo_pair();
    g.add_node(node(5, "video", "Video/Source"));
    g.add_node(node(30, "speakers", "Audio/Sink"));
    g.add_node(node(40, "player", "Stream/Output/Audio"));
    assert!(g.is_audio_node(10));
    assert!(g.is_audio_node(40));
    assert!(!g.is_audio_node(5));
    assert!(!g.is_audio_node(99));
    let sinks: Vec<u32> = g.audio_sink_nodes().iter().map(|n| n.id).collect();
    assert_eq!(sinks, vec![20, 30]);
    let sources: Vec<u32> = g.audio_source_nodes().iter().map(|n| n.id).collect();
    assert_eq!(sources, vec![10, 20]);
}

#[test]
fn find_link_gives_lowest_id_between_ports() {
    let mut g = stereo_pair();
    assert_eq!(g.find_link(101, 201), None);
    g.add_link(link(70, 101, 201));
    g.add_link(link(60, 101, 201));
    g.add_link(link(50, 102, 202));
    assert_eq!(g.find_link(101, 201), Some(60));
    g.remove_link(60);
    assert_eq!(g.find_link(101, 201), Some(70));
    g.remove_link(70);
    assert_eq!(g.find_link(101, 201), None);
}

#[test]
fn stereo_routing_matches_channels() {
    let g = stereo_pair();
    assert_eq!(compute_link_pairs(&g, 10, 20), vec![(101, 201), (102, 202)]);
}

#[test]
fn mono_output_feeds_every_input() {
    let mut g = PwGraph::default();
    g.add_node(node(1, "mono", "Audio/Source"));
    g.add_node(node(2, "bus", "Audio/Duplex"));
    g.add_port(port(11, 1, "capture_MONO", PortDirection::Output));
    g.add_port(port(21, 2, "playback_FL", PortDirection::Input));
    g.add_port(port(22, 2, "playback_FR", PortDirection::Input));
    assert_eq!(compute_link_pairs(&g, 1, 2), vec![(11, 21), (11, 22)]);
}

#[test]
fn unmatched_names_pair_by_position() {
    let mut g = PwGraph::default();
    g.add_node(node(1, "dev", "Audio/Source"));
    g.add_node(node(2, "bus", "Audio/Duplex"));
    g.add_port(port(11, 1, "capture_AUX0", PortDirection::Output));
    g.add_port(port(12, 1, "capture_AUX1", PortDirection::Output));
    g.add_port(port(13, 1, "capture_AUX2", PortDirection::Output));
    g.add_port(port(21, 2, "playback_FL", PortDirection::Input));
    g.add_port(port(22, 2, "playback_FR", PortDirection::Input));
    assert_eq!(compute_link_pairs(&g, 1, 2), vec![(11, 21), (12, 22)]);
}

#[test]
fn routing_without_ports_links_nothing() {
    let g = stereo_pair();
    assert!(compute_link_pairs(&g, 10, 99).is_empty());
    assert!(compute_link_pairs(&g, 99, 20).is_empty());
}

#[test]
fn mono_source_matched_by_name_to_mono_input() {
    let mut g = PwGraph::default();
    g.add_node(node(1, "a", "Audio/Source"));
    g.add_node(node(2, "b", "Audio/Sink"));
    g.add_port(port(11, 1, "capture_MONO", PortDirection::Output));
    g.add_port(port(21, 2, "playback_FL", PortDirection::Input));
    g.add_port(port(22, 2, "playback_MONO", PortDirection::Input));
    assert_eq!(compute_link_pairs(&g, 1, 2), vec![(11, 22)]);
}

#[test]
fn links_between_nodes_ascending() {
    let mut g = stereo_pair();
    g.add_node(node(30, "other", "Audio/Sink"));
    g.add_port(port(301, 30, "playback_FL", PortDirection::Input));
    g.add_link(link(90, 102, 202));
    g.add_link(link(80, 101, 201));
    g.add_link(link(85, 101, 301));
    g.add_link(link(86, 203, 201));
    assert_eq!(find_links_between(&g, 10, 20), vec![80, 90]);
    assert_eq!(find_links_between(&g, 10, 30), vec![85]);
    assert!(find_links_between(&g, 20, 10).is_empty());
}
