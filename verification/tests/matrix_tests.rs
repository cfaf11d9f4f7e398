use blabbergraph::model::config::AppConfig;
use blabbergraph::model::state::AppState;
use blabbergraph::pw::graph::{LinkInfo, NodeInfo, PortInfo};
use blabbergraph::pw::message::{LinkState, PortDirection, PwCommand, PwEvent};
use blabbergraph::ui::app::{process_event, Refresh};
use blabbergraph::ui::matrix_view::{audio_ports_sorted, matrix_cell_keys, matrix_cell_toggled, matrix_layout, needs_rebuild};

fn node(id: u32, name: &str, class: &str, description: &str) -> NodeInfo {
    NodeInfo {
        id,
        name: name.to_string(),
        description: description.to_string(),
        media_class: class.to_string(),
        volumes: Vec::new(),
        muted: false,
        properties: Vec::new(),
    }
}

fn port(id: u32, node_id: u32, name: &str, d: PortDirection) -> PortInfo {
    PortInfo { id, node_id, name: name.to_string(), direction: d }
}

fn state() -> AppState {
    let mut s = AppState::new(AppConfig::default());
    s.graph.add_node(node(20, "speakers", "Audio/Sink", "Speakers"));
    s.graph.add_node(node(10, "mic", "Audio/Source", ""));
    s.graph.add_node(node(30, "cam", "Video/Source", "Camera"));
    s.graph.add_port(port(5, 20, "playback_FR", PortDirection::Input));
    s.graph.add_port(port(6, 20, "playback_FL", PortDirection::Input));
    s.graph.add_port(port(7, 10, "capture_MONO", PortDirection::Output));
    s.graph.add_port(port(8, 20, "monitor_FL", PortDirection::Output));
    s.graph.add_port(port(9, 30, "video_out", PortDirection::Output));
    s.graph.add_port(port(4, 99, "orphan_in", PortDirection::Input));
    s.graph.add_link(LinkInfo { id: 40, output_port_id: 7, input_port_id: 6, state: LinkState::Active });
    s
}

#[test]
fn audio_ports_sorted_by_node_then_name() {
    let s = state();
    assert_eq!(audio_ports_sorted(&s.graph, PortDirection::Output), vec![7, 8]);
    assert_eq!(audio_ports_sorted(&s.graph, PortDirection::Input), vec![6, 5]);
}

#[test]
fn matrix_rows_columns_and_cells() {
    let s = state();
    let m = matrix_layout(&s);
    let rows: Vec<(u32, &str)> = m.outputs.iter().map(|l| (l.port_id, l.text.as_str())).collect();
    assert_eq!(rows, vec![(7, "mic : capture_MONO"), (8, "Speakers : monitor_FL")]);
    let cols: Vec<(u32, &str)> = m.inputs.iter().map(|l| (l.port_id, l.text.as_str())).collect();
    assert_eq!(cols, vec![(6, "Speakers\nplayback_FL"), (5, "Speakers\nplayback_FR")]);
    assert_eq!(m.linked, vec![vec![true, false], vec![false, false]]);
}

#[test]
fn matrix_empty_without_inputs() {
    let mut s = AppState::new(AppConfig::default());
    s.graph.add_node(node(10, "mic", "Audio/Source", ""));
    s.graph.add_port(port(7, 10, "capture_MONO", PortDirection::Output));
    let m = matrix_layout(&s);
    assert!(m.outputs.is_empty() && m.inputs.is_empty() && m.linked.is_empty());
}

#[test]
fn toggling_cells() {
    let s = state();
    assert!(matches!(
        matrix_cell_toggled(&s.graph, 8, 5, true),
        Some(PwCommand::CreateLink { output_port_id: 8, input_port_id: 5 })
    ));
    assert!(matches!(matrix_cell_toggled(&s.graph, 7, 6, false), Some(PwCommand::DestroyLink { link_id: 40 })));
    assert!(matrix_cell_toggled(&s.graph, 8, 5, false).is_none());
}

#[test]
fn cell_keys_row_by_row() {
    let s = state();
    let m = matrix_layout(&s);
    assert_eq!(matrix_cell_keys(&m), vec![(7, 6), (7, 5), (8, 6), (8, 5)]);
}

#[test]
fn link_events_rebuild_only_without_a_cell() {
    let mut s = state();
    let cells = matrix_cell_keys(&matrix_layout(&s));
    assert!(!needs_rebuild(&Refresh::LinkAdded { output_port_id: 8, input_port_id: 5 }, &cells));
    assert!(needs_rebuild(&Refresh::LinkAdded { output_port_id: 9, input_port_id: 5 }, &cells));
    assert!(needs_rebuild(&Refresh::LinkAdded { output_port_id: 8, input_port_id: 5 }, &vec![]));
    assert!(needs_rebuild(&Refresh::Rebuild, &cells));
    assert!(!needs_rebuild(&Refresh::Nothing, &cells));
    assert!(!needs_rebuild(&Refresh::NodeParams { node_id: 20 }, &cells));
    let (r, _) = process_event(PwEvent::LinkRemoved { id: 40 }, &mut s);
    assert!(!needs_rebuild(&r, &cells));
    let (r, _) = process_event(PwEvent::LinkRemoved { id: 40 }, &mut s);
    assert!(needs_rebuild(&r, &cells));
}
