use blabbergraph::pw::link_factory::link_properties;
use blabbergraph::pw::message::PwEvent;
use blabbergraph::pw::registry::{global_event, GlobalKind};
use blabbergraph::text::starts_with;
use blabbergraph::pw::message::ChannelLayout;
use blabbergraph::pw::node_factory::{
    bus_node_properties, channel_positions, virtual_input_node_properties, virtual_output_node_properties,
};
use blabbergraph::pw::peak_monitor::{peak_stream_name, peak_stream_properties, peak_target};

fn pairs(p: &[(&str, &str)]) -> Vec<(String, String)> {
    p.iter().map(|(k, v)| (k.to_string(), v.to_string())).collect()
}

#[test]
fn positions_of_layouts() {
    assert_eq!(channel_positions(ChannelLayout::Mono), "MONO");
    assert_eq!(channel_positions(ChannelLayout::Stereo), "FL,FR");
}

#[test]
fn bus_node_is_a_duplex_null_sink() {
    assert_eq!(
        bus_node_properties("A1", ChannelLayout::Stereo),
        pairs(&[
            ("factory.name", "support.null-audio-sink"),
            ("node.name", "blabbergraph.bus.A1"),
            ("node.description", "A1"),
            ("media.class", "Audio/Duplex"),
            ("audio.position", "FL,FR"),
            ("node.virtual", "true"),
            ("monitor.channel-volumes", "true"),
        ])
    );
}

#[test]
fn virtual_input_node_is_a_sink() {
    assert_eq!(
        virtual_input_node_properties("Music", ChannelLayout::Mono),
        pairs(&[
            ("factory.name", "support.null-audio-sink"),
            ("node.name", "blabbergraph.vinput.Music"),
            ("node.description", "Music"),
            ("media.class", "Audio/Sink"),
            ("audio.position", "MONO"),
            ("node.virtual", "true"),
            ("monitor.channel-volumes", "true"),
        ])
    );
}

#[test]
fn virtual_output_node_is_a_virtual_source() {
    let p = virtual_output_node_properties("Stream", ChannelLayout::Stereo);
    assert_eq!(p[1], ("node.name".to_string(), "blabbergraph.voutput.Stream".to_string()));
    assert_eq!(p[3], ("media.class".to_string(), "Audio/Source/Virtual".to_string()));
    assert_eq!(p.len(), 7);
}

#[test]
fn link_properties_in_decimal() {
    assert_eq!(
        link_properties(12, 345),
        pairs(&[("link.output.port", "12"), ("link.input.port", "345"), ("object.linger", "true")])
    );
}

#[test]
fn peak_streams_named_by_node() {
    assert_eq!(peak_stream_name(77), "blabbergraph.peak.77");
    assert_eq!(peak_target(77, true), None);
    assert_eq!(peak_target(77, false), Some(77));
}

#[test]
fn created_nodes_are_announced_as_asked() {
    for (props, name, class) in [
        (bus_node_properties("A1", ChannelLayout::Stereo), "blabbergraph.bus.A1", "Audio/Duplex"),
        (virtual_input_node_properties("Music", ChannelLayout::Mono), "blabbergraph.vinput.Music", "Audio/Sink"),
        (virtual_output_node_properties("Out", ChannelLayout::Stereo), "blabbergraph.voutput.Out", "Audio/Source/Virtual"),
    ] {
        match global_event(GlobalKind::Node, 3, &props) {
            Some(PwEvent::NodeAdded { name: n, media_class, description, .. }) => {
                assert_eq!(n, name);
                assert_eq!(media_class, class);
                assert!(name.ends_with(description.as_str()));
                assert!(starts_with(&n, "blabbergraph."));
            },
            other => panic!("unexpected {:?}", other),
        }
    }
}

#[test]
fn peak_stream_properties_for_sources_and_sinks() {
    let source = pairs(&[
        ("media.type", "Audio"),
        ("media.category", "Capture"),
        ("media.role", "DSP"),
        ("target.object", "usb_mic"),
        ("node.virtual", "true"),
        ("node.name", "blabbergraph.peak.12"),
    ]);
    assert_eq!(peak_stream_properties(12, "usb_mic", false), source);
    let mut sink = pairs(&[
        ("media.type", "Audio"),
        ("media.category", "Capture"),
        ("media.role", "DSP"),
        ("target.object", "speakers"),
        ("node.virtual", "true"),
        ("node.name", "blabbergraph.peak.30"),
    ]);
    sink.extend(pairs(&[("stream.capture.sink", "true"), ("node.passive", "true")]));
    assert_eq!(peak_stream_properties(30, "speakers", true), sink);
}
