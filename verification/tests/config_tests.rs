use blabbergraph::model::bus::{unity_volume, BusConfig};
use blabbergraph::model::config::AppConfig;
use blabbergraph::model::strip::{StripConfig, StripKind};
use blabbergraph::pw::message::{BusId, ChannelLayout, StripId, VirtualOutputId};

const UNITY: u32 = 0x3F80_0000;

#[test]
fn default_config_has_two_stereo_buses() {
    let c = AppConfig::default_config();
    assert_eq!(c.buses.len(), 2);
    assert_eq!(c.buses[0].id, BusId(1));
    assert_eq!(c.buses[0].name, "A1");
    assert_eq!(c.buses[1].id, BusId(2));
    assert_eq!(c.buses[1].name, "B1");
    for b in &c.buses {
        assert_eq!(b.channels, ChannelLayout::Stereo);
        assert_eq!(b.volume, vec![UNITY, UNITY]);
        assert!(!b.muted);
        assert!(b.output_targets.is_empty());
    }
    assert!(c.strips.is_empty());
    assert_eq!((c.next_bus_id, c.next_strip_id, c.next_voutput_id), (3, 1, 1));
}

#[test]
fn empty_config_by_default_trait() {
    let c = AppConfig::default();
    assert!(c.buses.is_empty() && c.strips.is_empty());
    assert_eq!((c.next_bus_id, c.next_strip_id, c.next_voutput_id), (0, 0, 0));
}

#[test]
fn saved_config_wins_over_default() {
    let mut saved = AppConfig::default();
    saved.next_bus_id = 9;
    let c = AppConfig::loaded_or_default(Some(saved));
    assert_eq!(c.next_bus_id, 9);
    assert!(c.buses.is_empty());
    let d = AppConfig::loaded_or_default(None);
    assert_eq!(d.buses.len(), 2);
    assert_eq!(d.next_bus_id, 3);
}

#[test]
fn allocators_hand_out_consecutive_ids() {
    let mut c = AppConfig::default_config();
    assert_eq!(c.allocate_bus_id(), BusId(3));
    assert_eq!(c.allocate_bus_id(), BusId(4));
    assert_eq!(c.next_bus_id, 5);
    assert_eq!(c.allocate_strip_id(), StripId(1));
    assert_eq!(c.allocate_strip_id(), StripId(2));
    assert_eq!(c.allocate_voutput_id(), VirtualOutputId(1));
    assert_eq!(c.next_voutput_id, 2);
}

#[test]
fn positions_by_id() {
    let mut c = AppConfig::default_config();
    c.strips.push(StripConfig::new_virtual(StripId(4), "V".to_string(), ChannelLayout::Stereo));
    c.strips.push(StripConfig::new_virtual_output(StripId(5), VirtualOutputId(2), "O".to_string(), ChannelLayout::Mono));
    assert_eq!(c.bus_position(BusId(2)), Some(1));
    assert_eq!(c.bus_position(BusId(7)), None);
    assert_eq!(c.strip_position(StripId(5)), Some(1));
    assert_eq!(c.strip_position(StripId(6)), None);
    assert_eq!(c.voutput_position(VirtualOutputId(2)), Some(1));
    assert_eq!(c.voutput_position(VirtualOutputId(1)), None);
}

#[test]
fn unity_volume_per_channel() {
    assert_eq!(unity_volume(ChannelLayout::Mono), vec![UNITY]);
    assert_eq!(unity_volume(ChannelLayout::Stereo), vec![UNITY, UNITY]);
    assert_eq!(UNITY, 1.0f32.to_bits());
    assert_eq!(ChannelLayout::Mono.channel_count(), 1);
    assert_eq!(ChannelLayout::Stereo.channel_count(), 2);
}

#[test]
fn strip_constructors_and_names() {
    let h = StripConfig::new_hardware(StripId(1), "alsa_input.usb".to_string(), ChannelLayout::Mono);
    assert_eq!(h.display_name(), "alsa_input.usb");
    assert!(!h.is_virtual());
    assert!(!h.is_virtual_output());
    assert_eq!(h.volume, vec![UNITY]);
    assert!(h.routed_to.is_empty());
    let v = StripConfig::new_virtual(StripId(2), "Music".to_string(), ChannelLayout::Stereo);
    assert_eq!(v.display_name(), "Music");
    assert!(v.is_virtual());
    assert!(!v.is_virtual_output());
    let o = StripConfig::new_virtual_output(StripId(3), VirtualOutputId(7), "Stream".to_string(), ChannelLayout::Stereo);
    assert_eq!(o.display_name(), "Stream");
    assert!(o.is_virtual());
    assert!(o.is_virtual_output());
    assert!(matches!(o.kind, StripKind::VirtualOutput { voutput_id: VirtualOutputId(7), .. }));
}

#[test]
fn routes_are_listed_once() {
    let mut s = StripConfig::new_virtual(StripId(2), "Music".to_string(), ChannelLayout::Stereo);
    s.add_route(BusId(1));
    s.add_route(BusId(2));
    s.add_route(BusId(1));
    assert_eq!(s.routed_to, vec![BusId(1), BusId(2)]);
    assert!(s.routes_to(BusId(2)));
    s.remove_route(BusId(1));
    assert_eq!(s.routed_to, vec![BusId(2)]);
    assert!(!s.routes_to(BusId(1)));
    s.remove_route(BusId(9));
    assert_eq!(s.routed_to, vec![BusId(2)]);
}

#[test]
fn route_added_then_removed_restores_list() {
    let mut s = StripConfig::new_virtual(StripId(2), "Music".to_string(), ChannelLayout::Stereo);
    s.add_route(BusId(4));
    let before = s.routed_to.clone();
    s.add_route(BusId(5));
    s.remove_route(BusId(5));
    assert_eq!(s.routed_to, before);
}

#[test]
fn bus_targets_are_listed_once() {
    let mut b = BusConfig::new(BusId(1), "A1".to_string(), ChannelLayout::Stereo);
    b.add_target("speakers".to_string());
    b.add_target("headphones".to_string());
    b.add_target("speakers".to_string());
    assert_eq!(b.output_targets, vec!["speakers".to_string(), "headphones".to_string()]);
    assert!(b.targets("headphones"));
    b.remove_target("speakers");
    assert_eq!(b.output_targets, vec!["headphones".to_string()]);
    assert!(!b.targets("speakers"));
}

#[test]
fn well_formedness_of_configs() {
    let mut c = AppConfig::default_config();
    assert!(c.is_well_formed());
    assert!(AppConfig::default().is_well_formed());
    let mut s = StripConfig::new_virtual(StripId(2), "Music".to_string(), ChannelLayout::Stereo);
    s.add_route(BusId(1));
    s.add_route(BusId(1));
    assert!(s.routes_listed_once());
    c.strips.push(s);
    assert!(c.is_well_formed());
    c.strips[0].routed_to.push(BusId(1));
    assert!(!c.strips[0].routes_listed_once());
    assert!(!c.is_well_formed());
    c.strips[0].routed_to.pop();
    c.buses[1].output_targets = vec!["x".to_string(), "y".to_string(), "x".to_string()];
    assert!(!c.buses[1].targets_listed_once());
    assert!(!c.is_well_formed());
}
