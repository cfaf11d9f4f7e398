use blabbergraph::model::config::AppConfig;
use blabbergraph::model::strip::StripConfig;
use blabbergraph::pw::message::{BusId, ChannelLayout, PwCommand, StripId, VirtualOutputId};
use blabbergraph::startup::{starts_hidden, startup_commands};

fn args(a: &[&str]) -> Vec<String> {
    a.iter().map(|s| s.to_string()).collect()
}

#[test]
fn hidden_start_flags() {
    assert!(starts_hidden(&args(&["blabbergraph", "--tray"])));
    assert!(starts_hidden(&args(&["blabbergraph", "--minimized"])));
    assert!(!starts_hidden(&args(&["blabbergraph"])));
    assert!(!starts_hidden(&args(&["blabbergraph", "--trayy", "-tray"])));
}

#[test]
fn startup_creates_buses_then_virtual_strips() {
    let mut c = AppConfig::default_config();
    c.strips.push(StripConfig::new_hardware(StripId(1), "mic".to_string(), ChannelLayout::Mono));
    c.strips.push(StripConfig::new_virtual(StripId(2), "Music".to_string(), ChannelLayout::Stereo));
    c.strips.push(StripConfig::new_virtual_output(StripId(3), VirtualOutputId(1), "Out".to_string(), ChannelLayout::Mono));
    let cmds = startup_commands(&c);
    assert_eq!(cmds.len(), 4);
    assert!(matches!(&cmds[0], PwCommand::CreateBus { bus_id: BusId(1), name, channels: ChannelLayout::Stereo } if name == "A1"));
    assert!(matches!(&cmds[1], PwCommand::CreateBus { bus_id: BusId(2), name, .. } if name == "B1"));
    assert!(matches!(&cmds[2], PwCommand::CreateVirtualInput { strip_id: StripId(2), name, channels: ChannelLayout::Stereo } if name == "Music"));
    assert!(matches!(&cmds[3], PwCommand::CreateVirtualOutput { voutput_id: VirtualOutputId(1), name, channels: ChannelLayout::Mono } if name == "Out"));
}

#[test]
fn empty_config_starts_nothing() {
    assert!(startup_commands(&AppConfig::default()).is_empty());
}
