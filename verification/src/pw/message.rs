//! Identifiers, enumerations and the messages exchanged between the user
//! interface and the PipeWire thread.
//!
//! Linear gains travel as the IEEE-754 bit patterns of `f32` values
//! (`f32::to_bits`): the library stores and forwards them, and only the
//! application reads them as numbers.
use vstd::prelude::*;

verus! {

/// Logical identifier of a mixing bus.
#[derive(Clone, Copy, Debug, PartialEq, Eq, Structural, Hash)]
pub struct BusId(pub u32);

/// Logical identifier of an input strip.
#[derive(Clone, Copy, Debug, PartialEq, Eq, Structural, Hash)]
pub struct StripId(pub u32);

/// Logical identifier of a virtual output.
#[derive(Clone, Copy, Debug, PartialEq, Eq, Structural, Hash)]
pub struct VirtualOutputId(pub u32);

/// Channel layout of a bus or strip.
#[derive(Clone, Copy, Debug, PartialEq, Eq, Structural)]
pub enum ChannelLayout {
    Mono,
    Stereo,
}

/// Number of channels of a layout.
pub open spec fn layout_channels(c: ChannelLayout) -> nat {
    match c {
        ChannelLayout::Mono => 1,
        ChannelLayout::Stereo => 2,
    }
}

impl ChannelLayout {
    /// Number of channels: one for mono, two for stereo.
    pub fn channel_count(&self) -> (n: usize)
        ensures
            n == layout_channels(*self),
    {
        match self {
            ChannelLayout::Mono => 1,
            ChannelLayout::Stereo => 2,
        }
    }
}

/// Direction of a port.
#[derive(Clone, Copy, Debug, PartialEq, Eq, Structural)]
pub enum PortDirection {
    Input,
    Output,
}

/// State of a link as PipeWire reports it.
#[derive(Clone, Copy, Debug, PartialEq, Eq, Structural)]
pub enum LinkState {
    Negotiating,
    Allocating,
    Paused,
    Active,
    Error,
    Unlinked,
}

/// A request sent to the PipeWire thread.
#[derive(Debug)]
pub enum PwCommand {
    CreateBus { bus_id: BusId, name: String, channels: ChannelLayout },
    DestroyBus { bus_id: BusId },
    CreateVirtualInput { strip_id: StripId, name: String, channels: ChannelLayout },
    DestroyVirtualInput { strip_id: StripId },
    CreateVirtualOutput { voutput_id: VirtualOutputId, name: String, channels: ChannelLayout },
    DestroyVirtualOutput { voutput_id: VirtualOutputId },
    CreateLink { output_port_id: u32, input_port_id: u32 },
    DestroyLink { link_id: u32 },
    DestroyGlobal { id: u32 },
    /// Per-channel gains, as `f32` bit patterns.
    SetVolume { node_id: u32, volumes: Vec<u32> },
    SetMute { node_id: u32, muted: bool },
    /// `(node_id, node_name, capture_sink)` for every node to meter.
    SetMonitoredNodes { nodes: Vec<(u32, String, bool)> },
    Terminate,
}

/// A notification sent by the PipeWire thread.
#[derive(Debug)]
pub enum PwEvent {
    NodeAdded {
        id: u32,
        name: String,
        media_class: String,
        description: String,
        properties: Vec<(String, String)>,
    },
    NodeRemoved { id: u32 },
    PortAdded { id: u32, node_id: u32, name: String, direction: PortDirection },
    PortRemoved { id: u32 },
    LinkAdded { id: u32, output_port_id: u32, input_port_id: u32, state: LinkState },
    LinkStateChanged { id: u32, state: LinkState },
    LinkRemoved { id: u32 },
    /// Gains are `f32` bit patterns.
    ParamsChanged {
        node_id: u32,
        volumes: Option<Vec<u32>>,
        muted: Option<bool>,
        soft_volumes: Option<Vec<u32>>,
        monitor_volumes: Option<Vec<u32>>,
    },
    BusCreated { bus_id: BusId, node_id: u32 },
    VirtualInputCreated { strip_id: StripId, node_id: u32 },
    VirtualOutputCreated { voutput_id: VirtualOutputId, node_id: u32 },
    /// Peak levels are `f32` bit patterns.
    PeakLevel { node_id: u32, peaks: Vec<u32> },
}

/// The mathematical content of a [`PwCommand`].
pub enum CommandView {
    CreateBus { bus_id: BusId, name: Seq<char>, channels: ChannelLayout },
    DestroyBus { bus_id: BusId },
    CreateVirtualInput { strip_id: StripId, name: Seq<char>, channels: ChannelLayout },
    DestroyVirtualInput { strip_id: StripId },
    CreateVirtualOutput { voutput_id: VirtualOutputId, name: Seq<char>, channels: ChannelLayout },
    DestroyVirtualOutput { voutput_id: VirtualOutputId },
    CreateLink { output_port_id: u32, input_port_id: u32 },
    DestroyLink { link_id: u32 },
    DestroyGlobal { id: u32 },
    SetVolume { node_id: u32, volumes: Seq<u32> },
    SetMute { node_id: u32, muted: bool },
    SetMonitoredNodes { nodes: Seq<(u32, Seq<char>, bool)> },
    Terminate,
}

/// The character views of a list of monitored nodes.
pub open spec fn monitored_view(nodes: Seq<(u32, String, bool)>) -> Seq<(u32, Seq<char>, bool)> {
    nodes.map_values(|t: (u32, String, bool)| (t.0, t.1@, t.2))
}

impl View for PwCommand {
    type V = CommandView;

    open spec fn view(&self) -> CommandView {
        match self {
            PwCommand::CreateBus { bus_id, name, channels } => CommandView::CreateBus {
                bus_id: *bus_id,
                name: name@,
                channels: *channels,
            },
            PwCommand::DestroyBus { bus_id } => CommandView::DestroyBus { bus_id: *bus_id },
            PwCommand::CreateVirtualInput { strip_id, name, channels } => CommandView::CreateVirtualInput {
                strip_id: *strip_id,
                name: name@,
                channels: *channels,
            },
            PwCommand::DestroyVirtualInput { strip_id } => CommandView::DestroyVirtualInput { strip_id: *strip_id },
            PwCommand::CreateVirtualOutput { voutput_id, name, channels } => CommandView::CreateVirtualOutput {
                voutput_id: *voutput_id,
                name: name@,
                channels: *channels,
            },
            PwCommand::DestroyVirtualOutput { voutput_id } => CommandView::DestroyVirtualOutput {
                voutput_id: *voutput_id,
            },
            PwCommand::CreateLink { output_port_id, input_port_id } => CommandView::CreateLink {
                output_port_id: *output_port_id,
                input_port_id: *input_port_id,
            },
            PwCommand::DestroyLink { link_id } => CommandView::DestroyLink { link_id: *link_id },
            PwCommand::DestroyGlobal { id } => CommandView::DestroyGlobal { id: *id },
            PwCommand::SetVolume { node_id, volumes } => CommandView::SetVolume { node_id: *node_id, volumes: volumes@ },
            PwCommand::SetMute { node_id, muted } => CommandView::SetMute { node_id: *node_id, muted: *muted },
            PwCommand::SetMonitoredNodes { nodes } => CommandView::SetMonitoredNodes { nodes: monitored_view(nodes@) },
            PwCommand::Terminate => CommandView::Terminate,
        }
    }
}

/// The views of a list of commands.
pub open spec fn commands_view(v: Seq<PwCommand>) -> Seq<CommandView> {
    v.map_values(|c: PwCommand| c@)
}

/// Appending a command appends its view.
pub proof fn lemma_commands_view_push(v: Seq<PwCommand>, c: PwCommand)
    ensures
        commands_view(v.push(c)) == commands_view(v).push(c@),
{
    assert(commands_view(v.push(c)) =~= commands_view(v).push(c@));
}

/// Copies a list of gains.
pub fn copy_gains(v: &Vec<u32>) -> (r: Vec<u32>)
    ensures
        r@ == v@,
{
    let mut r: Vec<u32> = Vec::new();
    for i in 0..v.len()
        invariant
            r@ == v@.take(i as int),
    {
        r.push(v[i]);
        proof {
            assert(r@ =~= v@.take(i + 1));
        }
    }
    proof {
        assert(v@.take(v@.len() as int) =~= v@);
    }
    r
}

} // verus!
