//! What a channel strip's controls do: which node a strip drives, and the
//! commands and configuration changes behind its volume, mute, route,
//! rename and delete controls.
use vstd::prelude::*;

use crate::listed::{listed_with, listed_without};
use crate::model::bus::{texts, BusConfig};
use crate::model::config::{as_position, bus_with_id, strip_with_id, voutput_strip, AppConfig};
use crate::model::routing::{compute_link_pairs, find_links_between};
use crate::model::state::{lookup, AppState};
use crate::model::strip::{StripConfig, StripKind};
use crate::order::first_index;
use crate::pw::message::{
    commands_view, layout_channels, lemma_commands_view_push, BusId, CommandView, PwCommand, StripId, VirtualOutputId,
};
use crate::text::{parse_u32, parse_u32_text};
use crate::ui::app::link_commands;

verus! {

broadcast use vstd::std_specs::hash::group_hash_axioms;

/// What a channel strip controls.
#[derive(Clone, Debug)]
pub enum StripRole {
    /// A configured input strip, or (with a pre-resolved node) a discovered source.
    Input { strip_id: StripId },
    Bus { bus_id: BusId },
    HardwareOutput { node_name: String },
    VirtualOutput { voutput_id: VirtualOutputId },
}

/// The node an input strip captures from: its registered node; failing
/// that, for a configured hardware strip, the node found by name; failing
/// that, the pre-resolved node.
pub open spec fn input_source(s: AppState, sid: StripId, pre: Option<u32>) -> Option<u32> {
    match lookup(s.strip_node_map@, sid.0) {
        Some(n) => Some(n),
        None => {
            let found = match first_index(s.config.strips@, strip_with_id(sid)) {
                Some(i) => match s.config.strips@[i].kind {
                    StripKind::HardwareInput { node_name } => s.graph@.node_named(node_name@),
                    StripKind::VirtualInput { .. } => lookup(s.strip_node_map@, sid.0),
                    StripKind::VirtualOutput { .. } => None,
                },
                None => None,
            };
            match found {
                Some(n) => Some(n),
                None => pre,
            }
        },
    }
}

/// The node a strip drives.
pub open spec fn role_node(s: AppState, role: StripRole, pre: Option<u32>) -> Option<u32> {
    match role {
        StripRole::Input { strip_id } => input_source(s, strip_id, pre),
        StripRole::Bus { bus_id } => lookup(s.bus_node_map@, bus_id.0),
        StripRole::HardwareOutput { node_name } => s.graph@.node_named(node_name@),
        StripRole::VirtualOutput { voutput_id } => lookup(s.voutput_node_map@, voutput_id.0),
    }
}

/// The number of channels a strip drives: that of its configured strip or
/// bus, else two.
pub open spec fn role_channels(s: AppState, role: StripRole) -> nat {
    match role {
        StripRole::Input { strip_id } => match first_index(s.config.strips@, strip_with_id(strip_id)) {
            Some(i) => layout_channels(s.config.strips@[i].channels),
            None => 2,
        },
        StripRole::Bus { bus_id } => match first_index(s.config.buses@, bus_with_id(bus_id)) {
            Some(i) => layout_channels(s.config.buses@[i].channels),
            None => 2,
        },
        _ => 2,
    }
}

/// The node an input strip captures from, as [`input_source`] defines it.
pub fn input_source_node(state: &AppState, strip_id: StripId, pre_resolved: Option<u32>) -> (r: Option<u32>)
    ensures
        r == input_source(*state, strip_id, pre_resolved),
{
    match state.strip_node_id(strip_id) {
        Some(n) => Some(n),
        None => {
            let found = match state.config.strip_position(strip_id) {
                Some(i) => match &state.config.strips[i].kind {
                    StripKind::HardwareInput { node_name } => state.find_hardware_node_by_name(node_name.as_str()),
                    StripKind::VirtualInput { .. } => state.strip_node_id(strip_id),
                    StripKind::VirtualOutput { .. } => None,
                },
                None => None,
            };
            match found {
                Some(n) => Some(n),
                None => pre_resolved,
            }
        },
    }
}

/// The node a strip drives and how many channels it has.
pub fn resolve_node_and_channels(role: &StripRole, state: &AppState, pre_resolved: Option<u32>) -> (r: (Option<u32>, usize))
    ensures
        r.0 == role_node(*state, *role, pre_resolved),
        r.1 == role_channels(*state, *role),
{
    match role {
        StripRole::Input { strip_id } => {
            let node_id = input_source_node(state, *strip_id, pre_resolved);
            let ch = match state.config.strip_position(*strip_id) {
                Some(i) => state.config.strips[i].channels.channel_count(),
                None => 2,
            };
            (node_id, ch)
        },
        StripRole::Bus { bus_id } => {
            let node_id = state.bus_node_id(*bus_id);
            let ch = match state.config.bus_position(*bus_id) {
                Some(i) => state.config.buses[i].channels.channel_count(),
                None => 2,
            };
            (node_id, ch)
        },
        StripRole::HardwareOutput { node_name } => (state.find_hardware_node_by_name(node_name.as_str()), 2),
        StripRole::VirtualOutput { voutput_id } => (state.voutput_node_id(*voutput_id), 2),
    }
}

/// `n` copies of `gain`.
pub open spec fn same_gains(n: nat, gain: u32) -> Seq<u32> {
    Seq::new(n, |i: int| gain)
}

/// The command that sets every channel of the strip's node to `gain`
/// (an `f32` bit pattern), when the strip has a node.
pub fn volume_command(role: &StripRole, state: &AppState, pre_resolved: Option<u32>, gain: u32) -> (r: Option<PwCommand>)
    ensures
        match role_node(*state, *role, pre_resolved) {
            Some(n) => r is Some && r->0@ == (CommandView::SetVolume {
                node_id: n,
                volumes: same_gains(role_channels(*state, *role), gain),
            }),
            None => r is None,
        },
{
    let (node_id, ch) = resolve_node_and_channels(role, state, pre_resolved);
    match node_id {
        Some(nid) => {
            let mut volumes: Vec<u32> = Vec::new();
            for i in 0..ch
                invariant
                    volumes@ == same_gains(i as nat, gain),
            {
                volumes.push(gain);
                proof {
                    assert(volumes@ =~= same_gains((i + 1) as nat, gain));
                }
            }
            Some(PwCommand::SetVolume { node_id: nid, volumes })
        },
        None => None,
    }
}

/// The command that mutes or unmutes the strip's node, when it has one.
pub fn mute_command(role: &StripRole, state: &AppState, pre_resolved: Option<u32>, muted: bool) -> (r: Option<PwCommand>)
    ensures
        match role_node(*state, *role, pre_resolved) {
            Some(n) => r is Some && r->0@ == (CommandView::SetMute { node_id: n, muted }),
            None => r is None,
        },
{
    let (node_id, _) = resolve_node_and_channels(role, state, pre_resolved);
    match node_id {
        Some(nid) => Some(PwCommand::SetMute { node_id: nid, muted }),
        None => None,
    }
}

/// Whether the strip shows the gains and mute of `node_id`.
pub open spec fn shows_params(s: AppState, role: StripRole, node_id: u32) -> bool {
    match role {
        StripRole::Input { strip_id } => s.node_strip_map@.contains_key(node_id) && s.node_strip_map@[node_id] == strip_id,
        StripRole::Bus { bus_id } => s.node_bus_map@.contains_key(node_id) && s.node_bus_map@[node_id] == bus_id,
        StripRole::HardwareOutput { node_name } => s.graph@.nodes.contains_key(node_id) && s.graph@.nodes[node_id].name@
            == node_name@,
        StripRole::VirtualOutput { voutput_id } => s.node_voutput_map@.contains_key(node_id)
            && s.node_voutput_map@[node_id] == voutput_id,
    }
}

/// Whether the strip shows the peak levels of `node_id`.
pub open spec fn shows_peaks(s: AppState, role: StripRole, pre: Option<u32>, node_id: u32) -> bool {
    match role {
        StripRole::Input { .. } => shows_params(s, role, node_id) || pre == Some(node_id),
        _ => shows_params(s, role, node_id),
    }
}

/// Whether a strip in `role` shows the gains and mute of `node_id`.
pub fn shows_params_of(role: &StripRole, state: &AppState, node_id: u32) -> (r: bool)
    ensures
        r == shows_params(*state, *role, node_id),
{
    match role {
        StripRole::Input { strip_id } => match state.node_strip_map.get(&node_id) {
            Some(s) => s.0 == strip_id.0,
            None => false,
        },
        StripRole::Bus { bus_id } => match state.node_bus_map.get(&node_id) {
            Some(b) => b.0 == bus_id.0,
            None => false,
        },
        StripRole::HardwareOutput { node_name } => match state.graph.nodes.get(&node_id) {
            Some(n) => crate::text::same_text(n.name.as_str(), node_name.as_str()),
            None => false,
        },
        StripRole::VirtualOutput { voutput_id } => match state.node_voutput_map.get(&node_id) {
            Some(v) => v.0 == voutput_id.0,
            None => false,
        },
    }
}

/// Whether a strip in `role` shows the peak levels of `node_id`.
pub fn shows_peaks_of(role: &StripRole, pre_resolved: Option<u32>, state: &AppState, node_id: u32) -> (r: bool)
    ensures
        r == shows_peaks(*state, *role, pre_resolved, node_id),
{
    let direct = shows_params_of(role, state, node_id);
    match role {
        StripRole::Input { .. } => direct || pre_resolved == Some(node_id),
        _ => direct,
    }
}

/// `b` is `a` with only position `i` possibly different.
pub open spec fn only_entry_changed<T>(a: Seq<T>, b: Seq<T>, i: int) -> bool {
    &&& a.len() == b.len()
    &&& forall|j: int| 0 <= j < a.len() && j != i ==> a[j] == b[j]
}

/// Everything but the lists of buses and strips is untouched.
pub open spec fn only_lists_changed(a: AppState, b: AppState) -> bool {
    &&& a.graph == b.graph
    &&& a.bus_node_map == b.bus_node_map
    &&& a.strip_node_map == b.strip_node_map
    &&& a.node_bus_map == b.node_bus_map
    &&& a.node_strip_map == b.node_strip_map
    &&& a.voutput_node_map == b.voutput_node_map
    &&& a.node_voutput_map == b.node_voutput_map
    &&& a.restore_pending == b.restore_pending
    &&& a.cleanup_done == b.cleanup_done
    &&& a.config.next_bus_id == b.config.next_bus_id
    &&& a.config.next_strip_id == b.config.next_strip_id
    &&& a.config.next_voutput_id == b.config.next_voutput_id
}

/// `b` is the kind `a` renamed to `name`; a hardware input keeps its node name.
pub open spec fn renamed_kind(a: StripKind, b: StripKind, name: Seq<char>) -> bool {
    match a {
        StripKind::VirtualInput { .. } => b is VirtualInput && b->VirtualInput_name@ == name,
        StripKind::VirtualOutput { voutput_id, .. } => b is VirtualOutput && b->voutput_id == voutput_id
            && b->VirtualOutput_name@ == name,
        StripKind::HardwareInput { .. } => b == a,
    }
}

/// `b` is the strip `a` with its kind renamed.
pub open spec fn strip_renamed(a: StripConfig, b: StripConfig, name: Seq<char>) -> bool {
    &&& b.id == a.id
    &&& b.channels == a.channels
    &&& b.volume == a.volume
    &&& b.muted == a.muted
    &&& b.routed_to == a.routed_to
    &&& renamed_kind(a.kind, b.kind, name)
}

/// `b` is the bus `a` renamed.
pub open spec fn bus_renamed(a: BusConfig, b: BusConfig, name: Seq<char>) -> bool {
    &&& b.id == a.id
    &&& b.name@ == name
    &&& b.channels == a.channels
    &&& b.output_targets == a.output_targets
    &&& b.volume == a.volume
    &&& b.muted == a.muted
}

/// The strip at `i` (if any) is renamed; the rest of `b` equals `a`.
pub open spec fn strips_renamed_at(a: Seq<StripConfig>, b: Seq<StripConfig>, i: Option<int>, name: Seq<char>) -> bool {
    match i {
        Some(i) => only_entry_changed(a, b, i) && strip_renamed(a[i], b[i], name),
        None => b == a,
    }
}

fn rename_strip_at(config: &mut AppConfig, i: usize, new_name: &str)
    requires
        i < old(config).strips@.len(),
    ensures
        strips_renamed_at(old(config).strips@, final(config).strips@, Some(i as int), new_name@),
        final(config).buses == old(config).buses,
        final(config).next_bus_id == old(config).next_bus_id,
        final(config).next_strip_id == old(config).next_strip_id,
        final(config).next_voutput_id == old(config).next_voutput_id,
{
    let mut strip = config.strips.remove(i);
    let new_kind = match &strip.kind {
        StripKind::VirtualInput { .. } => Some(StripKind::VirtualInput { name: String::from_str(new_name) }),
        StripKind::VirtualOutput { voutput_id, .. } => Some(
            StripKind::VirtualOutput { voutput_id: *voutput_id, name: String::from_str(new_name) },
        ),
        StripKind::HardwareInput { .. } => None,
    };
    match new_kind {
        Some(k) => {
            strip.kind = k;
        },
        None => {},
    }
    config.strips.insert(i, strip);
}

/// Renames what a strip stands for: a virtual input or output strip, or a
/// bus. Hardware strips keep their names.
pub fn apply_rename(role: &StripRole, new_name: &str, state: &mut AppState)
    requires
        old(state).well_formed(),
    ensures
        final(state).well_formed(),
        only_lists_changed(*old(state), *final(state)),
        match *role {
            StripRole::Input { strip_id } => {
                &&& final(state).config.buses == old(state).config.buses
                &&& strips_renamed_at(
                    old(state).config.strips@,
                    final(state).config.strips@,
                    first_index(old(state).config.strips@, strip_with_id(strip_id)),
                    new_name@,
                )
            },
            StripRole::Bus { bus_id } => {
                &&& final(state).config.strips == old(state).config.strips
                &&& match first_index(old(state).config.buses@, bus_with_id(bus_id)) {
                    Some(i) => only_entry_changed(old(state).config.buses@, final(state).config.buses@, i)
                        && bus_renamed(old(state).config.buses@[i], final(state).config.buses@[i], new_name@),
                    None => final(state).config.buses@ == old(state).config.buses@,
                }
            },
            StripRole::VirtualOutput { voutput_id } => {
                &&& final(state).config.buses == old(state).config.buses
                &&& strips_renamed_at(
                    old(state).config.strips@,
                    final(state).config.strips@,
                    first_index(old(state).config.strips@, voutput_strip(voutput_id)),
                    new_name@,
                )
            },
            StripRole::HardwareOutput { .. } => {
                &&& final(state).config.buses == old(state).config.buses
                &&& final(state).config.strips == old(state).config.strips
            },
        },
{
    match role {
        StripRole::Input { strip_id } => {
            match state.config.strip_position(*strip_id) {
                Some(i) => rename_strip_at(&mut state.config, i, new_name),
                None => {},
            }
        },
        StripRole::Bus { bus_id } => {
            match state.config.bus_position(*bus_id) {
                Some(i) => {
                    let mut bus = state.config.buses.remove(i);
                    bus.name = String::from_str(new_name);
                    state.config.buses.insert(i, bus);
                },
                None => {},
            }
        },
        StripRole::VirtualOutput { voutput_id } => {
            match state.config.voutput_position(*voutput_id) {
                Some(i) => rename_strip_at(&mut state.config, i, new_name),
                None => {},
            }
        },
        StripRole::HardwareOutput { .. } => {},
    }
}

/// Commands that destroy the given links.
pub open spec fn unlink_commands(ids: Seq<u32>) -> Seq<CommandView> {
    ids.map_values(|id: u32| CommandView::DestroyLink { link_id: id })
}

/// Commands that route `src` to `dst` (`active`) or remove that routing.
pub open spec fn toggle_commands(s: AppState, src: u32, dst: u32, active: bool) -> Seq<CommandView> {
    if active {
        link_commands(s.graph@.link_pairs_between(src, dst))
    } else {
        unlink_commands(s.graph@.links_between(src, dst))
    }
}

/// `b` is the strip `a` with `bus` added to (`active`) or removed from its routes.
pub open spec fn strip_rerouted(a: StripConfig, b: StripConfig, bus: BusId, active: bool) -> bool {
    &&& b.id == a.id
    &&& b.kind == a.kind
    &&& b.channels == a.channels
    &&& b.volume == a.volume
    &&& b.muted == a.muted
    &&& b.routed_to@ == if active { listed_with(a.routed_to@, bus) } else { listed_without(a.routed_to@, bus) }
    &&& b.well_formed()
}

/// `b` is the bus `a` with the output `name` added to (`active`) or removed from its targets.
pub open spec fn bus_retargeted(a: BusConfig, b: BusConfig, name: Seq<char>, active: bool) -> bool {
    &&& b.id == a.id
    &&& b.name == a.name
    &&& b.channels == a.channels
    &&& b.volume == a.volume
    &&& b.muted == a.muted
    &&& texts(b.output_targets@) == if active {
        listed_with(texts(a.output_targets@), name)
    } else {
        listed_without(texts(a.output_targets@), name)
    }
    &&& b.well_formed()
}

/// The bus an input strip's route button stands for: its key read as a
/// number, or bus 0 when the key is not one.
pub open spec fn route_key_bus(key: Seq<char>) -> BusId {
    match parse_u32(key) {
        Some(v) => BusId(v),
        None => BusId(0),
    }
}

fn push_toggle_commands(state: &AppState, src: u32, dst: u32, active: bool, cmds: &mut Vec<PwCommand>)
    ensures
        commands_view(final(cmds)@) == commands_view(old(cmds)@) + toggle_commands(*state, src, dst, active),
{
    let ghost start = commands_view(cmds@);
    if active {
        let pairs = compute_link_pairs(&state.graph, src, dst);
        for i in 0..pairs.len()
            invariant
                commands_view(cmds@) == start + link_commands(pairs@.take(i as int)),
        {
            let (o, n) = pairs[i];
            proof {
                lemma_commands_view_push(cmds@, PwCommand::CreateLink { output_port_id: o, input_port_id: n });
                assert(link_commands(pairs@.take(i + 1)) =~= link_commands(pairs@.take(i as int)).push(
                    CommandView::CreateLink { output_port_id: o, input_port_id: n },
                ));
            }
            cmds.push(PwCommand::CreateLink { output_port_id: o, input_port_id: n });
        }
        proof {
            assert(pairs@.take(pairs@.len() as int) =~= pairs@);
        }
    } else {
        let ids = find_links_between(&state.graph, src, dst);
        for i in 0..ids.len()
            invariant
                commands_view(cmds@) == start + unlink_commands(ids@.take(i as int)),
        {
            let id = ids[i];
            proof {
                lemma_commands_view_push(cmds@, PwCommand::DestroyLink { link_id: id });
                assert(unlink_commands(ids@.take(i + 1)) =~= unlink_commands(ids@.take(i as int)).push(
                    CommandView::DestroyLink { link_id: id },
                ));
            }
            cmds.push(PwCommand::DestroyLink { link_id: id });
        }
        proof {
            assert(ids@.take(ids@.len() as int) =~= ids@);
        }
    }
}

/// Handles a route button of a strip being switched on (`active`) or
/// off. For an input strip, `key` names a bus by number: the strip's node
/// is linked to (or unlinked from) the bus node when both exist, and the
/// configured strip, if any, gains (or loses) the route. For a bus, `key`
/// names an output node: when both nodes exist they are linked (or
/// unlinked) and the configured bus gains (or loses) the target. Other
/// strips have no route buttons.
pub fn route_toggled(role: &StripRole, key: &str, active: bool, pre_resolved: Option<u32>, state: &mut AppState) -> (cmds: Vec<PwCommand>)
    requires
        old(state).well_formed(),
    ensures
        final(state).well_formed(),
        only_lists_changed(*old(state), *final(state)),
        match *role {
            StripRole::Input { strip_id } => {
                let bus = route_key_bus(key@);
                &&& commands_view(cmds@) == match (input_source(*old(state), strip_id, pre_resolved), lookup(old(state).bus_node_map@, bus.0)) {
                    (Some(src), Some(dst)) => toggle_commands(*old(state), src, dst, active),
                    _ => Seq::empty(),
                }
                &&& final(state).config.buses == old(state).config.buses
                &&& match first_index(old(state).config.strips@, strip_with_id(strip_id)) {
                    Some(i) => only_entry_changed(old(state).config.strips@, final(state).config.strips@, i)
                        && strip_rerouted(old(state).config.strips@[i], final(state).config.strips@[i], bus, active),
                    None => final(state).config.strips@ == old(state).config.strips@,
                }
            },
            StripRole::Bus { bus_id } => {
                &&& final(state).config.strips == old(state).config.strips
                &&& match (lookup(old(state).bus_node_map@, bus_id.0), old(state).graph@.node_named(key@)) {
                    (Some(src), Some(dst)) => {
                        &&& commands_view(cmds@) == toggle_commands(*old(state), src, dst, active)
                        &&& match first_index(old(state).config.buses@, bus_with_id(bus_id)) {
                            Some(i) => only_entry_changed(old(state).config.buses@, final(state).config.buses@, i)
                                && bus_retargeted(old(state).config.buses@[i], final(state).config.buses@[i], key@, active),
                            None => final(state).config.buses@ == old(state).config.buses@,
                        }
                    },
                    _ => cmds@.len() == 0 && final(state).config.buses == old(state).config.buses,
                }
            },
            _ => cmds@.len() == 0 && final(state).config == old(state).config,
        },
{
    let mut cmds: Vec<PwCommand> = Vec::new();
    match role {
        StripRole::Input { strip_id } => {
            let bid = match parse_u32_text(key) {
                Some(v) => BusId(v),
                None => BusId(0),
            };
            let source_node_id = input_source_node(state, *strip_id, pre_resolved);
            let dest_node_id = state.bus_node_id(bid);
            match (source_node_id, dest_node_id) {
                (Some(src), Some(dst)) => {
                    push_toggle_commands(state, src, dst, active, &mut cmds);
                    proof {
                        assert(commands_view(cmds@) =~= toggle_commands(*old(state), src, dst, active));
                    }
                },
                _ => {
                    proof {
                        assert(commands_view(cmds@) =~= Seq::<CommandView>::empty());
                    }
                },
            }
            match state.config.strip_position(*strip_id) {
                Some(i) => {
                    let mut strip = state.config.strips.remove(i);
                    if active {
                        strip.add_route(bid);
                    } else {
                        strip.remove_route(bid);
                    }
                    state.config.strips.insert(i, strip);
                },
                None => {},
            }
        },
        StripRole::Bus { bus_id } => {
            let bus_nid = state.bus_node_id(*bus_id);
            let output_nid = state.find_hardware_node_by_name(key);
            match (bus_nid, output_nid) {
                (Some(src), Some(dst)) => {
                    push_toggle_commands(state, src, dst, active, &mut cmds);
                    proof {
                        assert(commands_view(cmds@) =~= toggle_commands(*old(state), src, dst, active));
                    }
                    match state.config.bus_position(*bus_id) {
                        Some(i) => {
                            let mut bus = state.config.buses.remove(i);
                            if active {
                                bus.add_target(String::from_str(key));
                            } else {
                                bus.remove_target(key);
                            }
                            state.config.buses.insert(i, bus);
                        },
                        None => {},
                    }
                },
                _ => {},
            }
        },
        _ => {},
    }
    cmds
}

/// What deleting a strip does to a list: the entry at `i` (if any) is removed.
pub open spec fn removed_at<T>(a: Seq<T>, b: Seq<T>, i: Option<int>) -> bool {
    match i {
        Some(i) => b == a.remove(i),
        None => b == a,
    }
}

/// `b` is the strip list `a` with `bus` removed from every strip's routes.
pub open spec fn bus_unrouted(a: Seq<StripConfig>, b: Seq<StripConfig>, bus: BusId) -> bool {
    &&& a.len() == b.len()
    &&& forall|j: int| 0 <= j < a.len() ==> strip_rerouted(#[trigger] a[j], b[j], bus, false)
}

/// Deleting a bus leaves no route to it: afterwards no strip routes to the
/// deleted bus, and every strip keeps each of its other routes.
pub proof fn lemma_deleted_bus_unrouted(a: Seq<StripConfig>, b: Seq<StripConfig>, bus: BusId, other: BusId)
    requires
        bus_unrouted(a, b, bus),
    ensures
        forall|j: int| 0 <= j < b.len() ==> !(#[trigger] b[j]).routed_to@.contains(bus),
        other != bus ==> forall|j: int|
            0 <= j < b.len() ==> (#[trigger] b[j]).routed_to@.contains(other) == a[j].routed_to@.contains(other),
{
    assert forall|j: int| 0 <= j < b.len() implies !(#[trigger] b[j]).routed_to@.contains(bus) && (other != bus
        ==> b[j].routed_to@.contains(other) == a[j].routed_to@.contains(other)) by {
        assert(strip_rerouted(a[j], b[j], bus, false));
        crate::listed::lemma_listed_membership(a[j].routed_to@, bus, other);
    }
}

/// Handles a strip's delete button: a configured input strip is removed
/// (and, for a virtual input, its node destroyed); a bus is removed, taken
/// out of every strip's routes and its node destroyed; a virtual output
/// strip is removed and its node destroyed. Hardware outputs cannot be
/// deleted, nor can anything absent from the configuration.
#[verifier::loop_isolation(false)]
pub fn delete_strip(role: &StripRole, state: &mut AppState) -> (cmds: Vec<PwCommand>)
    requires
        old(state).well_formed(),
    ensures
        final(state).well_formed(),
        only_lists_changed(*old(state), *final(state)),
        match *role {
            StripRole::Input { strip_id } => {
                let i = first_index(old(state).config.strips@, strip_with_id(strip_id));
                &&& final(state).config.buses == old(state).config.buses
                &&& removed_at(old(state).config.strips@, final(state).config.strips@, i)
                &&& commands_view(cmds@) == match i {
                    Some(i) => if old(state).config.strips@[i].kind is VirtualInput {
                        seq![CommandView::DestroyVirtualInput { strip_id }]
                    } else {
                        Seq::empty()
                    },
                    None => Seq::empty(),
                }
            },
            StripRole::Bus { bus_id } => {
                let i = first_index(old(state).config.buses@, bus_with_id(bus_id));
                &&& removed_at(old(state).config.buses@, final(state).config.buses@, i)
                &&& match i {
                    Some(_) => {
                        &&& bus_unrouted(old(state).config.strips@, final(state).config.strips@, bus_id)
                        &&& commands_view(cmds@) == seq![CommandView::DestroyBus { bus_id }]
                    },
                    None => final(state).config.strips == old(state).config.strips && cmds@.len() == 0,
                }
            },
            StripRole::VirtualOutput { voutput_id } => {
                let i = first_index(old(state).config.strips@, voutput_strip(voutput_id));
                &&& final(state).config.buses == old(state).config.buses
                &&& removed_at(old(state).config.strips@, final(state).config.strips@, i)
                &&& commands_view(cmds@) == match i {
                    Some(_) => seq![CommandView::DestroyVirtualOutput { voutput_id }],
                    None => Seq::empty(),
                }
            },
            StripRole::HardwareOutput { .. } => cmds@.len() == 0 && final(state).config == old(state).config,
        },
{
    let mut cmds: Vec<PwCommand> = Vec::new();
    match role {
        StripRole::Input { strip_id } => {
            match state.config.strip_position(*strip_id) {
                Some(pos) => {
                    let strip = state.config.strips.remove(pos);
                    proof {
                        assert forall|k: int| 0 <= k < state.config.strips@.len() implies (
                        #[trigger] state.config.strips@[k]).well_formed() by {
                            if k < pos {
                                assert(state.config.strips@[k] == old(state).config.strips@[k]);
                            } else {
                                assert(state.config.strips@[k] == old(state).config.strips@[k + 1]);
                            }
                        }
                    }
                    let is_virtual_input = match &strip.kind {
                        StripKind::VirtualInput { .. } => true,
                        _ => false,
                    };
                    if is_virtual_input {
                        cmds.push(PwCommand::DestroyVirtualInput { strip_id: *strip_id });
                    }
                    proof {
                        assert(commands_view(cmds@) =~= (if old(state).config.strips@[pos as int].kind is VirtualInput {
                            seq![CommandView::DestroyVirtualInput { strip_id: *strip_id }]
                        } else {
                            Seq::empty()
                        }));
                    }
                },
                None => {
                    proof {
                        assert(commands_view(cmds@) =~= Seq::<CommandView>::empty());
                    }
                },
            }
        },
        StripRole::Bus { bus_id } => {
            match state.config.bus_position(*bus_id) {
                Some(pos) => {
                    state.config.buses.remove(pos);
                    proof {
                        assert forall|k: int| 0 <= k < state.config.buses@.len() implies (
                        #[trigger] state.config.buses@[k]).well_formed() by {
                            if k < pos {
                                assert(state.config.buses@[k] == old(state).config.buses@[k]);
                            } else {
                                assert(state.config.buses@[k] == old(state).config.buses@[k + 1]);
                            }
                        }
                    }
                    let n = state.config.strips.len();
                    let ghost before = state.config.strips@;
                    let ghost buses_now = state.config.buses;
                    for j in 0..n
                        invariant
                            only_lists_changed(*old(state), *state),
                            state.config.buses == buses_now,
                            n == before.len(),
                            state.config.strips@.len() == n,
                            forall|k: int| 0 <= k < j ==> strip_rerouted(#[trigger] before[k], state.config.strips@[k], *bus_id, false),
                            forall|k: int| j <= k < n ==> #[trigger] state.config.strips@[k] == before[k],
                            forall|k: int| 0 <= k < n ==> (#[trigger] before[k]).well_formed(),
                    {
                        let mut strip = state.config.strips.remove(j);
                        strip.remove_route(*bus_id);
                        state.config.strips.insert(j, strip);
                    }
                    proof {
                        assert forall|k: int| 0 <= k < state.config.strips@.len() implies (
                        #[trigger] state.config.strips@[k]).well_formed() by {
                            assert(strip_rerouted(before[k], state.config.strips@[k], *bus_id, false));
                        }
                    }
                    cmds.push(PwCommand::DestroyBus { bus_id: *bus_id });
                    proof {
                        assert(commands_view(cmds@) =~= seq![CommandView::DestroyBus { bus_id: *bus_id }]);
                    }
                },
                None => {
                    proof {
                        assert(commands_view(cmds@) =~= Seq::<CommandView>::empty());
                    }
                },
            }
        },
        StripRole::VirtualOutput { voutput_id } => {
            match state.config.voutput_position(*voutput_id) {
                Some(pos) => {
                    state.config.strips.remove(pos);
                    proof {
                        assert forall|k: int| 0 <= k < state.config.strips@.len() implies (
                        #[trigger] state.config.strips@[k]).well_formed() by {
                            if k < pos {
                                assert(state.config.strips@[k] == old(state).config.strips@[k]);
                            } else {
                                assert(state.config.strips@[k] == old(state).config.strips@[k + 1]);
                            }
                        }
                    }
                    cmds.push(PwCommand::DestroyVirtualOutput { voutput_id: *voutput_id });
                    proof {
                        assert(commands_view(cmds@) =~= seq![CommandView::DestroyVirtualOutput { voutput_id: *voutput_id }]);
                    }
                },
                None => {
                    proof {
                        assert(commands_view(cmds@) =~= Seq::<CommandView>::empty());
                    }
                },
            }
        },
        StripRole::HardwareOutput { .. } => {},
    }
    cmds
}

} // verus!
