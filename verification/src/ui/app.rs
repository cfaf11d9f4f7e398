//! The state machine that consumes PipeWire events, and the restoration
//! of the saved routing once every node the mixer created is known.
use std::collections::HashMap;
use vstd::prelude::*;

use crate::model::bus::BusConfig;
use crate::model::routing::{compute_link_pairs, link_pairs};
use crate::model::state::{lookup, AppState};
use crate::model::strip::{kind_is_virtual, StripConfig, StripKind};
use crate::order::{ascending, ascending_keys, keys_where, lemma_keys_where_step};
use crate::model::bus::{unity_gains, unity_volume};
use crate::pw::graph::{without, GraphView, LinkInfo, NodeInfo, PortInfo};
use crate::pw::message::{
    commands_view, copy_gains, lemma_commands_view_push, layout_channels, BusId, ChannelLayout, CommandView, PwCommand, PwEvent,
};
use crate::model::config::AppConfig;
use crate::text::{has_prefix, starts_with};

verus! {

broadcast use vstd::std_specs::hash::group_hash_axioms;

/// Every configured bus has a node.
pub open spec fn buses_ready(buses: Seq<BusConfig>, bus_map: Map<u32, u32>) -> bool {
    forall|i: int| 0 <= i < buses.len() ==> bus_map.contains_key(#[trigger] buses[i].id.0)
}

/// Every configured virtual strip has a node.
pub open spec fn strips_ready(strips: Seq<StripConfig>, strip_map: Map<u32, u32>) -> bool {
    forall|i: int| 0 <= i < strips.len() ==> kind_is_virtual(#[trigger] strips[i].kind) ==> strip_map.contains_key(strips[i].id.0)
}

/// A node left over from an earlier run: it has the mixer's name prefix
/// but carries none of the current buses or strips.
pub open spec fn is_stale(g: GraphView, k: u32, bus_map: Map<u32, u32>, strip_map: Map<u32, u32>) -> bool {
    &&& has_prefix(g.nodes[k].name@, "blabbergraph."@)
    &&& !bus_map.values().contains(g.nodes[k].id)
    &&& !strip_map.values().contains(g.nodes[k].id)
}

/// Ids of the stale nodes, ascending by key.
pub open spec fn stale_node_ids(g: GraphView, bus_map: Map<u32, u32>, strip_map: Map<u32, u32>) -> Seq<u32> {
    keys_where(ascending(g.nodes.dom()), |k: u32| is_stale(g, k, bus_map, strip_map)).map_values(
        |k: u32| g.nodes[k].id,
    )
}

/// Commands that destroy the given nodes.
pub open spec fn destroy_commands(ids: Seq<u32>) -> Seq<CommandView> {
    ids.map_values(|id: u32| CommandView::DestroyGlobal { id })
}

/// Commands that set a node's gains and mute.
pub open spec fn level_commands(node_id: u32, volumes: Seq<u32>, muted: bool) -> Seq<CommandView> {
    seq![CommandView::SetVolume { node_id, volumes }, CommandView::SetMute { node_id, muted }]
}

/// Commands that create the given links.
pub open spec fn link_commands(pairs: Seq<(u32, u32)>) -> Seq<CommandView> {
    pairs.map_values(|p: (u32, u32)| CommandView::CreateLink { output_port_id: p.0, input_port_id: p.1 })
}

/// Level commands for every bus that has a node, in configuration order.
pub open spec fn bus_level_commands(buses: Seq<BusConfig>, bus_map: Map<u32, u32>) -> Seq<CommandView>
    decreases buses.len(),
{
    if buses.len() == 0 {
        Seq::empty()
    } else {
        let b = buses.last();
        bus_level_commands(buses.drop_last(), bus_map) + match lookup(bus_map, b.id.0) {
            Some(n) => level_commands(n, b.volume@, b.muted),
            None => Seq::empty(),
        }
    }
}

/// The node of a strip: the registered node of a virtual strip, or the
/// node found by name for a hardware one.
pub open spec fn strip_node(g: GraphView, strip_map: Map<u32, u32>, s: StripConfig) -> Option<u32> {
    if kind_is_virtual(s.kind) {
        lookup(strip_map, s.id.0)
    } else {
        match s.kind {
            StripKind::HardwareInput { node_name } => g.node_named(node_name@),
            _ => None,
        }
    }
}

/// Links from `src` to each listed bus that has a node, in list order.
pub open spec fn route_link_commands(g: GraphView, bus_map: Map<u32, u32>, src: u32, routes: Seq<BusId>) -> Seq<CommandView>
    decreases routes.len(),
{
    if routes.len() == 0 {
        Seq::empty()
    } else {
        route_link_commands(g, bus_map, src, routes.drop_last()) + match lookup(bus_map, routes.last().0) {
            Some(b) => link_commands(g.link_pairs_between(src, b)),
            None => Seq::empty(),
        }
    }
}

/// For each strip with a node: its levels, then the links to its buses.
pub open spec fn strip_commands(g: GraphView, bus_map: Map<u32, u32>, strip_map: Map<u32, u32>, strips: Seq<StripConfig>) -> Seq<CommandView>
    decreases strips.len(),
{
    if strips.len() == 0 {
        Seq::empty()
    } else {
        let s = strips.last();
        strip_commands(g, bus_map, strip_map, strips.drop_last()) + match strip_node(g, strip_map, s) {
            Some(n) => level_commands(n, s.volume@, s.muted) + route_link_commands(g, bus_map, n, s.routed_to@),
            None => Seq::empty(),
        }
    }
}

/// Links from a bus node to each listed output found by name.
pub open spec fn target_link_commands(g: GraphView, bus_node: Option<u32>, targets: Seq<String>) -> Seq<CommandView>
    decreases targets.len(),
{
    if targets.len() == 0 {
        Seq::empty()
    } else {
        target_link_commands(g, bus_node, targets.drop_last()) + match (bus_node, g.node_named(targets.last()@)) {
            (Some(b), Some(t)) => link_commands(g.link_pairs_between(b, t)),
            _ => Seq::empty(),
        }
    }
}

/// For each bus, the links to its outputs.
pub open spec fn output_commands(g: GraphView, bus_map: Map<u32, u32>, buses: Seq<BusConfig>) -> Seq<CommandView>
    decreases buses.len(),
{
    if buses.len() == 0 {
        Seq::empty()
    } else {
        output_commands(g, bus_map, buses.drop_last()) + target_link_commands(
            g,
            lookup(bus_map, buses.last().id.0),
            buses.last().output_targets@,
        )
    }
}

/// What restoring the saved routing asks of PipeWire: destroy stale nodes
/// (unless done before), then bus levels, then strip levels and routes,
/// then bus outputs.
pub open spec fn restore_commands(
    g: GraphView,
    config: AppConfig,
    bus_map: Map<u32, u32>,
    strip_map: Map<u32, u32>,
    cleanup_done: bool,
) -> Seq<CommandView> {
    (if cleanup_done { Seq::empty() } else { destroy_commands(stale_node_ids(g, bus_map, strip_map)) })
        + bus_level_commands(config.buses@, bus_map)
        + strip_commands(g, bus_map, strip_map, config.strips@)
        + output_commands(g, bus_map, config.buses@)
}

/// Every configured bus and virtual strip has a node.
pub open spec fn restore_ready(config: AppConfig, bus_map: Map<u32, u32>, strip_map: Map<u32, u32>) -> bool {
    &&& buses_ready(config.buses@, bus_map)
    &&& strips_ready(config.strips@, strip_map)
}

/// Restoration happens now: it is pending and every bus and virtual strip has a node.
pub open spec fn restore_due(s: AppState) -> bool {
    s.restore_pending && restore_ready(s.config, s.bus_node_map@, s.strip_node_map@)
}

fn push_command(cmds: &mut Vec<PwCommand>, c: PwCommand)
    ensures
        commands_view(final(cmds)@) == commands_view(old(cmds)@).push(c@),
{
    proof {
        lemma_commands_view_push(cmds@, c);
    }
    cmds.push(c);
}

fn push_links(cmds: &mut Vec<PwCommand>, pairs: &Vec<(u32, u32)>)
    ensures
        commands_view(final(cmds)@) == commands_view(old(cmds)@) + link_commands(pairs@),
{
    let ghost start = commands_view(cmds@);
    for i in 0..pairs.len()
        invariant
            commands_view(cmds@) == start + link_commands(pairs@.take(i as int)),
    {
        let (o, n) = pairs[i];
        push_command(cmds, PwCommand::CreateLink { output_port_id: o, input_port_id: n });
        proof {
            assert(link_commands(pairs@.take(i + 1)) =~= link_commands(pairs@.take(i as int)).push(
                CommandView::CreateLink { output_port_id: o, input_port_id: n },
            ));
            assert(start + link_commands(pairs@.take(i + 1)) =~= (start + link_commands(pairs@.take(i as int))).push(
                CommandView::CreateLink { output_port_id: o, input_port_id: n },
            ));
        }
    }
    proof {
        assert(pairs@.take(pairs@.len() as int) =~= pairs@);
    }
}

fn push_levels(cmds: &mut Vec<PwCommand>, node_id: u32, volumes: &Vec<u32>, muted: bool)
    ensures
        commands_view(final(cmds)@) == commands_view(old(cmds)@) + level_commands(node_id, volumes@, muted),
{
    push_command(cmds, PwCommand::SetVolume { node_id, volumes: copy_gains(volumes) });
    push_command(cmds, PwCommand::SetMute { node_id, muted });
    proof {
        assert(commands_view(cmds@) =~= commands_view(old(cmds)@) + level_commands(node_id, volumes@, muted));
    }
}

/// Whether `v` is one of the values of `m`.
fn has_value(m: &HashMap<u32, u32>, v: u32) -> (r: bool)
    ensures
        r == m@.values().contains(v),
{
    let keys = ascending_keys(m);
    for i in 0..keys.len()
        invariant
            keys@ == ascending(m@.dom()),
            forall|j: int| 0 <= j < keys@.len() ==> m@.dom().contains(#[trigger] keys@[j]),
            forall|j: int| 0 <= j < i ==> m@[#[trigger] keys@[j]] != v,
    {
        if *m.get(&keys[i]).unwrap() == v {
            return true;
        }
    }
    proof {
        crate::order::lemma_keys_below_members(m@.dom(), 0x1_0000_0000);
        if m@.values().contains(v) {
            let k = choose|k: u32| m@.dom().contains(k) && m@[k] == v;
            let j = choose|j: int| 0 <= j < keys@.len() && keys@[j] == k;
            assert(m@[keys@[j]] != v);
        }
    }
    false
}

#[verifier::loop_isolation(false)]
fn push_stale_destroys(state: &AppState, cmds: &mut Vec<PwCommand>)
    ensures
        commands_view(final(cmds)@) == commands_view(old(cmds)@) + destroy_commands(
            stale_node_ids(state.graph@, state.bus_node_map@, state.strip_node_map@),
        ),
{
    let ghost g = state.graph@;
    let ghost p = |k: u32| is_stale(g, k, state.bus_node_map@, state.strip_node_map@);
    let ghost start = commands_view(cmds@);
    let keys = ascending_keys(&state.graph.nodes);
    for i in 0..keys.len()
        invariant
            commands_view(cmds@) == start + destroy_commands(
                keys_where(keys@.take(i as int), p).map_values(|k: u32| g.nodes[k].id),
            ),
    {
        proof {
            lemma_keys_where_step(keys@, p, i as int);
        }
        let k = keys[i];
        let n = state.graph.nodes.get(&k).unwrap();
        if starts_with(n.name.as_str(), "blabbergraph.") && !has_value(&state.bus_node_map, n.id) && !has_value(
            &state.strip_node_map,
            n.id,
        ) {
            push_command(cmds, PwCommand::DestroyGlobal { id: n.id });
            proof {
                let prev = keys_where(keys@.take(i as int), p);
                assert(prev.push(k).map_values(|k: u32| g.nodes[k].id) =~= prev.map_values(|k: u32| g.nodes[k].id).push(
                    n.id,
                ));
                assert(destroy_commands(prev.push(k).map_values(|k: u32| g.nodes[k].id)) =~= destroy_commands(
                    prev.map_values(|k: u32| g.nodes[k].id),
                ).push(CommandView::DestroyGlobal { id: n.id }));
            }
        }
    }
    proof {
        assert(keys@.take(keys@.len() as int) =~= keys@);
    }
}

fn push_bus_levels(state: &AppState, cmds: &mut Vec<PwCommand>)
    ensures
        commands_view(final(cmds)@) == commands_view(old(cmds)@) + bus_level_commands(
            state.config.buses@,
            state.bus_node_map@,
        ),
{
    let ghost start = commands_view(cmds@);
    let buses = &state.config.buses;
    for i in 0..buses.len()
        invariant
            buses@ == state.config.buses@,
            commands_view(cmds@) == start + bus_level_commands(buses@.take(i as int), state.bus_node_map@),
    {
        let bus = &buses[i];
        proof {
            assert(buses@.take(i + 1).drop_last() =~= buses@.take(i as int));
            assert(buses@.take(i + 1).last() == *bus);
        }
        if let Some(nid) = state.bus_node_id(bus.id) {
            push_levels(cmds, nid, &bus.volume, bus.muted);
            proof {
                assert(start + bus_level_commands(buses@.take(i + 1), state.bus_node_map@) =~= start
                    + bus_level_commands(buses@.take(i as int), state.bus_node_map@) + level_commands(
                    nid,
                    bus.volume@,
                    bus.muted,
                ));
            }
        } else {
            proof {
                assert(bus_level_commands(buses@.take(i + 1), state.bus_node_map@) =~= bus_level_commands(
                    buses@.take(i as int),
                    state.bus_node_map@,
                ));
            }
        }
    }
    proof {
        assert(buses@.take(buses@.len() as int) =~= buses@);
    }
}

/// The node of a strip, as [`strip_node`] defines it.
pub fn resolve_strip_node(state: &AppState, strip: &StripConfig) -> (r: Option<u32>)
    ensures
        r == strip_node(state.graph@, state.strip_node_map@, *strip),
{
    if strip.is_virtual() {
        state.strip_node_id(strip.id)
    } else {
        match &strip.kind {
            StripKind::HardwareInput { node_name } => state.find_hardware_node_by_name(node_name.as_str()),
            _ => None,
        }
    }
}

fn push_route_links(state: &AppState, src: u32, routes: &Vec<BusId>, cmds: &mut Vec<PwCommand>)
    ensures
        commands_view(final(cmds)@) == commands_view(old(cmds)@) + route_link_commands(
            state.graph@,
            state.bus_node_map@,
            src,
            routes@,
        ),
{
    let ghost start = commands_view(cmds@);
    for i in 0..routes.len()
        invariant
            commands_view(cmds@) == start + route_link_commands(
                state.graph@,
                state.bus_node_map@,
                src,
                routes@.take(i as int),
            ),
    {
        let b = routes[i];
        proof {
            assert(routes@.take(i + 1).drop_last() =~= routes@.take(i as int));
            assert(routes@.take(i + 1).last() == b);
        }
        if let Some(bus_nid) = state.bus_node_id(b) {
            let pairs = compute_link_pairs(&state.graph, src, bus_nid);
            push_links(cmds, &pairs);
            proof {
                assert(start + route_link_commands(state.graph@, state.bus_node_map@, src, routes@.take(i + 1))
                    =~= start + route_link_commands(state.graph@, state.bus_node_map@, src, routes@.take(i as int))
                    + link_commands(pairs@));
            }
        } else {
            proof {
                assert(route_link_commands(state.graph@, state.bus_node_map@, src, routes@.take(i + 1))
                    =~= route_link_commands(state.graph@, state.bus_node_map@, src, routes@.take(i as int)));
            }
        }
    }
    proof {
        assert(routes@.take(routes@.len() as int) =~= routes@);
    }
}

fn push_strip_commands(state: &AppState, cmds: &mut Vec<PwCommand>)
    ensures
        commands_view(final(cmds)@) == commands_view(old(cmds)@) + strip_commands(
            state.graph@,
            state.bus_node_map@,
            state.strip_node_map@,
            state.config.strips@,
        ),
{
    let ghost start = commands_view(cmds@);
    let strips = &state.config.strips;
    for i in 0..strips.len()
        invariant
            strips@ == state.config.strips@,
            commands_view(cmds@) == start + strip_commands(
                state.graph@,
                state.bus_node_map@,
                state.strip_node_map@,
                strips@.take(i as int),
            ),
    {
        let strip = &strips[i];
        proof {
            assert(strips@.take(i + 1).drop_last() =~= strips@.take(i as int));
            assert(strips@.take(i + 1).last() == *strip);
        }
        if let Some(nid) = resolve_strip_node(state, strip) {
            let ghost mid = commands_view(cmds@);
            push_levels(cmds, nid, &strip.volume, strip.muted);
            push_route_links(state, nid, &strip.routed_to, cmds);
            proof {
                assert(start + strip_commands(state.graph@, state.bus_node_map@, state.strip_node_map@, strips@.take(i + 1))
                    =~= mid + level_commands(nid, strip.volume@, strip.muted) + route_link_commands(
                    state.graph@,
                    state.bus_node_map@,
                    nid,
                    strip.routed_to@,
                ));
            }
        } else {
            proof {
                assert(strip_commands(state.graph@, state.bus_node_map@, state.strip_node_map@, strips@.take(i + 1))
                    =~= strip_commands(state.graph@, state.bus_node_map@, state.strip_node_map@, strips@.take(i as int)));
            }
        }
    }
    proof {
        assert(strips@.take(strips@.len() as int) =~= strips@);
    }
}

fn push_target_links(state: &AppState, bus: &BusConfig, cmds: &mut Vec<PwCommand>)
    ensures
        commands_view(final(cmds)@) == commands_view(old(cmds)@) + target_link_commands(
            state.graph@,
            lookup(state.bus_node_map@, bus.id.0),
            bus.output_targets@,
        ),
{
    let ghost start = commands_view(cmds@);
    let targets = &bus.output_targets;
    for i in 0..targets.len()
        invariant
            targets@ == bus.output_targets@,
            commands_view(cmds@) == start + target_link_commands(
                state.graph@,
                lookup(state.bus_node_map@, bus.id.0),
                targets@.take(i as int),
            ),
    {
        proof {
            assert(targets@.take(i + 1).drop_last() =~= targets@.take(i as int));
            assert(targets@.take(i + 1).last() == targets@[i as int]);
        }
        let bus_nid = state.bus_node_id(bus.id);
        let target_nid = state.find_hardware_node_by_name(targets[i].as_str());
        match (bus_nid, target_nid) {
            (Some(b), Some(t)) => {
                let pairs = compute_link_pairs(&state.graph, b, t);
                push_links(cmds, &pairs);
                proof {
                    assert(start + target_link_commands(
                        state.graph@,
                        lookup(state.bus_node_map@, bus.id.0),
                        targets@.take(i + 1),
                    ) =~= start + target_link_commands(
                        state.graph@,
                        lookup(state.bus_node_map@, bus.id.0),
                        targets@.take(i as int),
                    ) + link_commands(pairs@));
                }
            },
            _ => {
                proof {
                    assert(target_link_commands(
                        state.graph@,
                        lookup(state.bus_node_map@, bus.id.0),
                        targets@.take(i + 1),
                    ) =~= target_link_commands(
                        state.graph@,
                        lookup(state.bus_node_map@, bus.id.0),
                        targets@.take(i as int),
                    ));
                }
            },
        }
    }
    proof {
        assert(targets@.take(targets@.len() as int) =~= targets@);
    }
}

fn push_output_commands(state: &AppState, cmds: &mut Vec<PwCommand>)
    ensures
        commands_view(final(cmds)@) == commands_view(old(cmds)@) + output_commands(
            state.graph@,
            state.bus_node_map@,
            state.config.buses@,
        ),
{
    let ghost start = commands_view(cmds@);
    let buses = &state.config.buses;
    for i in 0..buses.len()
        invariant
            buses@ == state.config.buses@,
            commands_view(cmds@) == start + output_commands(state.graph@, state.bus_node_map@, buses@.take(i as int)),
    {
        let bus = &buses[i];
        proof {
            assert(buses@.take(i + 1).drop_last() =~= buses@.take(i as int));
            assert(buses@.take(i + 1).last() == *bus);
        }
        push_target_links(state, bus, cmds);
        proof {
            assert(start + output_commands(state.graph@, state.bus_node_map@, buses@.take(i + 1)) =~= start
                + output_commands(state.graph@, state.bus_node_map@, buses@.take(i as int)) + target_link_commands(
                state.graph@,
                lookup(state.bus_node_map@, bus.id.0),
                bus.output_targets@,
            ));
        }
    }
    proof {
        assert(buses@.take(buses@.len() as int) =~= buses@);
    }
}

fn all_buses_ready(state: &AppState) -> (r: bool)
    ensures
        r == buses_ready(state.config.buses@, state.bus_node_map@),
{
    for i in 0..state.config.buses.len()
        invariant
            forall|j: int| 0 <= j < i ==> state.bus_node_map@.contains_key(#[trigger] state.config.buses@[j].id.0),
    {
        if state.bus_node_id(state.config.buses[i].id).is_none() {
            return false;
        }
    }
    true
}

fn all_virtual_strips_ready(state: &AppState) -> (r: bool)
    ensures
        r == strips_ready(state.config.strips@, state.strip_node_map@),
{
    for i in 0..state.config.strips.len()
        invariant
            forall|j: int| 0 <= j < i ==> kind_is_virtual(#[trigger] state.config.strips@[j].kind) ==> state.strip_node_map@.contains_key(
                state.config.strips@[j].id.0,
            ),
    {
        let s = &state.config.strips[i];
        if s.is_virtual() && state.strip_node_id(s.id).is_none() {
            return false;
        }
    }
    true
}

proof fn lemma_contains_concat(a: Seq<CommandView>, b: Seq<CommandView>, c: CommandView)
    ensures
        (a.contains(c) || b.contains(c)) ==> (a + b).contains(c),
{
    if a.contains(c) {
        let m = choose|m: int| 0 <= m < a.len() && a[m] == c;
        assert((a + b)[m] == c);
    } else if b.contains(c) {
        let m = choose|m: int| 0 <= m < b.len() && b[m] == c;
        assert((a + b)[a.len() + m] == c);
    }
}

proof fn lemma_route_links_included(g: GraphView, bus_map: Map<u32, u32>, src: u32, routes: Seq<BusId>, r: int, c: CommandView)
    requires
        0 <= r < routes.len(),
        lookup(bus_map, routes[r].0) is Some,
        link_commands(g.link_pairs_between(src, lookup(bus_map, routes[r].0)->0)).contains(c),
    ensures
        route_link_commands(g, bus_map, src, routes).contains(c),
    decreases routes.len(),
{
    let d = routes.drop_last();
    let tail = match lookup(bus_map, routes.last().0) {
        Some(b) => link_commands(g.link_pairs_between(src, b)),
        None => Seq::empty(),
    };
    if r < routes.len() - 1 {
        assert(d[r] == routes[r]);
        lemma_route_links_included(g, bus_map, src, d, r, c);
    } else {
        assert(routes[r] == routes.last());
    }
    lemma_contains_concat(route_link_commands(g, bus_map, src, d), tail, c);
}

proof fn lemma_strip_part_included(
    g: GraphView,
    bus_map: Map<u32, u32>,
    strip_map: Map<u32, u32>,
    strips: Seq<StripConfig>,
    i: int,
    c: CommandView,
)
    requires
        0 <= i < strips.len(),
        strip_node(g, strip_map, strips[i]) is Some,
        ({
            let n = strip_node(g, strip_map, strips[i])->0;
            (level_commands(n, strips[i].volume@, strips[i].muted) + route_link_commands(
                g,
                bus_map,
                n,
                strips[i].routed_to@,
            )).contains(c)
        }),
    ensures
        strip_commands(g, bus_map, strip_map, strips).contains(c),
    decreases strips.len(),
{
    let d = strips.drop_last();
    let st = strips.last();
    let tail = match strip_node(g, strip_map, st) {
        Some(n) => level_commands(n, st.volume@, st.muted) + route_link_commands(g, bus_map, n, st.routed_to@),
        None => Seq::empty(),
    };
    if i < strips.len() - 1 {
        assert(d[i] == strips[i]);
        lemma_strip_part_included(g, bus_map, strip_map, d, i, c);
    } else {
        assert(strips[i] == st);
    }
    lemma_contains_concat(strip_commands(g, bus_map, strip_map, d), tail, c);
}

/// Restoring the saved routing restores a configured hardware input strip
/// through the node found by the strip's node name, whatever the strip
/// registrations hold: when a node of that name exists, the restoration
/// sets that node's gains and mute to the strip's, and links it to every
/// bus the strip routes to that has a node, by every port pair routing
/// gives.
pub proof fn lemma_restore_covers_hardware_strips(
    g: GraphView,
    config: AppConfig,
    bus_map: Map<u32, u32>,
    strip_map: Map<u32, u32>,
    cleanup_done: bool,
    i: int,
)
    requires
        0 <= i < config.strips@.len(),
        config.strips@[i].kind is HardwareInput,
    ensures
        ({
            let st = config.strips@[i];
            let cmds = restore_commands(g, config, bus_map, strip_map, cleanup_done);
            match g.node_named(st.kind->node_name@) {
                Some(n) => {
                    &&& cmds.contains(CommandView::SetVolume { node_id: n, volumes: st.volume@ })
                    &&& cmds.contains(CommandView::SetMute { node_id: n, muted: st.muted })
                    &&& forall|r: int, p: (u32, u32)|
                        #![trigger st.routed_to@[r], g.link_pairs_between(n, lookup(bus_map, st.routed_to@[r].0)->0).contains(p)]
                        0 <= r < st.routed_to@.len() && lookup(bus_map, st.routed_to@[r].0) is Some
                            && g.link_pairs_between(n, lookup(bus_map, st.routed_to@[r].0)->0).contains(p)
                            ==> cmds.contains(CommandView::CreateLink { output_port_id: p.0, input_port_id: p.1 })
                },
                None => true,
            }
        }),
{
    let st = config.strips@[i];
    let strips = config.strips@;
    let first = (if cleanup_done { Seq::empty() } else { destroy_commands(stale_node_ids(g, bus_map, strip_map)) })
        + bus_level_commands(config.buses@, bus_map);
    let sc = strip_commands(g, bus_map, strip_map, strips);
    let oc = output_commands(g, bus_map, config.buses@);
    assert(restore_commands(g, config, bus_map, strip_map, cleanup_done) == first + sc + oc);
    match g.node_named(st.kind->node_name@) {
        Some(n) => {
            assert(strip_node(g, strip_map, st) == Some(n));
            let lv = level_commands(n, st.volume@, st.muted);
            let rl = route_link_commands(g, bus_map, n, st.routed_to@);
            let sv = CommandView::SetVolume { node_id: n, volumes: st.volume@ };
            let sm = CommandView::SetMute { node_id: n, muted: st.muted };
            assert(lv[0] == sv && lv[1] == sm);
            lemma_contains_concat(lv, rl, sv);
            lemma_contains_concat(lv, rl, sm);
            lemma_strip_part_included(g, bus_map, strip_map, strips, i, sv);
            lemma_strip_part_included(g, bus_map, strip_map, strips, i, sm);
            lemma_contains_concat(first, sc, sv);
            lemma_contains_concat(first + sc, oc, sv);
            lemma_contains_concat(first, sc, sm);
            lemma_contains_concat(first + sc, oc, sm);
            assert forall|r: int, p: (u32, u32)|
                #![trigger st.routed_to@[r], g.link_pairs_between(n, lookup(bus_map, st.routed_to@[r].0)->0).contains(p)]
                0 <= r < st.routed_to@.len() && lookup(bus_map, st.routed_to@[r].0) is Some
                    && g.link_pairs_between(n, lookup(bus_map, st.routed_to@[r].0)->0).contains(p)
                    implies restore_commands(g, config, bus_map, strip_map, cleanup_done).contains(
                    CommandView::CreateLink { output_port_id: p.0, input_port_id: p.1 },
                ) by {
                let b = lookup(bus_map, st.routed_to@[r].0)->0;
                let pairs = g.link_pairs_between(n, b);
                let c = CommandView::CreateLink { output_port_id: p.0, input_port_id: p.1 };
                let m = choose|m: int| 0 <= m < pairs.len() && pairs[m] == p;
                assert(link_commands(pairs)[m] == c);
                lemma_route_links_included(g, bus_map, n, st.routed_to@, r, c);
                lemma_contains_concat(lv, rl, c);
                lemma_strip_part_included(g, bus_map, strip_map, strips, i, c);
                lemma_contains_concat(first, sc, c);
                lemma_contains_concat(first + sc, oc, c);
            }
        },
        None => {},
    }
}

/// Once every configured bus and virtual strip has a node, restores the
/// saved routing (once): destroys nodes left over from an earlier run
/// (the first time only), restores every level, and recreates every route.
pub fn check_and_restore_routing(state: &mut AppState) -> (cmds: Vec<PwCommand>)
    ensures
        commands_view(cmds@) == if restore_due(*old(state)) {
            restore_commands(
                old(state).graph@,
                old(state).config,
                old(state).bus_node_map@,
                old(state).strip_node_map@,
                old(state).cleanup_done,
            )
        } else {
            Seq::empty()
        },
        final(state).restore_pending == (old(state).restore_pending && !restore_due(*old(state))),
        final(state).well_formed() == old(state).well_formed(),
        final(state).cleanup_done == (old(state).cleanup_done || restore_due(*old(state))),
        final(state).graph == old(state).graph,
        final(state).config == old(state).config,
        final(state).bus_node_map == old(state).bus_node_map,
        final(state).strip_node_map == old(state).strip_node_map,
        final(state).node_bus_map == old(state).node_bus_map,
        final(state).node_strip_map == old(state).node_strip_map,
        final(state).voutput_node_map == old(state).voutput_node_map,
        final(state).node_voutput_map == old(state).node_voutput_map,
{
    let mut cmds: Vec<PwCommand> = Vec::new();
    if !state.restore_pending {
        proof {
            assert(commands_view(cmds@) =~= Seq::<CommandView>::empty());
        }
        return cmds;
    }
    if !all_buses_ready(state) || !all_virtual_strips_ready(state) {
        proof {
            assert(commands_view(cmds@) =~= Seq::<CommandView>::empty());
        }
        return cmds;
    }
    state.restore_pending = false;
    let ghost was_done = state.cleanup_done;
    if !state.cleanup_done {
        state.cleanup_done = true;
        push_stale_destroys(state, &mut cmds);
    }
    proof {
        assert(commands_view(cmds@) =~= (if was_done { Seq::<CommandView>::empty() } else {
            destroy_commands(stale_node_ids(state.graph@, state.bus_node_map@, state.strip_node_map@))
        }));
    }
    push_bus_levels(state, &mut cmds);
    push_strip_commands(state, &mut cmds);
    push_output_commands(state, &mut cmds);
    cmds
}

/// What the views have to do after an event.
#[derive(Debug)]
pub enum Refresh {
    /// Nothing to show.
    Nothing,
    /// Rebuild the mixer and the matrix.
    Rebuild,
    /// Mark the matrix cell of a new link; rebuild when the matrix has no such cell.
    LinkAdded { output_port_id: u32, input_port_id: u32 },
    /// Clear the matrix cell of a removed link; rebuild when the matrix has no such cell.
    LinkRemoved { output_port_id: u32, input_port_id: u32 },
    /// Show the new gains and mute of a node on its strips.
    NodeParams { node_id: u32 },
    /// Show peak levels (`f32` bit patterns) of a node on its strips.
    PeakLevel { node_id: u32, peaks: Vec<u32> },
}

/// What the views do when link `id` goes: clear the cell of its ports when
/// the link was known, else rebuild.
pub open spec fn removal_refresh(links: Map<u32, LinkInfo>, id: u32) -> Refresh {
    if links.contains_key(id) {
        Refresh::LinkRemoved { output_port_id: links[id].output_port_id, input_port_id: links[id].input_port_id }
    } else {
        Refresh::Rebuild
    }
}

/// Everything but the graph is untouched.
pub open spec fn only_graph_changed(a: &AppState, b: &AppState) -> bool {
    &&& a.config == b.config
    &&& a.bus_node_map == b.bus_node_map
    &&& a.strip_node_map == b.strip_node_map
    &&& a.node_bus_map == b.node_bus_map
    &&& a.node_strip_map == b.node_strip_map
    &&& a.voutput_node_map == b.voutput_node_map
    &&& a.node_voutput_map == b.node_voutput_map
    &&& a.restore_pending == b.restore_pending
    &&& a.cleanup_done == b.cleanup_done
}

/// Only the graph's links changed.
pub open spec fn only_links_changed(a: &AppState, b: &AppState) -> bool {
    &&& only_graph_changed(a, b)
    &&& a.graph@.nodes == b.graph@.nodes
    &&& a.graph@.ports == b.graph@.ports
    &&& a.graph@.node_ports == b.graph@.node_ports
}

/// The node's record after a parameter change.
pub open spec fn params_applied(n: crate::pw::graph::NodeInfo, m: crate::pw::graph::NodeInfo, volumes: Option<Vec<u32>>, muted: Option<bool>) -> bool {
    &&& m.id == n.id
    &&& m.name == n.name
    &&& m.description == n.description
    &&& m.media_class == n.media_class
    &&& m.properties == n.properties
    &&& m.volumes == match volumes { Some(v) => v, None => n.volumes }
    &&& m.muted == match muted { Some(b) => b, None => n.muted }
}

/// The state after registering a node and restoring the routing.
pub open spec fn restored_after(
    s: &AppState,
    t: &AppState,
    bus_map: Map<u32, u32>,
    strip_map: Map<u32, u32>,
    cmds: Seq<CommandView>,
) -> bool {
    let due = s.restore_pending && restore_ready(s.config, bus_map, strip_map);
    &&& cmds == if due {
        restore_commands(s.graph@, s.config, bus_map, strip_map, s.cleanup_done)
    } else {
        Seq::empty()
    }
    &&& t.restore_pending == (s.restore_pending && !due)
    &&& t.cleanup_done == (s.cleanup_done || due)
    &&& t.graph == s.graph
    &&& t.config == s.config
    &&& t.bus_node_map@ == bus_map
    &&& t.strip_node_map@ == strip_map
}

/// Applies a PipeWire event to the state: the graph mirrors additions,
/// removals and parameter changes; a newly created bus, virtual input or
/// virtual output is registered and may complete the restoration of the
/// saved routing. Returns what the views must do and what PipeWire must do.
pub fn process_event(event: PwEvent, state: &mut AppState) -> (r: (Refresh, Vec<PwCommand>))
    ensures
        final(state).config == old(state).config,
        final(state).well_formed() == old(state).well_formed(),
        match event {
            PwEvent::NodeAdded { id, name, media_class, description, properties } => {
                &&& only_graph_changed(final(state), old(state))
                &&& final(state).graph@.nodes.dom() == old(state).graph@.nodes.dom().insert(id)
                &&& forall|k: u32| k != id && old(state).graph@.nodes.contains_key(k) ==> final(state).graph@.nodes[k] == old(state).graph@.nodes[k]
                &&& final(state).graph@.nodes[id].id == id
                &&& final(state).graph@.nodes[id].name == name
                &&& final(state).graph@.nodes[id].media_class == media_class
                &&& final(state).graph@.nodes[id].description == description
                &&& final(state).graph@.nodes[id].properties == properties
                &&& final(state).graph@.nodes[id].volumes@ == unity_gains(2)
                &&& !final(state).graph@.nodes[id].muted
                &&& final(state).graph@.ports == old(state).graph@.ports
                &&& final(state).graph@.links == old(state).graph@.links
                &&& final(state).graph@.node_ports == if old(state).graph@.node_ports.contains_key(id) {
                    old(state).graph@.node_ports
                } else {
                    old(state).graph@.node_ports.insert(id, Seq::empty())
                }
                &&& r.0 is Rebuild
                &&& r.1@.len() == 0
            },
            PwEvent::NodeRemoved { id } => {
                &&& only_graph_changed(final(state), old(state))
                &&& final(state).graph@.nodes == old(state).graph@.nodes.remove(id)
                &&& final(state).graph@.node_ports == old(state).graph@.node_ports.remove(id)
                &&& final(state).graph@.ports == old(state).graph@.ports
                &&& final(state).graph@.links == old(state).graph@.links
                &&& r.0 is Rebuild
                &&& r.1@.len() == 0
            },
            PwEvent::PortAdded { id, node_id, name, direction } => {
                &&& only_graph_changed(final(state), old(state))
                &&& final(state).graph@.ports == old(state).graph@.ports.insert(
                    id,
                    crate::pw::graph::PortInfo { id, node_id, name, direction },
                )
                &&& final(state).graph@.node_ports == old(state).graph@.node_ports.insert(
                    node_id,
                    if old(state).graph@.node_ports.contains_key(node_id) {
                        old(state).graph@.node_ports[node_id]
                    } else {
                        Seq::empty()
                    }.push(id),
                )
                &&& final(state).graph@.nodes == old(state).graph@.nodes
                &&& final(state).graph@.links == old(state).graph@.links
                &&& r.0 is Rebuild
                &&& r.1@.len() == 0
            },
            PwEvent::PortRemoved { id } => {
                &&& only_graph_changed(final(state), old(state))
                &&& final(state).graph@.ports == old(state).graph@.ports.remove(id)
                &&& final(state).graph@.node_ports == if old(state).graph@.ports.contains_key(id)
                    && old(state).graph@.node_ports.contains_key(old(state).graph@.ports[id].node_id) {
                    old(state).graph@.node_ports.insert(
                        old(state).graph@.ports[id].node_id,
                        without(old(state).graph@.node_ports[old(state).graph@.ports[id].node_id], id),
                    )
                } else {
                    old(state).graph@.node_ports
                }
                &&& final(state).graph@.nodes == old(state).graph@.nodes
                &&& final(state).graph@.links == old(state).graph@.links
                &&& r.0 is Rebuild
                &&& r.1@.len() == 0
            },
            PwEvent::LinkAdded { id, output_port_id, input_port_id, state: link_state } => {
                &&& only_links_changed(final(state), old(state))
                &&& final(state).graph@.links == old(state).graph@.links.insert(
                    id,
                    LinkInfo { id, output_port_id, input_port_id, state: link_state },
                )
                &&& r.0 == (Refresh::LinkAdded { output_port_id, input_port_id })
                &&& r.1@.len() == 0
            },
            PwEvent::LinkStateChanged { id, state: link_state } => {
                &&& only_links_changed(final(state), old(state))
                &&& final(state).graph@.links == if old(state).graph@.links.contains_key(id) {
                    old(state).graph@.links.insert(id, LinkInfo { state: link_state, ..old(state).graph@.links[id] })
                } else {
                    old(state).graph@.links
                }
                &&& r.0 is Nothing
                &&& r.1@.len() == 0
            },
            PwEvent::LinkRemoved { id } => {
                &&& only_links_changed(final(state), old(state))
                &&& final(state).graph@.links == old(state).graph@.links.remove(id)
                &&& r.0 == removal_refresh(old(state).graph@.links, id)
                &&& r.1@.len() == 0
            },
            PwEvent::ParamsChanged { node_id, volumes, muted, .. } => {
                &&& only_graph_changed(final(state), old(state))
                &&& final(state).graph@.nodes.dom() == old(state).graph@.nodes.dom()
                &&& forall|k: u32| k != node_id && old(state).graph@.nodes.contains_key(k) ==> final(state).graph@.nodes[k] == old(state).graph@.nodes[k]
                &&& old(state).graph@.nodes.contains_key(node_id) ==> params_applied(
                    old(state).graph@.nodes[node_id],
                    final(state).graph@.nodes[node_id],
                    volumes,
                    muted,
                )
                &&& final(state).graph@.ports == old(state).graph@.ports
                &&& final(state).graph@.links == old(state).graph@.links
                &&& final(state).graph@.node_ports == old(state).graph@.node_ports
                &&& r.0 == (Refresh::NodeParams { node_id })
                &&& r.1@.len() == 0
            },
            PwEvent::BusCreated { bus_id, node_id } => {
                &&& final(state).node_bus_map@ == old(state).node_bus_map@.insert(node_id, bus_id)
                &&& final(state).node_strip_map@ == old(state).node_strip_map@
                &&& final(state).voutput_node_map@ == old(state).voutput_node_map@
                &&& final(state).node_voutput_map@ == old(state).node_voutput_map@
                &&& restored_after(
                    old(state),
                    final(state),
                    old(state).bus_node_map@.insert(bus_id.0, node_id),
                    old(state).strip_node_map@,
                    commands_view(r.1@),
                )
                &&& r.0 is Rebuild
            },
            PwEvent::VirtualInputCreated { strip_id, node_id } => {
                &&& final(state).node_strip_map@ == old(state).node_strip_map@.insert(node_id, strip_id)
                &&& final(state).node_bus_map@ == old(state).node_bus_map@
                &&& final(state).voutput_node_map@ == old(state).voutput_node_map@
                &&& final(state).node_voutput_map@ == old(state).node_voutput_map@
                &&& restored_after(
                    old(state),
                    final(state),
                    old(state).bus_node_map@,
                    old(state).strip_node_map@.insert(strip_id.0, node_id),
                    commands_view(r.1@),
                )
                &&& r.0 is Rebuild
            },
            PwEvent::VirtualOutputCreated { voutput_id, node_id } => {
                &&& final(state).voutput_node_map@ == old(state).voutput_node_map@.insert(voutput_id.0, node_id)
                &&& final(state).node_voutput_map@ == old(state).node_voutput_map@.insert(node_id, voutput_id)
                &&& final(state).node_bus_map@ == old(state).node_bus_map@
                &&& final(state).node_strip_map@ == old(state).node_strip_map@
                &&& restored_after(
                    old(state),
                    final(state),
                    old(state).bus_node_map@,
                    old(state).strip_node_map@,
                    commands_view(r.1@),
                )
                &&& r.0 is Rebuild
            },
            PwEvent::PeakLevel { node_id, peaks } => {
                &&& *final(state) == *old(state)
                &&& r.0 == (Refresh::PeakLevel { node_id, peaks })
                &&& r.1@.len() == 0
            },
        },
{
    match event {
        PwEvent::NodeAdded { id, name, media_class, description, properties } => {
            state.graph.add_node(
                NodeInfo { id, name, description, media_class, volumes: unity_volume(ChannelLayout::Stereo), muted: false, properties },
            );
            proof {
                assert(state.graph@.nodes.dom() =~= old(state).graph@.nodes.dom().insert(id));
                assert(layout_channels(ChannelLayout::Stereo) == 2);
            }
            (Refresh::Rebuild, Vec::new())
        },
        PwEvent::NodeRemoved { id } => {
            state.graph.remove_node(id);
            (Refresh::Rebuild, Vec::new())
        },
        PwEvent::PortAdded { id, node_id, name, direction } => {
            state.graph.add_port(PortInfo { id, node_id, name, direction });
            (Refresh::Rebuild, Vec::new())
        },
        PwEvent::PortRemoved { id } => {
            state.graph.remove_port(id);
            (Refresh::Rebuild, Vec::new())
        },
        PwEvent::LinkAdded { id, output_port_id, input_port_id, state: link_state } => {
            state.graph.add_link(LinkInfo { id, output_port_id, input_port_id, state: link_state });
            (Refresh::LinkAdded { output_port_id, input_port_id }, Vec::new())
        },
        PwEvent::LinkStateChanged { id, state: link_state } => {
            match state.graph.links.get(&id) {
                Some(l) => {
                    let mut updated = *l;
                    updated.state = link_state;
                    state.graph.links.insert(id, updated);
                },
                None => {},
            }
            (Refresh::Nothing, Vec::new())
        },
        PwEvent::LinkRemoved { id } => {
            let refresh = match state.graph.links.get(&id) {
                Some(l) => Refresh::LinkRemoved { output_port_id: l.output_port_id, input_port_id: l.input_port_id },
                None => Refresh::Rebuild,
            };
            state.graph.remove_link(id);
            (refresh, Vec::new())
        },
        PwEvent::ParamsChanged { node_id, volumes, muted, .. } => {
            match state.graph.nodes.remove(&node_id) {
                Some(node) => {
                    let mut node = node;
                    match volumes {
                        Some(v) => {
                            node.volumes = v;
                        },
                        None => {},
                    }
                    match muted {
                        Some(m) => {
                            node.muted = m;
                        },
                        None => {},
                    }
                    state.graph.nodes.insert(node_id, node);
                    proof {
                        assert(state.graph@.nodes.dom() =~= old(state).graph@.nodes.dom());
                    }
                },
                None => {},
            }
            (Refresh::NodeParams { node_id }, Vec::new())
        },
        PwEvent::BusCreated { bus_id, node_id } => {
            state.register_bus(bus_id, node_id);
            let cmds = check_and_restore_routing(state);
            (Refresh::Rebuild, cmds)
        },
        PwEvent::VirtualInputCreated { strip_id, node_id } => {
            state.register_strip(strip_id, node_id);
            let cmds = check_and_restore_routing(state);
            (Refresh::Rebuild, cmds)
        },
        PwEvent::VirtualOutputCreated { voutput_id, node_id } => {
            state.register_voutput(voutput_id, node_id);
            let cmds = check_and_restore_routing(state);
            (Refresh::Rebuild, cmds)
        },
        PwEvent::PeakLevel { node_id, peaks } => (Refresh::PeakLevel { node_id, peaks }, Vec::new()),
    }
}

} // verus!
