//! What the registry listener makes of the globals PipeWire announces and
//! removes, and the store of the proxies the PipeWire thread keeps bound.
//!
//! A global's properties arrive as the `(key, value)` pairs of its
//! dictionary, in dictionary order; a global without a dictionary has no
//! pairs. A key is looked up as the dictionary does: the first pair with
//! that key gives the value.
use std::collections::HashMap;
use vstd::prelude::*;

use crate::order::{first_index, is_first, lemma_first_index_at, lemma_first_index_none};
use crate::pw::message::{copy_gains, BusId, LinkState, PortDirection, PwEvent, StripId, VirtualOutputId};
use crate::text::{parse_u32, parse_u32_text, same_text};

verus! {

broadcast use vstd::std_specs::hash::group_hash_axioms;

/// The kind of a global object, as far as the mixer cares.
#[derive(Clone, Copy, Debug, PartialEq, Eq, Structural)]
pub enum GlobalKind {
    Node,
    Port,
    Link,
    Other,
}

/// A pair has key `key`.
pub open spec fn key_at(key: Seq<char>) -> spec_fn((String, String)) -> bool {
    |e: (String, String)| e.0@ == key
}

/// The value the dictionary gives for `key`.
pub open spec fn prop_value(props: Seq<(String, String)>, key: Seq<char>) -> Option<Seq<char>> {
    match first_index(props, key_at(key)) {
        Some(i) => Some(props[i].1@),
        None => None,
    }
}

/// The value of `key`, or the empty text.
pub open spec fn prop_text(props: Seq<(String, String)>, key: Seq<char>) -> Seq<char> {
    match prop_value(props, key) {
        Some(v) => v,
        None => Seq::empty(),
    }
}

/// The value of `key` read as a `u32`, or zero where it is missing or
/// does not parse.
pub open spec fn prop_id(props: Seq<(String, String)>, key: Seq<char>) -> u32 {
    match prop_value(props, key) {
        Some(v) => match parse_u32(v) {
            Some(n) => n,
            None => 0,
        },
        None => 0,
    }
}

/// Looks `key` up in a property list.
pub fn prop_get(props: &Vec<(String, String)>, key: &str) -> (r: Option<String>)
    ensures
        match r {
            Some(v) => prop_value(props@, key@) == Some(v@),
            None => prop_value(props@, key@) is None,
        },
{
    let ghost p = key_at(key@);
    let mut i: usize = 0;
    while i < props.len()
        invariant
            i <= props@.len(),
            p == key_at(key@),
            forall|j: int| 0 <= j < i ==> !p(#[trigger] props@[j]),
        decreases props@.len() - i,
    {
        if same_text(props[i].0.as_str(), key) {
            proof {
                assert(is_first(props@, p, i as int));
                lemma_first_index_at(props@, p, i as int);
            }
            return Some(props[i].1.clone());
        }
        i = i + 1;
    }
    proof {
        lemma_first_index_none(props@, p);
    }
    None
}

/// Looks `key` up, giving the empty text where it is missing.
pub fn prop_get_text(props: &Vec<(String, String)>, key: &str) -> (r: String)
    ensures
        r@ == prop_text(props@, key@),
{
    match prop_get(props, key) {
        Some(v) => v,
        None => String::new(),
    }
}

/// Looks `key` up and reads it as a `u32`, giving zero where it is missing
/// or does not parse.
pub fn prop_get_id(props: &Vec<(String, String)>, key: &str) -> (r: u32)
    ensures
        r == prop_id(props@, key@),
{
    match prop_get(props, key) {
        Some(v) => match parse_u32_text(v.as_str()) {
            Some(n) => n,
            None => 0,
        },
        None => 0,
    }
}

/// The name a node is shown by: its description, else its nickname, else
/// its name, else the empty text.
pub open spec fn node_description(props: Seq<(String, String)>) -> Seq<char> {
    match prop_value(props, "node.description"@) {
        Some(v) => v,
        None => match prop_value(props, "node.nick"@) {
            Some(v) => v,
            None => prop_text(props, "node.name"@),
        },
    }
}

/// The direction a port's properties give, if they give one.
pub open spec fn port_direction(props: Seq<(String, String)>) -> Option<PortDirection> {
    if prop_value(props, "port.direction"@) == Some("in"@) {
        Some(PortDirection::Input)
    } else if prop_value(props, "port.direction"@) == Some("out"@) {
        Some(PortDirection::Output)
    } else {
        None
    }
}

/// The text views of a property list.
pub open spec fn props_view(props: Seq<(String, String)>) -> Seq<(Seq<char>, Seq<char>)> {
    props.map_values(|e: (String, String)| (e.0@, e.1@))
}

/// The pair has key `key`.
pub open spec fn has_key(key: Seq<char>) -> spec_fn((Seq<char>, Seq<char>)) -> bool {
    |e: (Seq<char>, Seq<char>)| e.0 == key
}

/// The properties as a map keeps them: one pair per key, in the order the
/// keys first appear, each with the value of the key's last pair.
pub open spec fn merged_props(s: Seq<(Seq<char>, Seq<char>)>) -> Seq<(Seq<char>, Seq<char>)>
    decreases s.len(),
{
    if s.len() == 0 {
        Seq::empty()
    } else {
        let prev = merged_props(s.drop_last());
        match first_index(prev, has_key(s.last().0)) {
            Some(i) => prev.update(i, s.last()),
            None => prev.push(s.last()),
        }
    }
}

/// No two pairs share a key.
pub open spec fn unique_keys(s: Seq<(Seq<char>, Seq<char>)>) -> bool {
    forall|i: int, j: int| 0 <= i < j < s.len() ==> (#[trigger] s[i]).0 != (#[trigger] s[j]).0
}

/// Merged properties have one pair per key.
pub proof fn lemma_merged_unique(s: Seq<(Seq<char>, Seq<char>)>)
    ensures
        unique_keys(merged_props(s)),
    decreases s.len(),
{
    if s.len() > 0 {
        let prev = merged_props(s.drop_last());
        lemma_merged_unique(s.drop_last());
        let e = s.last();
        match first_index(prev, has_key(e.0)) {
            Some(i) => {
                let c = choose|c: int| is_first(prev, has_key(e.0), c);
                assert(is_first(prev, has_key(e.0), c));
                let r = prev.update(i, e);
                assert forall|x: int, y: int| 0 <= x < y < r.len() implies (#[trigger] r[x]).0 != (#[trigger] r[y]).0 by {
                    assert(prev[x].0 != prev[y].0);
                }
            },
            None => {
                let r = prev.push(e);
                assert forall|x: int, y: int| 0 <= x < y < r.len() implies (#[trigger] r[x]).0 != (#[trigger] r[y]).0 by {
                    if y == prev.len() {
                        if !has_key(e.0)(prev[x]) {
                        } else {
                            assert(exists|c: int| is_first(prev, has_key(e.0), c)) by {
                                let m = choose|m: int| 0 <= m < prev.len() && has_key(e.0)(prev[m]) && forall|n: int|
                                    0 <= n < m ==> !has_key(e.0)(#[trigger] prev[n]);
                                assert(is_first(prev, has_key(e.0), m));
                            }
                        }
                    } else {
                        assert(prev[x].0 != prev[y].0);
                    }
                }
            },
        }
    }
}

/// The properties of a global with one pair per key, the last value of
/// each key winning.
pub fn merge_props(props: &Vec<(String, String)>) -> (r: Vec<(String, String)>)
    ensures
        props_view(r@) == merged_props(props_view(props@)),
        unique_keys(props_view(r@)),
{
    let ghost all = props_view(props@);
    let mut r: Vec<(String, String)> = Vec::new();
    for i in 0..props.len()
        invariant
            all == props_view(props@),
            props_view(r@) == merged_props(all.take(i as int)),
    {
        let ghost prev = props_view(r@);
        let ghost e = all[i as int];
        proof {
            assert(all.take(i + 1).drop_last() =~= all.take(i as int));
            assert(all.take(i + 1).last() == e);
            assert(e == (props@[i as int].0@, props@[i as int].1@));
        }
        let mut j: usize = 0;
        let mut found = false;
        while j < r.len()
            invariant_except_break
                !found,
            invariant
                i < props@.len(),
                prev == props_view(r@),
                e == (props@[i as int].0@, props@[i as int].1@),
                j <= r@.len(),
                forall|m: int| 0 <= m < j ==> !has_key(e.0)(#[trigger] prev[m]),
            ensures
                found ==> j < r@.len() && is_first(prev, has_key(e.0), j as int),
                !found ==> j == r@.len(),
            decreases r@.len() - j,
        {
            if same_text(r[j].0.as_str(), props[i].0.as_str()) {
                proof {
                    assert(prev[j as int] == (r@[j as int].0@, r@[j as int].1@));
                }
                found = true;
                break;
            }
            proof {
                assert(prev[j as int] == (r@[j as int].0@, r@[j as int].1@));
            }
            j = j + 1;
        }
        let k = props[i].0.clone();
        let v = props[i].1.clone();
        if found {
            proof {
                lemma_first_index_at(prev, has_key(e.0), j as int);
            }
            r.remove(j);
            r.insert(j, (k, v));
            proof {
                assert(props_view(r@) =~= prev.update(j as int, e));
            }
        } else {
            proof {
                lemma_first_index_none(prev, has_key(e.0));
            }
            r.push((k, v));
            proof {
                assert(props_view(r@) =~= prev.push(e));
            }
        }
    }
    proof {
        assert(all.take(props@.len() as int) =~= all);
        lemma_merged_unique(all);
    }
    r
}

/// The event announcing a global object: a node with its name, media class,
/// shown name and properties (one pair per key, the last value winning); a
/// port with its node, name and direction
/// (none where the direction is neither `in` nor `out`); a link with its two
/// ports, still negotiating; nothing for any other kind.
pub fn global_event(kind: GlobalKind, id: u32, props: &Vec<(String, String)>) -> (r: Option<PwEvent>)
    ensures
        match kind {
            GlobalKind::Node => r matches Some(
                PwEvent::NodeAdded { id: i, name, media_class, description, properties },
            ) && i == id && name@ == prop_text(props@, "node.name"@) && media_class@ == prop_text(
                props@,
                "media.class"@,
            ) && description@ == node_description(props@) && props_view(properties@)
                == merged_props(props_view(props@)) && unique_keys(props_view(properties@)),
            GlobalKind::Port => match port_direction(props@) {
                Some(d) => r matches Some(PwEvent::PortAdded { id: i, node_id, name, direction })
                    && i == id && node_id == prop_id(props@, "node.id"@) && name@ == prop_text(
                    props@,
                    "port.name"@,
                ) && direction == d,
                None => r is None,
            },
            GlobalKind::Link => r matches Some(
                PwEvent::LinkAdded { id: i, output_port_id, input_port_id, state },
            ) && i == id && output_port_id == prop_id(props@, "link.output.port"@) && input_port_id
                == prop_id(props@, "link.input.port"@) && state == LinkState::Negotiating,
            GlobalKind::Other => r is None,
        },
{
    match kind {
        GlobalKind::Node => {
            let name = prop_get_text(props, "node.name");
            let description = match prop_get(props, "node.description") {
                Some(v) => v,
                None => match prop_get(props, "node.nick") {
                    Some(v) => v,
                    None => prop_get_text(props, "node.name"),
                },
            };
            let media_class = prop_get_text(props, "media.class");
            let properties = merge_props(props);
            Some(PwEvent::NodeAdded { id, name, media_class, description, properties })
        },
        GlobalKind::Port => {
            let node_id = prop_get_id(props, "node.id");
            let name = prop_get_text(props, "port.name");
            let direction = match prop_get(props, "port.direction") {
                Some(v) => {
                    if same_text(v.as_str(), "in") {
                        PortDirection::Input
                    } else if same_text(v.as_str(), "out") {
                        PortDirection::Output
                    } else {
                        return None;
                    }
                },
                None => {
                    return None;
                },
            };
            Some(PwEvent::PortAdded { id, node_id, name, direction })
        },
        GlobalKind::Link => {
            let output_port_id = prop_get_id(props, "link.output.port");
            let input_port_id = prop_get_id(props, "link.input.port");
            Some(
                PwEvent::LinkAdded {
                    id,
                    output_port_id,
                    input_port_id,
                    state: LinkState::Negotiating,
                },
            )
        },
        GlobalKind::Other => None,
    }
}

/// A link's state as PipeWire reports it, without the text of an error.
#[derive(Clone, Copy, Debug, PartialEq, Eq, Structural)]
pub enum ReportedLinkState {
    Error,
    Unlinked,
    Init,
    Negotiating,
    Allocating,
    Paused,
    Active,
}

/// The mixer's view of a reported link state: a link still initialising
/// counts as negotiating.
pub open spec fn mixer_link_state(s: ReportedLinkState) -> LinkState {
    match s {
        ReportedLinkState::Error => LinkState::Error,
        ReportedLinkState::Unlinked => LinkState::Unlinked,
        ReportedLinkState::Init => LinkState::Negotiating,
        ReportedLinkState::Negotiating => LinkState::Negotiating,
        ReportedLinkState::Allocating => LinkState::Allocating,
        ReportedLinkState::Paused => LinkState::Paused,
        ReportedLinkState::Active => LinkState::Active,
    }
}

/// The event reporting that link `id` changed state.
pub fn link_state_event(id: u32, reported: ReportedLinkState) -> (r: PwEvent)
    ensures
        r == (PwEvent::LinkStateChanged { id, state: mixer_link_state(reported) }),
{
    let state = match reported {
        ReportedLinkState::Error => LinkState::Error,
        ReportedLinkState::Unlinked => LinkState::Unlinked,
        ReportedLinkState::Init => LinkState::Negotiating,
        ReportedLinkState::Negotiating => LinkState::Negotiating,
        ReportedLinkState::Allocating => LinkState::Allocating,
        ReportedLinkState::Paused => LinkState::Paused,
        ReportedLinkState::Active => LinkState::Active,
    };
    PwEvent::LinkStateChanged { id, state }
}

/// One property of a node's `Props` parameter, as far as the mixer reads it.
/// Gains are `f32` bit patterns.
#[derive(Debug)]
pub enum ParamProp {
    ChannelVolumes(Vec<u32>),
    SoftVolumes(Vec<u32>),
    MonitorVolumes(Vec<u32>),
    Mute(bool),
    Other,
}

/// Which list of gains a property carries.
#[derive(Clone, Copy, Debug, PartialEq, Eq, Structural)]
pub enum GainKind {
    Channel,
    Soft,
    Monitor,
}

/// The gains of kind `k` that a property carries.
pub open spec fn gains_in(p: ParamProp, k: GainKind) -> Option<Seq<u32>> {
    match (p, k) {
        (ParamProp::ChannelVolumes(v), GainKind::Channel) => Some(v@),
        (ParamProp::SoftVolumes(v), GainKind::Soft) => Some(v@),
        (ParamProp::MonitorVolumes(v), GainKind::Monitor) => Some(v@),
        _ => None,
    }
}

/// The gains of kind `k` given by the last property that carries them.
pub open spec fn last_gains(s: Seq<ParamProp>, k: GainKind) -> Option<Seq<u32>>
    decreases s.len(),
{
    if s.len() == 0 {
        None
    } else {
        match gains_in(s.last(), k) {
            Some(v) => Some(v),
            None => last_gains(s.drop_last(), k),
        }
    }
}

/// The mute flag given by the last property that carries one.
pub open spec fn last_mute(s: Seq<ParamProp>) -> Option<bool>
    decreases s.len(),
{
    if s.len() == 0 {
        None
    } else {
        match s.last() {
            ParamProp::Mute(m) => Some(m),
            _ => last_mute(s.drop_last()),
        }
    }
}

/// The view of an optional list of gains.
pub open spec fn gains_view(o: Option<Vec<u32>>) -> Option<Seq<u32>> {
    match o {
        Some(v) => Some(v@),
        None => None,
    }
}

/// The event reporting a node's new parameters: each value is the last one
/// the parameter carries. There is an event exactly when the parameter
/// carries channel volumes or a mute flag; soft and monitor volumes ride
/// along with those but are not reported on their own.
pub fn params_event(node_id: u32, props: &Vec<ParamProp>) -> (r: Option<PwEvent>)
    ensures
        match r {
            Some(PwEvent::ParamsChanged { node_id: n, volumes, muted, soft_volumes, monitor_volumes }) => {
                &&& n == node_id
                &&& gains_view(volumes) == last_gains(props@, GainKind::Channel)
                &&& gains_view(soft_volumes) == last_gains(props@, GainKind::Soft)
                &&& gains_view(monitor_volumes) == last_gains(props@, GainKind::Monitor)
                &&& muted == last_mute(props@)
                &&& (volumes is Some || muted is Some)
            },
            Some(_) => false,
            None => {
                &&& last_gains(props@, GainKind::Channel) is None
                &&& last_mute(props@) is None
            },
        },
{
    let mut volumes: Option<Vec<u32>> = None;
    let mut soft_volumes: Option<Vec<u32>> = None;
    let mut monitor_volumes: Option<Vec<u32>> = None;
    let mut muted: Option<bool> = None;
    for i in 0..props.len()
        invariant
            gains_view(volumes) == last_gains(props@.take(i as int), GainKind::Channel),
            gains_view(soft_volumes) == last_gains(props@.take(i as int), GainKind::Soft),
            gains_view(monitor_volumes) == last_gains(props@.take(i as int), GainKind::Monitor),
            muted == last_mute(props@.take(i as int)),
    {
        proof {
            assert(props@.take(i + 1).drop_last() =~= props@.take(i as int));
            assert(props@.take(i + 1).last() == props@[i as int]);
        }
        match &props[i] {
            ParamProp::ChannelVolumes(v) => {
                volumes = Some(copy_gains(v));
            },
            ParamProp::SoftVolumes(v) => {
                soft_volumes = Some(copy_gains(v));
            },
            ParamProp::MonitorVolumes(v) => {
                monitor_volumes = Some(copy_gains(v));
            },
            ParamProp::Mute(m) => {
                muted = Some(*m);
            },
            ParamProp::Other => {},
        }
    }
    proof {
        assert(props@.take(props@.len() as int) =~= props@);
    }
    if volumes.is_none() && muted.is_none() {
        None
    } else {
        Some(PwEvent::ParamsChanged { node_id, volumes, muted, soft_volumes, monitor_volumes })
    }
}

/// The proxies the PipeWire thread keeps bound, keyed by global id, which
/// global node each created bus, virtual input and virtual output became
/// (keyed by the inner value of their identifier), and the objects it
/// created and keeps alive.
#[verifier::reject_recursive_types(N)]
#[verifier::reject_recursive_types(L)]
pub struct ProxyStore<N, L> {
    pub nodes: HashMap<u32, N>,
    pub links: HashMap<u32, L>,
    pub bus_nodes: HashMap<u32, u32>,
    pub virtual_input_nodes: HashMap<u32, u32>,
    pub virtual_output_nodes: HashMap<u32, u32>,
    pub created_nodes: Vec<N>,
    pub created_links: Vec<L>,
}

impl<N, L> ProxyStore<N, L> {
    /// An empty store.
    pub fn new() -> (r: Self)
        ensures
            r.nodes@ == Map::<u32, N>::empty(),
            r.links@ == Map::<u32, L>::empty(),
            r.bus_nodes@ == Map::<u32, u32>::empty(),
            r.virtual_input_nodes@ == Map::<u32, u32>::empty(),
            r.virtual_output_nodes@ == Map::<u32, u32>::empty(),
            r.created_nodes@.len() == 0,
            r.created_links@.len() == 0,
    {
        ProxyStore {
            nodes: HashMap::new(),
            links: HashMap::new(),
            bus_nodes: HashMap::new(),
            virtual_input_nodes: HashMap::new(),
            virtual_output_nodes: HashMap::new(),
            created_nodes: Vec::new(),
            created_links: Vec::new(),
        }
    }

    /// Everything but the bound nodes and links is as in `other`.
    pub open spec fn same_records(&self, other: &Self) -> bool {
        &&& self.bus_nodes@ == other.bus_nodes@
        &&& self.virtual_input_nodes@ == other.virtual_input_nodes@
        &&& self.virtual_output_nodes@ == other.virtual_output_nodes@
        &&& self.created_nodes@ == other.created_nodes@
        &&& self.created_links@ == other.created_links@
    }

    /// Forgets the proxy of a removed global and names what was removed: a
    /// bound node, else a bound link, else (as nothing else is bound) a port.
    pub fn remove_global(&mut self, id: u32) -> (r: PwEvent)
        ensures
            final(self).same_records(old(self)),
            old(self).nodes@.contains_key(id) ==> {
                &&& r == (PwEvent::NodeRemoved { id })
                &&& final(self).nodes@ == old(self).nodes@.remove(id)
                &&& final(self).links@ == old(self).links@
            },
            !old(self).nodes@.contains_key(id) && old(self).links@.contains_key(id) ==> {
                &&& r == (PwEvent::LinkRemoved { id })
                &&& final(self).nodes@ == old(self).nodes@
                &&& final(self).links@ == old(self).links@.remove(id)
            },
            !old(self).nodes@.contains_key(id) && !old(self).links@.contains_key(id) ==> {
                &&& r == (PwEvent::PortRemoved { id })
                &&& final(self).nodes@ == old(self).nodes@
                &&& final(self).links@ == old(self).links@
            },
    {
        if self.nodes.remove(&id).is_some() {
            PwEvent::NodeRemoved { id }
        } else if self.links.remove(&id).is_some() {
            PwEvent::LinkRemoved { id }
        } else {
            PwEvent::PortRemoved { id }
        }
    }

    /// Records the node a bus became and announces it.
    pub fn record_bus_node(&mut self, bus_id: BusId, node_id: u32) -> (r: PwEvent)
        ensures
            r == (PwEvent::BusCreated { bus_id, node_id }),
            final(self).bus_nodes@ == old(self).bus_nodes@.insert(bus_id.0, node_id),
            final(self).nodes@ == old(self).nodes@,
            final(self).links@ == old(self).links@,
            final(self).virtual_input_nodes@ == old(self).virtual_input_nodes@,
            final(self).virtual_output_nodes@ == old(self).virtual_output_nodes@,
            final(self).created_nodes@ == old(self).created_nodes@,
            final(self).created_links@ == old(self).created_links@,
    {
        self.bus_nodes.insert(bus_id.0, node_id);
        PwEvent::BusCreated { bus_id, node_id }
    }

    /// Records the node a virtual input became and announces it.
    pub fn record_virtual_input_node(&mut self, strip_id: StripId, node_id: u32) -> (r: PwEvent)
        ensures
            r == (PwEvent::VirtualInputCreated { strip_id, node_id }),
            final(self).virtual_input_nodes@ == old(self).virtual_input_nodes@.insert(strip_id.0, node_id),
            final(self).nodes@ == old(self).nodes@,
            final(self).links@ == old(self).links@,
            final(self).bus_nodes@ == old(self).bus_nodes@,
            final(self).virtual_output_nodes@ == old(self).virtual_output_nodes@,
            final(self).created_nodes@ == old(self).created_nodes@,
            final(self).created_links@ == old(self).created_links@,
    {
        self.virtual_input_nodes.insert(strip_id.0, node_id);
        PwEvent::VirtualInputCreated { strip_id, node_id }
    }

    /// Records the node a virtual output became and announces it.
    pub fn record_virtual_output_node(&mut self, voutput_id: VirtualOutputId, node_id: u32) -> (r: PwEvent)
        ensures
            r == (PwEvent::VirtualOutputCreated { voutput_id, node_id }),
            final(self).virtual_output_nodes@ == old(self).virtual_output_nodes@.insert(voutput_id.0, node_id),
            final(self).nodes@ == old(self).nodes@,
            final(self).links@ == old(self).links@,
            final(self).bus_nodes@ == old(self).bus_nodes@,
            final(self).virtual_input_nodes@ == old(self).virtual_input_nodes@,
            final(self).created_nodes@ == old(self).created_nodes@,
            final(self).created_links@ == old(self).created_links@,
    {
        self.virtual_output_nodes.insert(voutput_id.0, node_id);
        PwEvent::VirtualOutputCreated { voutput_id, node_id }
    }

    /// Forgets which node a created object became and hands back that
    /// node's bound proxy, if it is still bound, for destruction.
    fn take_created(records: &mut HashMap<u32, u32>, nodes: &mut HashMap<u32, N>, key: u32) -> (r: Option<N>)
        ensures
            final(records)@ == old(records)@.remove(key),
            old(records)@.contains_key(key) && old(nodes)@.contains_key(old(records)@[key]) ==> {
                &&& r == Some(old(nodes)@[old(records)@[key]])
                &&& final(nodes)@ == old(nodes)@.remove(old(records)@[key])
            },
            !(old(records)@.contains_key(key) && old(nodes)@.contains_key(old(records)@[key])) ==> {
                &&& r is None
                &&& final(nodes)@ == old(nodes)@
            },
    {
        match records.remove(&key) {
            Some(node_id) => nodes.remove(&node_id),
            None => None,
        }
    }

    /// Forgets the node a bus became and hands back its bound proxy, if
    /// any, for destruction.
    pub fn take_bus_node(&mut self, bus_id: BusId) -> (r: Option<N>)
        ensures
            final(self).bus_nodes@ == old(self).bus_nodes@.remove(bus_id.0),
            final(self).links@ == old(self).links@,
            final(self).virtual_input_nodes@ == old(self).virtual_input_nodes@,
            final(self).virtual_output_nodes@ == old(self).virtual_output_nodes@,
            final(self).created_nodes@ == old(self).created_nodes@,
            final(self).created_links@ == old(self).created_links@,
            ({
                let rec = old(self).bus_nodes@;
                let k = bus_id.0;
                if rec.contains_key(k) && old(self).nodes@.contains_key(rec[k]) {
                    r == Some(old(self).nodes@[rec[k]]) && final(self).nodes@ == old(self).nodes@.remove(rec[k])
                } else {
                    r is None && final(self).nodes@ == old(self).nodes@
                }
            }),
    {
        Self::take_created(&mut self.bus_nodes, &mut self.nodes, bus_id.0)
    }

    /// Forgets the node a virtual input became and hands back its bound
    /// proxy, if any, for destruction.
    pub fn take_virtual_input_node(&mut self, strip_id: StripId) -> (r: Option<N>)
        ensures
            final(self).virtual_input_nodes@ == old(self).virtual_input_nodes@.remove(strip_id.0),
            final(self).links@ == old(self).links@,
            final(self).bus_nodes@ == old(self).bus_nodes@,
            final(self).virtual_output_nodes@ == old(self).virtual_output_nodes@,
            final(self).created_nodes@ == old(self).created_nodes@,
            final(self).created_links@ == old(self).created_links@,
            ({
                let rec = old(self).virtual_input_nodes@;
                let k = strip_id.0;
                if rec.contains_key(k) && old(self).nodes@.contains_key(rec[k]) {
                    r == Some(old(self).nodes@[rec[k]]) && final(self).nodes@ == old(self).nodes@.remove(rec[k])
                } else {
                    r is None && final(self).nodes@ == old(self).nodes@
                }
            }),
    {
        Self::take_created(&mut self.virtual_input_nodes, &mut self.nodes, strip_id.0)
    }

    /// Forgets the node a virtual output became and hands back its bound
    /// proxy, if any, for destruction.
    pub fn take_virtual_output_node(&mut self, voutput_id: VirtualOutputId) -> (r: Option<N>)
        ensures
            final(self).virtual_output_nodes@ == old(self).virtual_output_nodes@.remove(voutput_id.0),
            final(self).links@ == old(self).links@,
            final(self).bus_nodes@ == old(self).bus_nodes@,
            final(self).virtual_input_nodes@ == old(self).virtual_input_nodes@,
            final(self).created_nodes@ == old(self).created_nodes@,
            final(self).created_links@ == old(self).created_links@,
            ({
                let rec = old(self).virtual_output_nodes@;
                let k = voutput_id.0;
                if rec.contains_key(k) && old(self).nodes@.contains_key(rec[k]) {
                    r == Some(old(self).nodes@[rec[k]]) && final(self).nodes@ == old(self).nodes@.remove(rec[k])
                } else {
                    r is None && final(self).nodes@ == old(self).nodes@
                }
            }),
    {
        Self::take_created(&mut self.virtual_output_nodes, &mut self.nodes, voutput_id.0)
    }
}

} // verus!
