//! Runtime state: the mirrored graph, the configuration, and which
//! PipeWire node each bus, strip and virtual output got.
use std::collections::HashMap;
use vstd::prelude::*;

use crate::model::config::AppConfig;
use crate::order::{ascending, ascending_keys, first_key_where, keys_where, lemma_keys_where_step};
use crate::pw::graph::{GraphView, PwGraph};
use crate::pw::message::{BusId, StripId, VirtualOutputId};
use crate::text::same_text;

verus! {

broadcast use vstd::std_specs::hash::group_hash_axioms;

/// What `m` maps `k` to, if anything.
pub open spec fn lookup(m: Map<u32, u32>, k: u32) -> Option<u32> {
    if m.contains_key(k) {
        Some(m[k])
    } else {
        None
    }
}

impl GraphView {
    /// The key of the lowest-numbered node named `name`.
    pub open spec fn node_key_named(self, name: Seq<char>) -> Option<u32> {
        first_key_where(ascending(self.nodes.dom()), |k: u32| self.nodes[k].name@ == name)
    }

    /// The id of the lowest-numbered node named `name`.
    pub open spec fn node_named(self, name: Seq<char>) -> Option<u32> {
        match self.node_key_named(name) {
            Some(k) => Some(self.nodes[k].id),
            None => None,
        }
    }
}

/// Everything the mixer knows at run time.
#[derive(Debug)]
pub struct AppState {
    pub graph: PwGraph,
    pub config: AppConfig,
    /// Bus id number to the node that carries the bus.
    pub bus_node_map: HashMap<u32, u32>,
    /// Strip id number to the node of the virtual input.
    pub strip_node_map: HashMap<u32, u32>,
    /// Node to the bus it carries.
    pub node_bus_map: HashMap<u32, BusId>,
    /// Node to the strip it carries.
    pub node_strip_map: HashMap<u32, StripId>,
    /// Virtual output id number to its node.
    pub voutput_node_map: HashMap<u32, u32>,
    /// Node to the virtual output it carries.
    pub node_voutput_map: HashMap<u32, VirtualOutputId>,
    /// Routing from the configuration still has to be restored.
    pub restore_pending: bool,
    /// Nodes left over from an earlier run have been destroyed.
    pub cleanup_done: bool,
}

impl AppState {
    /// A state over `config` with an empty graph, nothing registered, a
    /// restore pending and no cleanup done.
    pub fn new(config: AppConfig) -> (s: Self)
        ensures
            s.config == config,
            s.graph@.nodes == Map::<u32, crate::pw::graph::NodeInfo>::empty(),
            s.graph@.ports == Map::<u32, crate::pw::graph::PortInfo>::empty(),
            s.graph@.links == Map::<u32, crate::pw::graph::LinkInfo>::empty(),
            s.graph@.node_ports == Map::<u32, Seq<u32>>::empty(),
            s.bus_node_map@ == Map::<u32, u32>::empty(),
            s.strip_node_map@ == Map::<u32, u32>::empty(),
            s.node_bus_map@ == Map::<u32, BusId>::empty(),
            s.node_strip_map@ == Map::<u32, StripId>::empty(),
            s.voutput_node_map@ == Map::<u32, u32>::empty(),
            s.node_voutput_map@ == Map::<u32, VirtualOutputId>::empty(),
            s.restore_pending,
            !s.cleanup_done,
    {
        AppState {
            graph: PwGraph::default(),
            config,
            bus_node_map: HashMap::new(),
            strip_node_map: HashMap::new(),
            node_bus_map: HashMap::new(),
            node_strip_map: HashMap::new(),
            voutput_node_map: HashMap::new(),
            node_voutput_map: HashMap::new(),
            restore_pending: true,
            cleanup_done: false,
        }
    }

    /// The configuration is well formed.
    pub open spec fn well_formed(&self) -> bool {
        self.config.well_formed()
    }

    /// The parts of the state that registering a node leaves alone.
    pub open spec fn same_except_registrations(&self, other: &AppState) -> bool {
        &&& self.graph == other.graph
        &&& self.config == other.config
        &&& self.restore_pending == other.restore_pending
        &&& self.cleanup_done == other.cleanup_done
    }

    /// Records that `node_id` carries `bus_id`, in both directions.
    pub fn register_bus(&mut self, bus_id: BusId, node_id: u32)
        ensures
            final(self).bus_node_map@ == old(self).bus_node_map@.insert(bus_id.0, node_id),
            final(self).node_bus_map@ == old(self).node_bus_map@.insert(node_id, bus_id),
            final(self).strip_node_map@ == old(self).strip_node_map@,
            final(self).node_strip_map@ == old(self).node_strip_map@,
            final(self).voutput_node_map@ == old(self).voutput_node_map@,
            final(self).node_voutput_map@ == old(self).node_voutput_map@,
            final(self).same_except_registrations(old(self)),
    {
        self.bus_node_map.insert(bus_id.0, node_id);
        self.node_bus_map.insert(node_id, bus_id);
    }

    /// Records that `node_id` carries the strip `strip_id`, in both directions.
    pub fn register_strip(&mut self, strip_id: StripId, node_id: u32)
        ensures
            final(self).strip_node_map@ == old(self).strip_node_map@.insert(strip_id.0, node_id),
            final(self).node_strip_map@ == old(self).node_strip_map@.insert(node_id, strip_id),
            final(self).bus_node_map@ == old(self).bus_node_map@,
            final(self).node_bus_map@ == old(self).node_bus_map@,
            final(self).voutput_node_map@ == old(self).voutput_node_map@,
            final(self).node_voutput_map@ == old(self).node_voutput_map@,
            final(self).same_except_registrations(old(self)),
    {
        self.strip_node_map.insert(strip_id.0, node_id);
        self.node_strip_map.insert(node_id, strip_id);
    }

    /// Records that `node_id` carries the virtual output `voutput_id`, in both directions.
    pub fn register_voutput(&mut self, voutput_id: VirtualOutputId, node_id: u32)
        ensures
            final(self).voutput_node_map@ == old(self).voutput_node_map@.insert(voutput_id.0, node_id),
            final(self).node_voutput_map@ == old(self).node_voutput_map@.insert(node_id, voutput_id),
            final(self).bus_node_map@ == old(self).bus_node_map@,
            final(self).node_bus_map@ == old(self).node_bus_map@,
            final(self).strip_node_map@ == old(self).strip_node_map@,
            final(self).node_strip_map@ == old(self).node_strip_map@,
            final(self).same_except_registrations(old(self)),
    {
        self.voutput_node_map.insert(voutput_id.0, node_id);
        self.node_voutput_map.insert(node_id, voutput_id);
    }

    /// The node registered for `bus_id`.
    pub fn bus_node_id(&self, bus_id: BusId) -> (r: Option<u32>)
        ensures
            r == lookup(self.bus_node_map@, bus_id.0),
    {
        match self.bus_node_map.get(&bus_id.0) {
            Some(n) => Some(*n),
            None => None,
        }
    }

    /// The node registered for the strip `strip_id`.
    pub fn strip_node_id(&self, strip_id: StripId) -> (r: Option<u32>)
        ensures
            r == lookup(self.strip_node_map@, strip_id.0),
    {
        match self.strip_node_map.get(&strip_id.0) {
            Some(n) => Some(*n),
            None => None,
        }
    }

    /// The node registered for the virtual output `voutput_id`.
    pub fn voutput_node_id(&self, voutput_id: VirtualOutputId) -> (r: Option<u32>)
        ensures
            r == lookup(self.voutput_node_map@, voutput_id.0),
    {
        match self.voutput_node_map.get(&voutput_id.0) {
            Some(n) => Some(*n),
            None => None,
        }
    }

    /// The id of the lowest-numbered node named `node_name`.
    pub fn find_hardware_node_by_name(&self, node_name: &str) -> (r: Option<u32>)
        ensures
            r == self.graph@.node_named(node_name@),
    {
        match self.find_node_key_by_name(node_name) {
            Some(k) => Some(self.graph.nodes.get(&k).unwrap().id),
            None => None,
        }
    }

    /// The key of the lowest-numbered node named `node_name`.
    #[verifier::loop_isolation(false)]
    pub fn find_node_key_by_name(&self, node_name: &str) -> (r: Option<u32>)
        ensures
            r == self.graph@.node_key_named(node_name@),
            r matches Some(k) ==> self.graph@.nodes.contains_key(k) && self.graph@.nodes[k].name@ == node_name@,
    {
        let keys = ascending_keys(&self.graph.nodes);
        let ghost p = |k: u32| self.graph@.nodes[k].name@ == node_name@;
        let mut found: Option<u32> = None;
        for i in 0..keys.len()
            invariant
                found == first_key_where(keys@.take(i as int), p),
        {
            proof {
                lemma_keys_where_step(keys@, p, i as int);
            }
            let k = keys[i];
            if found.is_none() {
                let n = self.graph.nodes.get(&k).unwrap();
                if same_text(n.name.as_str(), node_name) {
                    found = Some(k);
                }
            }
        }
        proof {
            assert(keys@.take(keys@.len() as int) =~= keys@);
            crate::order::lemma_keys_where_members(keys@, p);
            if found is Some {
                assert(keys_where(keys@, p).contains(found->0));
            }
        }
        found
    }
}

/// What is registered is found: once a bus, strip or virtual output
/// (keyed by the inner value `key` of its identifier `id`) is registered as
/// carried by a node, looking it up gives that node, and the node gives it
/// back; every other registration is as it was.
pub proof fn lemma_registration_found<V>(
    forward: Map<u32, u32>,
    backward: Map<u32, V>,
    key: u32,
    id: V,
    node_id: u32,
    other: u32,
)
    ensures
        lookup(forward.insert(key, node_id), key) == Some(node_id),
        backward.insert(node_id, id)[node_id] == id,
        other != key ==> lookup(forward.insert(key, node_id), other) == lookup(forward, other),
{
}

} // verus!
