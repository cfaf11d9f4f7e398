//! The mirror of the PipeWire graph: nodes, ports, links, and which ports
//! belong to which node.
use std::collections::HashMap;
use vstd::prelude::*;

use crate::order::{
    ascending, ascending_keys, first_key_where, keys_where, lemma_keys_below_members, lemma_keys_where_members,
    lemma_keys_where_step,
};
use crate::pw::message::{LinkState, PortDirection};
use crate::text::{has_prefix, same_text, starts_with};

verus! {

broadcast use vstd::std_specs::hash::group_hash_axioms;

/// A PipeWire node as the mixer sees it.
#[derive(Debug)]
pub struct NodeInfo {
    pub id: u32,
    pub name: String,
    pub description: String,
    pub media_class: String,
    /// Per-channel gains, as `f32` bit patterns.
    pub volumes: Vec<u32>,
    pub muted: bool,
    /// The node's properties, one pair per key, in the order the keys were
    /// first listed.
    pub properties: Vec<(String, String)>,
}

/// A port of a node.
#[derive(Debug)]
pub struct PortInfo {
    pub id: u32,
    pub node_id: u32,
    pub name: String,
    pub direction: PortDirection,
}

/// A link from an output port to an input port.
#[derive(Clone, Copy, Debug)]
pub struct LinkInfo {
    pub id: u32,
    pub output_port_id: u32,
    pub input_port_id: u32,
    pub state: LinkState,
}

/// The audio graph: objects keyed by their PipeWire id, and for each node
/// the ids of the ports announced for it, in announcement order.
#[derive(Debug)]
pub struct PwGraph {
    pub nodes: HashMap<u32, NodeInfo>,
    pub ports: HashMap<u32, PortInfo>,
    pub links: HashMap<u32, LinkInfo>,
    pub node_ports: HashMap<u32, Vec<u32>>,
}

/// The mathematical content of a [`PwGraph`].
pub struct GraphView {
    pub nodes: Map<u32, NodeInfo>,
    pub ports: Map<u32, PortInfo>,
    pub links: Map<u32, LinkInfo>,
    pub node_ports: Map<u32, Seq<u32>>,
}

impl View for PwGraph {
    type V = GraphView;

    open spec fn view(&self) -> GraphView {
        GraphView {
            nodes: self.nodes@,
            ports: self.ports@,
            links: self.links@,
            node_ports: self.node_ports@.map_values(|v: Vec<u32>| v@),
        }
    }
}

/// The values behind a sequence of references.
pub open spec fn derefs<T>(r: Seq<&T>) -> Seq<T> {
    r.map_values(|p: &T| *p)
}

/// The ports named by `ids` that `ports` knows, in the order of `ids`.
pub open spec fn listed_ports(ids: Seq<u32>, ports: Map<u32, PortInfo>) -> Seq<PortInfo>
    decreases ids.len(),
{
    if ids.len() == 0 {
        Seq::empty()
    } else {
        let prev = listed_ports(ids.drop_last(), ports);
        if ports.contains_key(ids.last()) {
            prev.push(ports[ids.last()])
        } else {
            prev
        }
    }
}

/// The ports of `s` with direction `d`, in order.
pub open spec fn with_direction(s: Seq<PortInfo>, d: PortDirection) -> Seq<PortInfo>
    decreases s.len(),
{
    if s.len() == 0 {
        Seq::empty()
    } else {
        let prev = with_direction(s.drop_last(), d);
        if s.last().direction == d {
            prev.push(s.last())
        } else {
            prev
        }
    }
}

/// `s` without any occurrence of `x`.
pub open spec fn without(s: Seq<u32>, x: u32) -> Seq<u32>
    decreases s.len(),
{
    if s.len() == 0 {
        Seq::empty()
    } else {
        let prev = without(s.drop_last(), x);
        if s.last() != x {
            prev.push(s.last())
        } else {
            prev
        }
    }
}

/// A media class that the mixer treats as audio.
pub open spec fn is_audio_class(mc: Seq<char>) -> bool {
    has_prefix(mc, "Audio/"@) || has_prefix(mc, "Stream/"@)
}

/// A media class of a node that plays audio (a sink).
pub open spec fn is_sink_class(mc: Seq<char>) -> bool {
    mc == "Audio/Sink"@ || mc == "Audio/Duplex"@
}

/// A media class of a node that captures audio (a source).
pub open spec fn is_source_class(mc: Seq<char>) -> bool {
    mc == "Audio/Source"@ || mc == "Audio/Duplex"@
}

/// The nodes named by `keys`, in order.
pub open spec fn nodes_at(keys: Seq<u32>, nodes: Map<u32, NodeInfo>) -> Seq<NodeInfo> {
    keys.map_values(|k: u32| nodes[k])
}

impl GraphView {
    /// The known ports listed for `node`, in announcement order.
    pub open spec fn ports_of(self, node: u32) -> Seq<PortInfo> {
        if self.node_ports.contains_key(node) {
            listed_ports(self.node_ports[node], self.ports)
        } else {
            Seq::empty()
        }
    }

    /// The output ports of `node`, in announcement order.
    pub open spec fn outputs_of(self, node: u32) -> Seq<PortInfo> {
        with_direction(self.ports_of(node), PortDirection::Output)
    }

    /// The input ports of `node`, in announcement order.
    pub open spec fn inputs_of(self, node: u32) -> Seq<PortInfo> {
        with_direction(self.ports_of(node), PortDirection::Input)
    }

    /// `node` is known and has an audio media class.
    pub open spec fn is_audio(self, node: u32) -> bool {
        self.nodes.contains_key(node) && is_audio_class(self.nodes[node].media_class@)
    }

    /// The link with the lowest id from `output_port_id` to `input_port_id`.
    pub open spec fn link_between_ports(self, output_port_id: u32, input_port_id: u32) -> Option<u32> {
        first_key_where(
            ascending(self.links.dom()),
            |k: u32| self.links[k].output_port_id == output_port_id && self.links[k].input_port_id == input_port_id,
        )
    }

    /// Ids of the sink nodes, ascending.
    pub open spec fn sink_ids(self) -> Seq<u32> {
        keys_where(ascending(self.nodes.dom()), |k: u32| is_sink_class(self.nodes[k].media_class@))
    }

    /// Ids of the source nodes, ascending.
    pub open spec fn source_ids(self) -> Seq<u32> {
        keys_where(ascending(self.nodes.dom()), |k: u32| is_source_class(self.nodes[k].media_class@))
    }
}

impl Default for PwGraph {
    fn default() -> (g: Self)
        ensures
            g@.nodes == Map::<u32, NodeInfo>::empty(),
            g@.ports == Map::<u32, PortInfo>::empty(),
            g@.links == Map::<u32, LinkInfo>::empty(),
            g@.node_ports == Map::<u32, Seq<u32>>::empty(),
    {
        let g = PwGraph {
            nodes: HashMap::new(),
            ports: HashMap::new(),
            links: HashMap::new(),
            node_ports: HashMap::new(),
        };
        proof {
            assert(g@.node_ports =~= Map::<u32, Seq<u32>>::empty());
        }
        g
    }
}

impl PwGraph {
    /// Records a node (replacing one with the same id) and gives it an
    /// empty port list unless it already has one.
    pub fn add_node(&mut self, info: NodeInfo)
        ensures
            final(self)@.nodes == old(self)@.nodes.insert(info.id, info),
            final(self)@.node_ports == if old(self)@.node_ports.contains_key(info.id) {
                old(self)@.node_ports
            } else {
                old(self)@.node_ports.insert(info.id, Seq::empty())
            },
            final(self)@.ports == old(self)@.ports,
            final(self)@.links == old(self)@.links,
    {
        let id = info.id;
        if !self.node_ports.contains_key(&id) {
            self.node_ports.insert(id, Vec::new());
        }
        self.nodes.insert(id, info);
        proof {
            assert(self@.node_ports =~= (if old(self)@.node_ports.contains_key(id) {
                old(self)@.node_ports
            } else {
                old(self)@.node_ports.insert(id, Seq::empty())
            }));
        }
    }

    /// Forgets a node and its port list (its ports stay known).
    pub fn remove_node(&mut self, id: u32)
        ensures
            final(self)@.nodes == old(self)@.nodes.remove(id),
            final(self)@.node_ports == old(self)@.node_ports.remove(id),
            final(self)@.ports == old(self)@.ports,
            final(self)@.links == old(self)@.links,
    {
        self.nodes.remove(&id);
        self.node_ports.remove(&id);
        proof {
            assert(self@.node_ports =~= old(self)@.node_ports.remove(id));
        }
    }

    /// Records a port and appends its id to its node's port list.
    pub fn add_port(&mut self, info: PortInfo)
        ensures
            final(self)@.ports == old(self)@.ports.insert(info.id, info),
            final(self)@.node_ports == old(self)@.node_ports.insert(
                info.node_id,
                if old(self)@.node_ports.contains_key(info.node_id) {
                    old(self)@.node_ports[info.node_id]
                } else {
                    Seq::empty()
                }.push(info.id),
            ),
            final(self)@.nodes == old(self)@.nodes,
            final(self)@.links == old(self)@.links,
    {
        let id = info.id;
        let node_id = info.node_id;
        let mut list = match self.node_ports.remove(&node_id) {
            Some(v) => v,
            None => Vec::new(),
        };
        list.push(id);
        self.node_ports.insert(node_id, list);
        self.ports.insert(id, info);
        proof {
            assert(self@.node_ports =~= old(self)@.node_ports.insert(
                node_id,
                if old(self)@.node_ports.contains_key(node_id) {
                    old(self)@.node_ports[node_id]
                } else {
                    Seq::empty()
                }.push(id),
            ));
        }
    }

    /// Forgets a port and removes its id from its node's port list.
    pub fn remove_port(&mut self, id: u32)
        ensures
            final(self)@.ports == old(self)@.ports.remove(id),
            final(self)@.node_ports == if old(self)@.ports.contains_key(id) && old(self)@.node_ports.contains_key(
                old(self)@.ports[id].node_id,
            ) {
                old(self)@.node_ports.insert(
                    old(self)@.ports[id].node_id,
                    without(old(self)@.node_ports[old(self)@.ports[id].node_id], id),
                )
            } else {
                old(self)@.node_ports
            },
            final(self)@.nodes == old(self)@.nodes,
            final(self)@.links == old(self)@.links,
    {
        if let Some(port) = self.ports.remove(&id) {
            let node_id = port.node_id;
            if let Some(list) = self.node_ports.remove(&node_id) {
                let mut kept: Vec<u32> = Vec::new();
                for i in 0..list.len()
                    invariant
                        kept@ == without(list@.take(i as int), id),
                {
                    proof {
                        assert(list@.take(i + 1).drop_last() =~= list@.take(i as int));
                    }
                    if list[i] != id {
                        kept.push(list[i]);
                    }
                }
                proof {
                    assert(list@.take(list@.len() as int) =~= list@);
                }
                self.node_ports.insert(node_id, kept);
            }
        }
        proof {
            assert(self@.node_ports =~= (if old(self)@.ports.contains_key(id) && old(self)@.node_ports.contains_key(
                old(self)@.ports[id].node_id,
            ) {
                old(self)@.node_ports.insert(
                    old(self)@.ports[id].node_id,
                    without(old(self)@.node_ports[old(self)@.ports[id].node_id], id),
                )
            } else {
                old(self)@.node_ports
            }));
        }
    }

    /// Records a link (replacing one with the same id).
    pub fn add_link(&mut self, info: LinkInfo)
        ensures
            final(self)@.links == old(self)@.links.insert(info.id, info),
            final(self)@.nodes == old(self)@.nodes,
            final(self)@.ports == old(self)@.ports,
            final(self)@.node_ports == old(self)@.node_ports,
    {
        self.links.insert(info.id, info);
    }

    /// Forgets a link.
    pub fn remove_link(&mut self, id: u32)
        ensures
            final(self)@.links == old(self)@.links.remove(id),
            final(self)@.nodes == old(self)@.nodes,
            final(self)@.ports == old(self)@.ports,
            final(self)@.node_ports == old(self)@.node_ports,
    {
        self.links.remove(&id);
    }

    /// The known ports listed for `node_id`, in announcement order.
    pub fn ports_for_node(&self, node_id: u32) -> (r: Vec<&PortInfo>)
        ensures
            derefs(r@) == self@.ports_of(node_id),
    {
        let mut r: Vec<&PortInfo> = Vec::new();
        match self.node_ports.get(&node_id) {
            None => {
                proof {
                    assert(derefs(r@) =~= Seq::<PortInfo>::empty());
                }
                r
            },
            Some(ids) => {
                proof {
                    assert(self@.node_ports[node_id] == ids@);
                }
                for i in 0..ids.len()
                    invariant
                        derefs(r@) == listed_ports(ids@.take(i as int), self@.ports),
                {
                    proof {
                        assert(ids@.take(i + 1).drop_last() =~= ids@.take(i as int));
                    }
                    match self.ports.get(&ids[i]) {
                        Some(p) => {
                            r.push(p);
                            proof {
                                assert(derefs(r@) =~= listed_ports(ids@.take(i as int), self@.ports).push(*p));
                            }
                        },
                        None => {},
                    }
                }
                proof {
                    assert(ids@.take(ids@.len() as int) =~= ids@);
                }
                r
            },
        }
    }

    /// The known ports of `node_id` with direction `d`, in announcement order.
    fn ports_with_direction(&self, node_id: u32, d: PortDirection) -> (r: Vec<&PortInfo>)
        ensures
            derefs(r@) == with_direction(self@.ports_of(node_id), d),
    {
        let all = self.ports_for_node(node_id);
        let mut r: Vec<&PortInfo> = Vec::new();
        for i in 0..all.len()
            invariant
                derefs(all@) == self@.ports_of(node_id),
                derefs(r@) == with_direction(derefs(all@).take(i as int), d),
        {
            proof {
                assert(derefs(all@).take(i + 1).drop_last() =~= derefs(all@).take(i as int));
                assert(derefs(all@)[i as int] == *all@[i as int]);
            }
            let p = all[i];
            if p.direction == d {
                r.push(p);
                proof {
                    assert(derefs(r@) =~= with_direction(derefs(all@).take(i as int), d).push(*p));
                }
            }
        }
        proof {
            assert(derefs(all@).take(all@.len() as int) =~= derefs(all@));
        }
        r
    }

    /// The output ports of `node_id`, in announcement order.
    pub fn output_ports_for_node(&self, node_id: u32) -> (r: Vec<&PortInfo>)
        ensures
            derefs(r@) == self@.outputs_of(node_id),
    {
        self.ports_with_direction(node_id, PortDirection::Output)
    }

    /// The input ports of `node_id`, in announcement order.
    pub fn input_ports_for_node(&self, node_id: u32) -> (r: Vec<&PortInfo>)
        ensures
            derefs(r@) == self@.inputs_of(node_id),
    {
        self.ports_with_direction(node_id, PortDirection::Input)
    }

    /// Whether `node_id` is a known node whose media class starts with
    /// `Audio/` or `Stream/`.
    pub fn is_audio_node(&self, node_id: u32) -> (r: bool)
        ensures
            r == self@.is_audio(node_id),
    {
        match self.nodes.get(&node_id) {
            Some(n) => starts_with(n.media_class.as_str(), "Audio/") || starts_with(
                n.media_class.as_str(),
                "Stream/",
            ),
            None => false,
        }
    }

    #[verifier::loop_isolation(false)]
    /// The lowest-numbered link from `output_port_id` to `input_port_id`.
    pub fn find_link(&self, output_port_id: u32, input_port_id: u32) -> (r: Option<u32>)
        ensures
            r == self@.link_between_ports(output_port_id, input_port_id),
    {
        let keys = ascending_keys(&self.links);
        let ghost p = |k: u32|
            self@.links[k].output_port_id == output_port_id && self@.links[k].input_port_id == input_port_id;
        let mut found: Option<u32> = None;
        for i in 0..keys.len()
            invariant
                keys@ == ascending(self@.links.dom()),
                found == first_key_where(keys@.take(i as int), p),
                forall|j: int| 0 <= j < keys@.len() ==> self@.links.contains_key(#[trigger] keys@[j]),
        {
            proof {
                lemma_keys_where_step(keys@, p, i as int);
            }
            let k = keys[i];
            if found.is_none() {
                let l = self.links.get(&k).unwrap();
                if l.output_port_id == output_port_id && l.input_port_id == input_port_id {
                    found = Some(k);
                }
            }
        }
        proof {
            assert(keys@.take(keys@.len() as int) =~= keys@);
        }
        found
    }

    /// The nodes whose id is in `wanted`, ascending by id.
    fn nodes_by_id(&self, ids: &Vec<u32>) -> (r: Vec<&NodeInfo>)
        requires
            forall|j: int| 0 <= j < ids@.len() ==> self@.nodes.contains_key(#[trigger] ids@[j]),
        ensures
            derefs(r@) == nodes_at(ids@, self@.nodes),
    {
        let mut r: Vec<&NodeInfo> = Vec::new();
        for i in 0..ids.len()
            invariant
                forall|j: int| 0 <= j < ids@.len() ==> self@.nodes.contains_key(#[trigger] ids@[j]),
                derefs(r@) == nodes_at(ids@.take(i as int), self@.nodes),
                r@.len() == i,
        {
            let n = self.nodes.get(&ids[i]).unwrap();
            let ghost before = r@;
            r.push(n);
            proof {
                assert(r@ == before.push(n));
                assert forall|j: int| 0 <= j < i + 1 implies derefs(r@)[j] == nodes_at(ids@.take(i + 1), self@.nodes)[j] by {
                    if j < i {
                        assert(derefs(before)[j] == nodes_at(ids@.take(i as int), self@.nodes)[j]);
                    }
                }
                assert(derefs(r@) =~= nodes_at(ids@.take(i + 1), self@.nodes));
            }
        }
        proof {
            assert(ids@.take(ids@.len() as int) =~= ids@);
        }
        r
    }

    #[verifier::loop_isolation(false)]
    /// The ids of the sink nodes (when `sinks`) or of the source nodes, ascending.
    fn ids_with_class(&self, sinks: bool) -> (r: Vec<u32>)
        ensures
            r@ == if sinks { self@.sink_ids() } else { self@.source_ids() },
            forall|j: int| 0 <= j < r@.len() ==> self@.nodes.contains_key(#[trigger] r@[j]),
    {
        let a = if sinks { "Audio/Sink" } else { "Audio/Source" };
        let b = "Audio/Duplex";
        let keys = ascending_keys(&self.nodes);
        let ghost p = |k: u32| self@.nodes[k].media_class@ == a@ || self@.nodes[k].media_class@ == b@;
        let mut r: Vec<u32> = Vec::new();
        for i in 0..keys.len()
            invariant
                keys@ == ascending(self@.nodes.dom()),
                r@ == keys_where(keys@.take(i as int), p),
                forall|j: int| 0 <= j < keys@.len() ==> self@.nodes.contains_key(#[trigger] keys@[j]),
                forall|j: int| 0 <= j < r@.len() ==> self@.nodes.contains_key(#[trigger] r@[j]),
        {
            proof {
                lemma_keys_where_step(keys@, p, i as int);
            }
            let k = keys[i];
            let n = self.nodes.get(&k).unwrap();
            let hit = same_text(n.media_class.as_str(), a) || same_text(n.media_class.as_str(), b);
            proof {
                assert(keys@[i as int] == k);
                assert(self@.nodes[k] == *n);
            }
            if hit {
                r.push(k);
            }
        }
        proof {
            assert(keys@.take(keys@.len() as int) =~= keys@);
            if sinks {
                assert(p =~= (|k: u32| is_sink_class(self@.nodes[k].media_class@)));
            } else {
                assert(p =~= (|k: u32| is_source_class(self@.nodes[k].media_class@)));
            }
        }
        r
    }

    /// The sink nodes (`Audio/Sink` or `Audio/Duplex`), ascending by id.
    pub fn audio_sink_nodes(&self) -> (r: Vec<&NodeInfo>)
        ensures
            derefs(r@) == nodes_at(self@.sink_ids(), self@.nodes),
    {
        let ids = self.ids_with_class(true);
        self.nodes_by_id(&ids)
    }

    /// The source nodes (`Audio/Source` or `Audio/Duplex`), ascending by id.
    pub fn audio_source_nodes(&self) -> (r: Vec<&NodeInfo>)
        ensures
            derefs(r@) == nodes_at(self@.source_ids(), self@.nodes),
    {
        let ids = self.ids_with_class(false);
        self.nodes_by_id(&ids)
    }
}

/// A link joins the two ports.
pub open spec fn link_joins(links: Map<u32, LinkInfo>, k: u32, output_port_id: u32, input_port_id: u32) -> bool {
    links.contains_key(k) && links[k].output_port_id == output_port_id && links[k].input_port_id == input_port_id
}

proof fn lemma_link_between_joins(g: GraphView, output_port_id: u32, input_port_id: u32)
    ensures
        match g.link_between_ports(output_port_id, input_port_id) {
            Some(k) => link_joins(g.links, k, output_port_id, input_port_id),
            None => forall|k: u32| !link_joins(g.links, k, output_port_id, input_port_id),
        },
{
    let p = |k: u32| g.links[k].output_port_id == output_port_id && g.links[k].input_port_id == input_port_id;
    let keys = ascending(g.links.dom());
    lemma_keys_below_members(g.links.dom(), 0x1_0000_0000);
    lemma_keys_where_members(keys, p);
    let found = keys_where(keys, p);
    if found.len() > 0 {
        assert(p(found[0]) && keys.contains(found[0]));
    } else {
        assert forall|k: u32| !link_joins(g.links, k, output_port_id, input_port_id) by {
            if link_joins(g.links, k, output_port_id, input_port_id) {
                assert(keys.contains(k));
                assert(found.contains(k));
            }
        }
    }
}

/// A link is found between its ports as long as it is there: after a link
/// is added, looking up its output and input ports finds a link joining
/// them (this one, or another one with a lower id); after a link is
/// removed, the lookup never gives it; and the lookup gives nothing exactly
/// when no link joins the two ports.
pub proof fn lemma_link_lookup(g: GraphView, l: LinkInfo, id: u32, output_port_id: u32, input_port_id: u32)
    ensures
        ({
            let h = GraphView { links: g.links.insert(l.id, l), ..g };
            match h.link_between_ports(l.output_port_id, l.input_port_id) {
                Some(k) => link_joins(h.links, k, l.output_port_id, l.input_port_id),
                None => false,
            }
        }),
        ({
            let h = GraphView { links: g.links.remove(id), ..g };
            h.link_between_ports(output_port_id, input_port_id) != Some(id)
        }),
        g.link_between_ports(output_port_id, input_port_id) is None <==> forall|k: u32|
            !link_joins(g.links, k, output_port_id, input_port_id),
{
    let h1 = GraphView { links: g.links.insert(l.id, l), ..g };
    lemma_link_between_joins(h1, l.output_port_id, l.input_port_id);
    assert(link_joins(h1.links, l.id, l.output_port_id, l.input_port_id));
    let h2 = GraphView { links: g.links.remove(id), ..g };
    lemma_link_between_joins(h2, output_port_id, input_port_id);
    lemma_link_between_joins(g, output_port_id, input_port_id);
}

} // verus!
