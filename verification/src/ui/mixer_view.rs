//! What the mixer view shows: the strips of each section with their route
//! buttons and initial levels, the nodes to meter, and what the "add"
//! buttons create.
use vstd::prelude::*;

use crate::model::bus::{texts, BusConfig, UNITY_GAIN_BITS};
use crate::model::routing::find_links_between;
use crate::model::state::{lookup, AppState};
use crate::model::strip::{kind_is_virtual, StripConfig, StripKind};
use crate::pw::message::{monitored_view, ChannelLayout, CommandView, PwCommand, StripId, VirtualOutputId};
use crate::model::bus::unity_gains;
use crate::ui::channel_strip::{input_source, input_source_node, StripRole};
use crate::order::{ascending, ascending_keys, keys_where, lemma_keys_where_step};
use crate::pw::graph::{is_sink_class, GraphView, NodeInfo};
use crate::pw::message::BusId;
use crate::sorting::{
    insert_sorted, lemma_sort_sorted, lemma_text_le_total, lemma_text_le_transitive, sort_sorted, sorted_by,
};
use crate::text::{decimal, decimal_string, has_prefix, parse_u32, parse_u32_text, starts_with, text_le, text_le_exec};

verus! {

broadcast use vstd::std_specs::hash::group_hash_axioms;

/// The character views of a list of `(key, label)` pairs.
pub open spec fn pairs_view(v: Seq<(String, String)>) -> Seq<(Seq<char>, Seq<char>)> {
    v.map_values(|p: (String, String)| (p.0@, p.1@))
}

/// Route targets of an input strip: one per bus, keyed by the bus id in
/// decimal and labelled with the bus name, in configuration order.
pub open spec fn bus_targets(buses: Seq<BusConfig>) -> Seq<(Seq<char>, Seq<char>)> {
    buses.map_values(|b: BusConfig| (decimal(b.id.0 as nat), b.name@))
}

/// The name a node is shown under: its description, or its name when the
/// description is empty.
pub open spec fn shown_name(n: NodeInfo) -> Seq<char> {
    if n.description@.len() == 0 {
        n.name@
    } else {
        n.description@
    }
}

/// Sinks that the mixer did not create, ascending by id.
pub open spec fn foreign_sink_ids(g: GraphView) -> Seq<u32> {
    keys_where(g.sink_ids(), |k: u32| !has_prefix(g.nodes[k].name@, "blabbergraph."@))
}

/// `x` inserted into `s` after every element whose label is no later than `x`'s.
pub open spec fn insert_by_label(s: Seq<(Seq<char>, Seq<char>)>, x: (Seq<char>, Seq<char>)) -> Seq<(Seq<char>, Seq<char>)>
    decreases s.len(),
{
    if s.len() == 0 {
        seq![x]
    } else if text_le(s.last().1, x.1) {
        s.push(x)
    } else {
        insert_by_label(s.drop_last(), x).push(s.last())
    }
}

/// `s` sorted by label, keeping the order of equal labels.
pub open spec fn sort_by_label(s: Seq<(Seq<char>, Seq<char>)>) -> Seq<(Seq<char>, Seq<char>)>
    decreases s.len(),
{
    if s.len() == 0 {
        s
    } else {
        insert_by_label(sort_by_label(s.drop_last()), s.last())
    }
}

/// Route targets compare by label, in the text order.
pub open spec fn label_le() -> spec_fn((Seq<char>, Seq<char>), (Seq<char>, Seq<char>)) -> bool {
    |a: (Seq<char>, Seq<char>), b: (Seq<char>, Seq<char>)| text_le(a.1, b.1)
}

proof fn lemma_label_sort_is_sort(s: Seq<(Seq<char>, Seq<char>)>)
    ensures
        sort_by_label(s) == sort_sorted(s, label_le()),
    decreases s.len(),
{
    if s.len() > 0 {
        lemma_label_sort_is_sort(s.drop_last());
        let t = sort_by_label(s.drop_last());
        lemma_insert_label_is_insert(t, s.last());
    }
}

proof fn lemma_insert_label_is_insert(s: Seq<(Seq<char>, Seq<char>)>, x: (Seq<char>, Seq<char>))
    ensures
        insert_by_label(s, x) == insert_sorted(s, x, label_le()),
    decreases s.len(),
{
    if s.len() > 0 {
        lemma_insert_label_is_insert(s.drop_last(), x);
    }
}

/// The route buttons of a bus toward the hardware outputs come in label
/// order, and list each sink the mixer did not create once, under its
/// node name and shown name.
pub proof fn lemma_output_targets_sorted(g: GraphView)
    ensures
        sorted_by(output_targets(g), label_le()),
        output_targets(g).to_multiset() == foreign_sink_ids(g).map_values(
            |k: u32| (g.nodes[k].name@, shown_name(g.nodes[k])),
        ).to_multiset(),
{
    let le = label_le();
    assert forall|a: (Seq<char>, Seq<char>), b: (Seq<char>, Seq<char>)| #[trigger] le(a, b) || le(b, a) by {
        lemma_text_le_total(a.1, b.1);
    }
    assert forall|a: (Seq<char>, Seq<char>), b: (Seq<char>, Seq<char>), c: (Seq<char>, Seq<char>)|
        #[trigger] le(a, b) && #[trigger] le(b, c) implies le(a, c) by {
        lemma_text_le_transitive(a.1, b.1, c.1);
    }
    let items = foreign_sink_ids(g).map_values(|k: u32| (g.nodes[k].name@, shown_name(g.nodes[k])));
    lemma_label_sort_is_sort(items);
    lemma_sort_sorted(items, le);
}

/// Route targets of a bus among the hardware outputs: each sink the mixer
/// did not create, keyed by node name and labelled with its shown name,
/// sorted by label.
pub open spec fn output_targets(g: GraphView) -> Seq<(Seq<char>, Seq<char>)> {
    sort_by_label(foreign_sink_ids(g).map_values(|k: u32| (g.nodes[k].name@, shown_name(g.nodes[k]))))
}

/// The route targets of an input strip.
pub fn bus_route_targets(buses: &Vec<BusConfig>) -> (r: Vec<(String, String)>)
    ensures
        pairs_view(r@) == bus_targets(buses@),
{
    let mut r: Vec<(String, String)> = Vec::new();
    for i in 0..buses.len()
        invariant
            pairs_view(r@) == bus_targets(buses@.take(i as int)),
            r@.len() == i,
    {
        let b = &buses[i];
        let key = decimal_string(b.id.0);
        let name = b.name.clone();
        let ghost kv = (key@, name@);
        proof {
            assert(kv == (decimal(b.id.0 as nat), b.name@));
            assert(pairs_view(r@.push((key, name))) =~= pairs_view(r@).push(kv));
            assert(bus_targets(buses@.take(i + 1)) =~= bus_targets(buses@.take(i as int)).push(kv));
        }
        r.push((key, name));
        proof {
            assert(pairs_view(r@) =~= bus_targets(buses@.take(i + 1)));
        }
    }
    proof {
        assert(buses@.take(buses@.len() as int) =~= buses@);
    }
    r
}

proof fn lemma_insert_at(s: Seq<(Seq<char>, Seq<char>)>, x: (Seq<char>, Seq<char>), p: int)
    requires
        0 <= p <= s.len(),
        p > 0 ==> text_le(s[p - 1].1, x.1),
        forall|j: int| p <= j < s.len() ==> !text_le(#[trigger] s[j].1, x.1),
    ensures
        insert_by_label(s, x) == s.insert(p, x),
    decreases s.len(),
{
    if s.len() == 0 {
        assert(s.insert(p, x) =~= seq![x]);
    } else if p == s.len() {
        assert(s.insert(p, x) =~= s.push(x));
    } else {
        let d = s.drop_last();
        lemma_insert_at(d, x, p);
        assert(s.insert(p, x) =~= d.insert(p, x).push(s.last()));
    }
}

fn insert_by_label_exec(v: &mut Vec<(String, String)>, x: (String, String))
    ensures
        pairs_view(final(v)@) == insert_by_label(pairs_view(old(v)@), (x.0@, x.1@)),
{
    let mut p: usize = v.len();
    while p > 0 && !text_le_exec(v[p - 1].1.as_str(), x.1.as_str())
        invariant
            p <= v@.len(),
            v@ == old(v)@,
            forall|j: int| p <= j < v@.len() ==> !text_le(#[trigger] v@[j].1@, x.1@),
        decreases p,
    {
        p = p - 1;
    }
    let ghost xv = (x.0@, x.1@);
    proof {
        lemma_insert_at(pairs_view(v@), xv, p as int);
    }
    v.insert(p, x);
    proof {
        assert(pairs_view(v@) =~= pairs_view(old(v)@).insert(p as int, xv));
    }
}

/// The route targets of a bus among the hardware outputs.
#[verifier::loop_isolation(false)]
pub fn output_route_targets(state: &AppState) -> (r: Vec<(String, String)>)
    ensures
        pairs_view(r@) == output_targets(state.graph@),
{
    let sinks = state.graph.audio_sink_nodes();
    let ghost g = state.graph@;
    let ghost cand = foreign_sink_ids(g).map_values(|k: u32| (g.nodes[k].name@, shown_name(g.nodes[k])));
    let ghost p = |k: u32| !has_prefix(g.nodes[k].name@, "blabbergraph."@);
    let ghost ids = g.sink_ids();
    let mut sorted: Vec<(String, String)> = Vec::new();
    let ghost mut done: Seq<(Seq<char>, Seq<char>)> = Seq::empty();
    proof {
        assert(crate::pw::graph::derefs(sinks@).len() == sinks@.len());
        assert(sorted@.len() == 0);
        assert(pairs_view(sorted@) =~= sort_by_label(done));
        assert(ids.take(0) =~= Seq::<u32>::empty());
        crate::order::lemma_keys_where_members(ascending(g.nodes.dom()), |k: u32| is_sink_class(g.nodes[k].media_class@));
        crate::order::lemma_keys_below_members(g.nodes.dom(), 0x1_0000_0000);
    }
    for i in 0..sinks.len()
        invariant
            g == state.graph@,
            crate::pw::graph::derefs(sinks@) == crate::pw::graph::nodes_at(ids, g.nodes),
            ids == g.sink_ids(),
            sinks@.len() == ids.len(),
            forall|j: int| 0 <= j < ids.len() ==> g.nodes.contains_key(#[trigger] ids[j]),
            done == keys_where(ids.take(i as int), p).map_values(|k: u32| (g.nodes[k].name@, shown_name(g.nodes[k]))),
            pairs_view(sorted@) == sort_by_label(done),
    {
        proof {
            lemma_keys_where_step(ids, p, i as int);
            assert(crate::pw::graph::derefs(sinks@)[i as int] == *sinks@[i as int]);
            assert(crate::pw::graph::nodes_at(ids, g.nodes)[i as int] == g.nodes[ids[i as int]]);
            assert(*sinks@[i as int] == g.nodes[ids[i as int]]);
        }
        let n = sinks[i];
        if !starts_with(n.name.as_str(), "blabbergraph.") {
            let shown = if n.description.as_str().is_empty() {
                n.name.clone()
            } else {
                n.description.clone()
            };
            let ghost entry = (n.name@, shown@);
            insert_by_label_exec(&mut sorted, (n.name.clone(), shown));
            proof {
                let prev = keys_where(ids.take(i as int), p);
                assert(prev.push(ids[i as int]).map_values(|k: u32| (g.nodes[k].name@, shown_name(g.nodes[k])))
                    =~= done.push(entry));
                let old_done = done;
                done = done.push(entry);
                assert(done.drop_last() =~= old_done);
                assert(done.last() == entry);
                assert(sort_by_label(done) == insert_by_label(sort_by_label(old_done), entry));
            }
        }
    }
    proof {
        assert(ids.take(ids.len() as int) =~= ids);
        assert(done == cand);
    }
    sorted
}

/// What a planned strip controls, with names as character sequences.
pub enum RoleView {
    Input { strip_id: StripId },
    Bus { bus_id: BusId },
    HardwareOutput { node_name: Seq<char> },
    VirtualOutput { voutput_id: crate::pw::message::VirtualOutputId },
}

/// The view of a strip role.
pub open spec fn role_view(r: StripRole) -> RoleView {
    match r {
        StripRole::Input { strip_id } => RoleView::Input { strip_id },
        StripRole::Bus { bus_id } => RoleView::Bus { bus_id },
        StripRole::HardwareOutput { node_name } => RoleView::HardwareOutput { node_name: node_name@ },
        StripRole::VirtualOutput { voutput_id } => RoleView::VirtualOutput { voutput_id },
    }
}

/// A strip the mixer view is to show.
#[derive(Debug)]
pub struct StripPlan {
    pub role: StripRole,
    pub display_name: String,
    /// `(key, label)` of each route button.
    pub route_targets: Vec<(String, String)>,
    /// Keys of the route buttons that start switched on.
    pub active_routes: Vec<String>,
    pub is_deletable: bool,
    pub is_renamable: bool,
    /// The node of a discovered (unconfigured) source.
    pub pre_resolved_node_id: Option<u32>,
    /// Gain to show (an `f32` bit pattern), if the strip sets one.
    pub volume: Option<u32>,
    /// Mute state to show, if the strip sets one.
    pub muted: Option<bool>,
}

/// The mathematical content of a [`StripPlan`].
pub struct PlanView {
    pub role: RoleView,
    pub name: Seq<char>,
    pub targets: Seq<(Seq<char>, Seq<char>)>,
    pub active: Seq<Seq<char>>,
    pub deletable: bool,
    pub renamable: bool,
    pub pre: Option<u32>,
    pub volume: Option<u32>,
    pub muted: Option<bool>,
}

impl View for StripPlan {
    type V = PlanView;

    open spec fn view(&self) -> PlanView {
        PlanView {
            role: role_view(self.role),
            name: self.display_name@,
            targets: pairs_view(self.route_targets@),
            active: texts(self.active_routes@),
            deletable: self.is_deletable,
            renamable: self.is_renamable,
            pre: self.pre_resolved_node_id,
            volume: self.volume,
            muted: self.muted,
        }
    }
}

/// The views of a list of plans.
pub open spec fn plans_view(v: Seq<StripPlan>) -> Seq<PlanView> {
    v.map_values(|p: StripPlan| p@)
}

/// The first gain of a list, or unity when it is empty.
pub open spec fn first_gain(v: Seq<u32>) -> u32 {
    if v.len() > 0 {
        v[0]
    } else {
        UNITY_GAIN_BITS
    }
}

/// An input route key names, by number, a bus with a node that `src` is linked to.
pub open spec fn input_route_active(s: AppState, src: u32, key: Seq<char>) -> bool {
    match parse_u32(key) {
        Some(v) => match lookup(s.bus_node_map@, v) {
            Some(b) => s.graph@.links_between(src, b).len() > 0,
            None => false,
        },
        None => false,
    }
}

/// The keys among `targets` whose route from `src` is active, in order.
pub open spec fn active_input_keys(s: AppState, src: u32, targets: Seq<(Seq<char>, Seq<char>)>) -> Seq<Seq<char>>
    decreases targets.len(),
{
    if targets.len() == 0 {
        Seq::empty()
    } else {
        let prev = active_input_keys(s, src, targets.drop_last());
        if input_route_active(s, src, targets.last().0) {
            prev.push(targets.last().0)
        } else {
            prev
        }
    }
}

/// The active routes of an input strip with source node `src`: none without a source.
pub open spec fn active_input_routes(s: AppState, src: Option<u32>, targets: Seq<(Seq<char>, Seq<char>)>) -> Seq<Seq<char>> {
    match src {
        Some(x) => active_input_keys(s, x, targets),
        None => Seq::empty(),
    }
}

/// Some link joins an output port of `src` to an input port of `b`.
pub open spec fn linked_to(g: GraphView, src: u32, b: u32) -> bool {
    exists|l: u32| #[trigger] g.links.contains_key(l) && g.joins(l, src, b)
}

/// The key names, in decimal, a bus whose registered node is linked from `src`.
pub open spec fn key_routes_linked_bus(s: AppState, src: u32, key: Seq<char>) -> bool {
    match parse_u32(key) {
        Some(v) => match lookup(s.bus_node_map@, v) {
            Some(b) => linked_to(s.graph@, src, b),
            None => false,
        },
        None => false,
    }
}

proof fn lemma_links_between_nonempty(g: GraphView, src: u32, b: u32)
    ensures
        g.links_between(src, b).len() > 0 <==> linked_to(g, src, b),
{
    let p = |k: u32| g.joins(k, src, b);
    let keys = ascending(g.links.dom());
    crate::order::lemma_keys_below_members(g.links.dom(), 0x1_0000_0000);
    crate::order::lemma_keys_where_members(keys, p);
    let found = keys_where(keys, p);
    if found.len() > 0 {
        assert(p(found[0]) && keys.contains(found[0]));
        let j = choose|j: int| 0 <= j < keys.len() && keys[j] == found[0];
        assert(g.links.contains_key(keys[j]));
    }
    if linked_to(g, src, b) {
        let l = choose|l: u32| #[trigger] g.links.contains_key(l) && g.joins(l, src, b);
        assert(keys.contains(l));
        assert(found.contains(l));
    }
}

/// An input strip's route button is on exactly when its key names, in
/// decimal, a bus whose registered node some link joins from the strip's
/// source node; each button is judged on its own, whatever the others are.
pub proof fn lemma_active_routes_follow_links(
    s: AppState,
    src: u32,
    targets: Seq<(Seq<char>, Seq<char>)>,
    key: Seq<char>,
)
    ensures
        active_input_keys(s, src, targets).contains(key) <==> (exists|j: int|
            0 <= j < targets.len() && (#[trigger] targets[j]).0 == key) && key_routes_linked_bus(s, src, key),
    decreases targets.len(),
{
    match parse_u32(key) {
        Some(v) => match lookup(s.bus_node_map@, v) {
            Some(b) => lemma_links_between_nonempty(s.graph@, src, b),
            None => {},
        },
        None => {},
    }
    if targets.len() > 0 {
        let d = targets.drop_last();
        lemma_active_routes_follow_links(s, src, d, key);
        let prev = active_input_keys(s, src, d);
        let last = targets.last();
        if input_route_active(s, src, last.0) {
            assert(active_input_keys(s, src, targets) == prev.push(last.0));
            if prev.push(last.0).contains(key) && !prev.contains(key) {
                let m = choose|m: int| 0 <= m < prev.push(last.0).len() && prev.push(last.0)[m] == key;
                assert(m == prev.len());
            }
            if prev.contains(key) {
                let m = choose|m: int| 0 <= m < prev.len() && prev[m] == key;
                assert(prev.push(last.0)[m] == key);
            }
            if last.0 == key {
                assert(prev.push(last.0)[prev.len() as int] == key);
            }
        }
        if exists|j: int| 0 <= j < targets.len() && (#[trigger] targets[j]).0 == key {
            let j = choose|j: int| 0 <= j < targets.len() && (#[trigger] targets[j]).0 == key;
            if j < d.len() {
                assert(d[j] == targets[j]);
            }
        }
        if exists|j: int| 0 <= j < d.len() && (#[trigger] d[j]).0 == key {
            let j = choose|j: int| 0 <= j < d.len() && (#[trigger] d[j]).0 == key;
            assert(targets[j] == d[j]);
        }
    }
}

/// Which input routes are on, judged by the links present in the graph
/// rather than by the configuration: a route to a bus is on when some
/// link joins the source node to the bus node.
pub fn compute_active_input_routes(state: &AppState, source_nid: Option<u32>, targets: &Vec<(String, String)>) -> (r: Vec<String>)
    ensures
        texts(r@) == active_input_routes(*state, source_nid, pairs_view(targets@)),
        forall|key: Seq<char>|
            #![trigger texts(r@).contains(key)]
            texts(r@).contains(key) <==> match source_nid {
                Some(src) => (exists|j: int| 0 <= j < targets@.len() && (#[trigger] targets@[j]).0@ == key)
                    && key_routes_linked_bus(*state, src, key),
                None => false,
            },
{
    proof {
        assert forall|key: Seq<char>| #![trigger active_input_routes(*state, source_nid, pairs_view(targets@)).contains(key)]
            active_input_routes(*state, source_nid, pairs_view(targets@)).contains(key) <==> match source_nid {
                Some(src) => (exists|j: int| 0 <= j < targets@.len() && (#[trigger] targets@[j]).0@ == key)
                    && key_routes_linked_bus(*state, src, key),
                None => false,
            } by {
            let tv = pairs_view(targets@);
            match source_nid {
                Some(src) => {
                    lemma_active_routes_follow_links(*state, src, tv, key);
                    if exists|j: int| 0 <= j < tv.len() && (#[trigger] tv[j]).0 == key {
                        let j = choose|j: int| 0 <= j < tv.len() && (#[trigger] tv[j]).0 == key;
                        assert(targets@[j].0@ == key);
                    }
                    if exists|j: int| 0 <= j < targets@.len() && (#[trigger] targets@[j]).0@ == key {
                        let j = choose|j: int| 0 <= j < targets@.len() && (#[trigger] targets@[j]).0@ == key;
                        assert(tv[j].0 == key);
                    }
                },
                None => {},
            }
        }
    }
    let mut r: Vec<String> = Vec::new();
    match source_nid {
        None => {
            proof {
                assert(texts(r@) =~= Seq::<Seq<char>>::empty());
            }
            r
        },
        Some(src) => {
            for i in 0..targets.len()
                invariant
                    texts(r@) == active_input_keys(*state, src, pairs_view(targets@).take(i as int)),
            {
                proof {
                    assert(pairs_view(targets@).take(i + 1).drop_last() =~= pairs_view(targets@).take(i as int));
                    assert(pairs_view(targets@).take(i + 1).last() == (targets@[i as int].0@, targets@[i as int].1@));
                }
                let key = &targets[i].0;
                let on = match parse_u32_text(key.as_str()) {
                    Some(v) => match state.bus_node_id(BusId(v)) {
                        Some(bus_nid) => find_links_between(&state.graph, src, bus_nid).len() > 0,
                        None => false,
                    },
                    None => false,
                };
                if on {
                    let k = key.clone();
                    proof {
                        assert(texts(r@.push(k)) =~= texts(r@).push(k@));
                    }
                    r.push(k);
                }
            }
            proof {
                assert(pairs_view(targets@).take(targets@.len() as int) =~= pairs_view(targets@));
            }
            r
        },
    }
}

/// A copy of a list of `(key, label)` pairs.
pub fn copy_pairs(v: &Vec<(String, String)>) -> (r: Vec<(String, String)>)
    ensures
        pairs_view(r@) == pairs_view(v@),
{
    let mut r: Vec<(String, String)> = Vec::new();
    for i in 0..v.len()
        invariant
            pairs_view(r@) == pairs_view(v@).take(i as int),
    {
        let a = v[i].0.clone();
        let b = v[i].1.clone();
        proof {
            assert(pairs_view(r@.push((a, b))) =~= pairs_view(r@).push((a@, b@)));
            assert(pairs_view(v@).take(i + 1) =~= pairs_view(v@).take(i as int).push((a@, b@)));
        }
        r.push((a, b));
    }
    proof {
        assert(pairs_view(v@).take(v@.len() as int) =~= pairs_view(v@));
    }
    r
}

/// The node a configured input strip captures from.
pub open spec fn configured_source(s: AppState, st: StripConfig) -> Option<u32> {
    match st.kind {
        StripKind::HardwareInput { node_name } => s.graph@.node_named(node_name@),
        StripKind::VirtualInput { .. } => lookup(s.strip_node_map@, st.id.0),
        StripKind::VirtualOutput { .. } => None,
    }
}

/// The name a configured input strip shows: for a hardware strip, the
/// description of the node stored under the id of the node found by name,
/// else its node name.
pub open spec fn configured_input_name(s: AppState, st: StripConfig) -> Seq<char> {
    match st.kind {
        StripKind::HardwareInput { node_name } => match s.graph@.node_named(node_name@) {
            Some(n) => if s.graph@.nodes.contains_key(n) {
                s.graph@.nodes[n].description@
            } else {
                node_name@
            },
            None => node_name@,
        },
        StripKind::VirtualInput { name } => name@,
        StripKind::VirtualOutput { name, .. } => name@,
    }
}

/// The plan of a configured input strip.
pub open spec fn configured_input_plan(s: AppState, st: StripConfig, targets: Seq<(Seq<char>, Seq<char>)>) -> PlanView {
    PlanView {
        role: RoleView::Input { strip_id: st.id },
        name: configured_input_name(s, st),
        targets,
        active: active_input_routes(s, configured_source(s, st), targets),
        deletable: kind_is_virtual(st.kind),
        renamable: kind_is_virtual(st.kind),
        pre: None,
        volume: Some(first_gain(st.volume@)),
        muted: Some(st.muted),
    }
}

/// Plans of the configured strips that are not virtual outputs, in order.
pub open spec fn configured_input_plans(s: AppState, strips: Seq<StripConfig>, targets: Seq<(Seq<char>, Seq<char>)>) -> Seq<PlanView>
    decreases strips.len(),
{
    if strips.len() == 0 {
        Seq::empty()
    } else {
        let prev = configured_input_plans(s, strips.drop_last(), targets);
        if strips.last().kind is VirtualOutput {
            prev
        } else {
            prev.push(configured_input_plan(s, strips.last(), targets))
        }
    }
}

fn first_gain_of(v: &Vec<u32>) -> (r: u32)
    ensures
        r == first_gain(v@),
{
    if v.len() > 0 {
        v[0]
    } else {
        UNITY_GAIN_BITS
    }
}

fn push_plan(plans: &mut Vec<StripPlan>, p: StripPlan)
    ensures
        plans_view(final(plans)@) == plans_view(old(plans)@).push(p@),
{
    proof {
        assert(plans_view(plans@.push(p)) =~= plans_view(plans@).push(p@));
    }
    plans.push(p);
}

/// The strips of the inputs section that come from the configuration.
pub fn configured_input_strip_plans(state: &AppState, targets: &Vec<(String, String)>) -> (r: Vec<StripPlan>)
    ensures
        plans_view(r@) == configured_input_plans(*state, state.config.strips@, pairs_view(targets@)),
{
    let mut plans: Vec<StripPlan> = Vec::new();
    let strips = &state.config.strips;
    for i in 0..strips.len()
        invariant
            strips@ == state.config.strips@,
            plans_view(plans@) == configured_input_plans(*state, strips@.take(i as int), pairs_view(targets@)),
    {
        let st = &strips[i];
        proof {
            assert(strips@.take(i + 1).drop_last() =~= strips@.take(i as int));
            assert(strips@.take(i + 1).last() == *st);
        }
        if !st.is_virtual_output() {
            let (name, source) = match &st.kind {
                StripKind::HardwareInput { node_name } => {
                    let found = state.find_hardware_node_by_name(node_name.as_str());
                    let name = match found {
                        Some(nid) => match state.graph.nodes.get(&nid) {
                            Some(n) => n.description.clone(),
                            None => node_name.clone(),
                        },
                        None => node_name.clone(),
                    };
                    (name, found)
                },
                StripKind::VirtualInput { name } => (name.clone(), state.strip_node_id(st.id)),
                StripKind::VirtualOutput { name, .. } => (name.clone(), None),
            };
            let active = compute_active_input_routes(state, source, targets);
            let virt = st.is_virtual();
            push_plan(
                &mut plans,
                StripPlan {
                    role: StripRole::Input { strip_id: st.id },
                    display_name: name,
                    route_targets: copy_pairs(targets),
                    active_routes: active,
                    is_deletable: virt,
                    is_renamable: virt,
                    pre_resolved_node_id: None,
                    volume: Some(first_gain_of(&st.volume)),
                    muted: Some(st.muted),
                },
            );
        }
    }
    proof {
        assert(strips@.take(strips@.len() as int) =~= strips@);
    }
    plans
}

/// Some configured hardware strip captures from the node named `name`.
pub open spec fn is_configured_hardware(strips: Seq<StripConfig>, name: Seq<char>) -> bool {
    exists|i: int| 0 <= i < strips.len() && (#[trigger] strips[i]).kind is HardwareInput && strips[i].kind->node_name@ == name
}

/// A capture node that the configuration does not name and the mixer did
/// not create: it is offered as an input strip of its own.
pub open spec fn is_discovered_source(s: AppState, k: u32) -> bool {
    let n = s.graph@.nodes[k];
    &&& (n.media_class@ == "Audio/Source"@ || n.media_class@ == "Audio/Source/Virtual"@)
    &&& !is_configured_hardware(s.config.strips@, n.name@)
    &&& !has_prefix(n.name@, "blabbergraph."@)
}

/// Keys of the discovered sources, ascending.
pub open spec fn discovered_ids(s: AppState) -> Seq<u32> {
    keys_where(ascending(s.graph@.nodes.dom()), |k: u32| is_discovered_source(s, k))
}

/// The plan of a discovered source: an input strip numbered 10000 past
/// the node id, bound to the node, neither deletable nor renamable.
pub open spec fn discovered_plan(s: AppState, n: NodeInfo, targets: Seq<(Seq<char>, Seq<char>)>) -> PlanView {
    PlanView {
        role: RoleView::Input { strip_id: StripId((n.id + 10000) as u32) },
        name: shown_name(n),
        targets,
        active: active_input_routes(s, Some(n.id), targets),
        deletable: false,
        renamable: false,
        pre: Some(n.id),
        volume: None,
        muted: None,
    }
}

/// Plans of the discovered sources, ascending by key.
pub open spec fn discovered_plans(s: AppState, targets: Seq<(Seq<char>, Seq<char>)>) -> Seq<PlanView> {
    discovered_ids(s).map_values(|k: u32| discovered_plan(s, s.graph@.nodes[k], targets))
}

/// The node is a capture node that the mixer did not create and that no
/// configured hardware strip names.
pub open spec fn foreign_capture_node(s: AppState, n: NodeInfo) -> bool {
    &&& (n.media_class@ == "Audio/Source"@ || n.media_class@ == "Audio/Source/Virtual"@)
    &&& !has_prefix(n.name@, "blabbergraph."@)
    &&& !is_configured_hardware(s.config.strips@, n.name@)
}

/// The inputs section offers a discovered strip exactly for the capture
/// nodes that the mixer did not create (no `blabbergraph.` name) and that
/// the configuration does not name: every discovered strip is bound to such
/// a node, shows its name and can be neither deleted nor renamed, and every
/// such node gets one.
pub proof fn lemma_discovered_are_foreign_sources(s: AppState, targets: Seq<(Seq<char>, Seq<char>)>)
    ensures
        forall|j: int|
            0 <= j < discovered_plans(s, targets).len() ==> exists|k: u32|
                #![trigger s.graph@.nodes[k]]
                s.graph@.nodes.contains_key(k) && foreign_capture_node(s, s.graph@.nodes[k])
                    && (#[trigger] discovered_plans(s, targets)[j]).pre == Some(s.graph@.nodes[k].id)
                    && discovered_plans(s, targets)[j].name == shown_name(s.graph@.nodes[k])
                    && !discovered_plans(s, targets)[j].deletable && !discovered_plans(s, targets)[j].renamable,
        forall|k: u32|
            #![trigger s.graph@.nodes[k]]
            s.graph@.nodes.contains_key(k) && foreign_capture_node(s, s.graph@.nodes[k]) ==> exists|j: int|
                0 <= j < discovered_plans(s, targets).len() && (#[trigger] discovered_plans(s, targets)[j]).pre == Some(
                    s.graph@.nodes[k].id,
                ),
{
    let keys = ascending(s.graph@.nodes.dom());
    let p = |k: u32| is_discovered_source(s, k);
    crate::order::lemma_keys_below_members(s.graph@.nodes.dom(), 0x1_0000_0000);
    crate::order::lemma_keys_where_members(keys, p);
    let ids = discovered_ids(s);
    let plans = discovered_plans(s, targets);
    assert forall|j: int| 0 <= j < plans.len() implies exists|k: u32|
        #![trigger s.graph@.nodes[k]]
        s.graph@.nodes.contains_key(k) && foreign_capture_node(s, s.graph@.nodes[k]) && (#[trigger] plans[j]).pre == Some(
            s.graph@.nodes[k].id,
        ) && plans[j].name == shown_name(s.graph@.nodes[k]) && !plans[j].deletable && !plans[j].renamable by {
        let k = ids[j];
        assert(p(k) && keys.contains(k));
        let m = choose|m: int| 0 <= m < keys.len() && keys[m] == k;
        assert(s.graph@.nodes.contains_key(keys[m]));
        assert(plans[j] == discovered_plan(s, s.graph@.nodes[k], targets));
    }
    assert forall|k: u32|
        #![trigger s.graph@.nodes[k]]
        s.graph@.nodes.contains_key(k) && foreign_capture_node(s, s.graph@.nodes[k]) implies exists|j: int|
            0 <= j < plans.len() && (#[trigger] plans[j]).pre == Some(s.graph@.nodes[k].id) by {
        assert(keys.contains(k));
        assert(p(k));
        assert(ids.contains(k));
        let j = choose|j: int| 0 <= j < ids.len() && ids[j] == k;
        assert(plans[j] == discovered_plan(s, s.graph@.nodes[k], targets));
    }
}

/// Every discovered source has an id that leaves room for its strip number.
pub open spec fn discovered_ids_fit(s: AppState) -> bool {
    forall|k: u32| s.graph@.nodes.contains_key(k) && is_discovered_source(s, k) ==> s.graph@.nodes[k].id <= u32::MAX - 10000
}

fn configured_hardware(strips: &Vec<StripConfig>, name: &str) -> (r: bool)
    ensures
        r == is_configured_hardware(strips@, name@),
{
    for i in 0..strips.len()
        invariant
            forall|j: int| 0 <= j < i ==> !((#[trigger] strips@[j]).kind is HardwareInput && strips@[j].kind->node_name@ == name@),
    {
        match &strips[i].kind {
            StripKind::HardwareInput { node_name } => {
                if crate::text::same_text(node_name.as_str(), name) {
                    return true;
                }
            },
            _ => {},
        }
    }
    false
}

/// The strips of the inputs section for capture nodes the configuration
/// does not name.
#[verifier::loop_isolation(false)]
pub fn discovered_source_plans(state: &AppState, targets: &Vec<(String, String)>) -> (r: Vec<StripPlan>)
    requires
        discovered_ids_fit(*state),
    ensures
        plans_view(r@) == discovered_plans(*state, pairs_view(targets@)),
{
    let keys = ascending_keys(&state.graph.nodes);
    let ghost p = |k: u32| is_discovered_source(*state, k);
    let ghost tv = pairs_view(targets@);
    let mut plans: Vec<StripPlan> = Vec::new();
    for i in 0..keys.len()
        invariant
            plans_view(plans@) == keys_where(keys@.take(i as int), p).map_values(
                |k: u32| discovered_plan(*state, state.graph@.nodes[k], tv),
            ),
    {
        proof {
            lemma_keys_where_step(keys@, p, i as int);
        }
        let k = keys[i];
        let node = state.graph.nodes.get(&k).unwrap();
        let mc = node.media_class.as_str();
        let is_source = crate::text::same_text(mc, "Audio/Source") || crate::text::same_text(mc, "Audio/Source/Virtual");
        if is_source && !configured_hardware(&state.config.strips, node.name.as_str()) && !starts_with(
            node.name.as_str(),
            "blabbergraph.",
        ) {
            let display = if node.description.as_str().is_empty() {
                node.name.clone()
            } else {
                node.description.clone()
            };
            let active = compute_active_input_routes(state, Some(node.id), targets);
            let plan = StripPlan {
                role: StripRole::Input { strip_id: StripId(node.id + 10000) },
                display_name: display,
                route_targets: copy_pairs(targets),
                active_routes: active,
                is_deletable: false,
                is_renamable: false,
                pre_resolved_node_id: Some(node.id),
                volume: None,
                muted: None,
            };
            proof {
                assert(plan@ == discovered_plan(*state, state.graph@.nodes[k], tv));
                let prev = keys_where(keys@.take(i as int), p);
                assert(prev.push(k).map_values(|k: u32| discovered_plan(*state, state.graph@.nodes[k], tv)) =~= prev.map_values(
                    |k: u32| discovered_plan(*state, state.graph@.nodes[k], tv),
                ).push(plan@));
            }
            push_plan(&mut plans, plan);
        }
    }
    proof {
        assert(keys@.take(keys@.len() as int) =~= keys@);
    }
    plans
}

/// Whether every discovered source has an id that leaves room for its
/// strip number, as [`mixer_plan`] needs.
pub fn discovered_ids_fit_check(state: &AppState) -> (r: bool)
    ensures
        r == discovered_ids_fit(*state),
{
    let keys = ascending_keys(&state.graph.nodes);
    let ghost nodes = state.graph@.nodes;
    for i in 0..keys.len()
        invariant
            keys@ == ascending(nodes.dom()),
            nodes == state.graph@.nodes,
            forall|j: int| 0 <= j < keys@.len() ==> nodes.contains_key(#[trigger] keys@[j]),
            forall|j: int|
                0 <= j < i && is_discovered_source(*state, #[trigger] keys@[j]) ==> nodes[keys@[j]].id <= u32::MAX - 10000,
    {
        let k = keys[i];
        let node = state.graph.nodes.get(&k).unwrap();
        let mc = node.media_class.as_str();
        let is_source = crate::text::same_text(mc, "Audio/Source") || crate::text::same_text(mc, "Audio/Source/Virtual");
        if is_source && !configured_hardware(&state.config.strips, node.name.as_str()) && !starts_with(
            node.name.as_str(),
            "blabbergraph.",
        ) && node.id > u32::MAX - 10000 {
            proof {
                assert(is_discovered_source(*state, k));
            }
            return false;
        }
    }
    proof {
        crate::order::lemma_keys_below_members(nodes.dom(), 0x1_0000_0000);
        assert forall|k: u32| nodes.contains_key(k) && is_discovered_source(*state, k) implies nodes[k].id <= u32::MAX
            - 10000 by {
            assert(keys@.contains(k));
            let j = choose|j: int| 0 <= j < keys@.len() && keys@[j] == k;
            assert(is_discovered_source(*state, keys@[j]));
        }
    }
    true
}

/// Route targets of a bus among the other buses: each is keyed by the
/// node name the mixer gives it and labelled `[Bus] ` and its name.
pub open spec fn other_bus_targets(buses: Seq<BusConfig>, id: BusId) -> Seq<(Seq<char>, Seq<char>)>
    decreases buses.len(),
{
    if buses.len() == 0 {
        Seq::empty()
    } else {
        let prev = other_bus_targets(buses.drop_last(), id);
        if buses.last().id == id {
            prev
        } else {
            prev.push(("blabbergraph.bus."@ + buses.last().name@, "[Bus] "@ + buses.last().name@))
        }
    }
}

/// An output route key names a node that the bus node `bn` is linked to.
pub open spec fn bus_output_active(s: AppState, bn: u32, key: Seq<char>) -> bool {
    match s.graph@.node_named(key) {
        Some(o) => s.graph@.links_between(bn, o).len() > 0,
        None => false,
    }
}

/// The keys among `targets` whose route from the bus node `bn` is active.
pub open spec fn active_bus_keys(s: AppState, bn: u32, targets: Seq<(Seq<char>, Seq<char>)>) -> Seq<Seq<char>>
    decreases targets.len(),
{
    if targets.len() == 0 {
        Seq::empty()
    } else {
        let prev = active_bus_keys(s, bn, targets.drop_last());
        if bus_output_active(s, bn, targets.last().0) {
            prev.push(targets.last().0)
        } else {
            prev
        }
    }
}

/// The plan of a bus strip: routes to the hardware outputs and the other
/// buses; the routes shown on are those with links when the bus has a
/// node, else its configured targets.
pub open spec fn bus_plan(s: AppState, b: BusConfig, out: Seq<(Seq<char>, Seq<char>)>) -> PlanView {
    let targets = out + other_bus_targets(s.config.buses@, b.id);
    PlanView {
        role: RoleView::Bus { bus_id: b.id },
        name: b.name@,
        targets,
        active: match lookup(s.bus_node_map@, b.id.0) {
            Some(bn) => active_bus_keys(s, bn, targets),
            None => texts(b.output_targets@),
        },
        deletable: true,
        renamable: true,
        pre: None,
        volume: Some(first_gain(b.volume@)),
        muted: Some(b.muted),
    }
}

/// Plans of the bus strips, in configuration order.
pub open spec fn bus_plans(s: AppState, out: Seq<(Seq<char>, Seq<char>)>) -> Seq<PlanView> {
    s.config.buses@.map_values(|b: BusConfig| bus_plan(s, b, out))
}

/// A copy of a list of strings.
pub fn copy_texts(v: &Vec<String>) -> (r: Vec<String>)
    ensures
        texts(r@) == texts(v@),
{
    let mut r: Vec<String> = Vec::new();
    for i in 0..v.len()
        invariant
            texts(r@) == texts(v@).take(i as int),
    {
        let a = v[i].clone();
        proof {
            assert(texts(r@.push(a)) =~= texts(r@).push(a@));
            assert(texts(v@).take(i + 1) =~= texts(v@).take(i as int).push(a@));
        }
        r.push(a);
    }
    proof {
        assert(texts(v@).take(v@.len() as int) =~= texts(v@));
    }
    r
}

fn bus_targets_for(state: &AppState, out: &Vec<(String, String)>, id: BusId) -> (r: Vec<(String, String)>)
    ensures
        pairs_view(r@) == pairs_view(out@) + other_bus_targets(state.config.buses@, id),
{
    let mut r = copy_pairs(out);
    let buses = &state.config.buses;
    for i in 0..buses.len()
        invariant
            buses@ == state.config.buses@,
            pairs_view(r@) == pairs_view(out@) + other_bus_targets(buses@.take(i as int), id),
    {
        let other = &buses[i];
        proof {
            assert(buses@.take(i + 1).drop_last() =~= buses@.take(i as int));
            assert(buses@.take(i + 1).last() == *other);
        }
        if other.id.0 != id.0 {
            let key = crate::text::joined("blabbergraph.bus.", other.name.as_str());
            let label = crate::text::joined("[Bus] ", other.name.as_str());
            proof {
                assert(pairs_view(r@.push((key, label))) =~= pairs_view(r@).push((key@, label@)));
            }
            r.push((key, label));
        }
    }
    proof {
        assert(buses@.take(buses@.len() as int) =~= buses@);
    }
    r
}

fn active_bus_routes(state: &AppState, bn: u32, targets: &Vec<(String, String)>) -> (r: Vec<String>)
    ensures
        texts(r@) == active_bus_keys(*state, bn, pairs_view(targets@)),
{
    let mut r: Vec<String> = Vec::new();
    for i in 0..targets.len()
        invariant
            texts(r@) == active_bus_keys(*state, bn, pairs_view(targets@).take(i as int)),
    {
        proof {
            assert(pairs_view(targets@).take(i + 1).drop_last() =~= pairs_view(targets@).take(i as int));
            assert(pairs_view(targets@).take(i + 1).last() == (targets@[i as int].0@, targets@[i as int].1@));
        }
        let key = &targets[i].0;
        let on = match state.find_hardware_node_by_name(key.as_str()) {
            Some(out_nid) => find_links_between(&state.graph, bn, out_nid).len() > 0,
            None => false,
        };
        if on {
            let k = key.clone();
            proof {
                assert(texts(r@.push(k)) =~= texts(r@).push(k@));
            }
            r.push(k);
        }
    }
    proof {
        assert(pairs_view(targets@).take(targets@.len() as int) =~= pairs_view(targets@));
    }
    r
}

/// The strips of the buses section.
pub fn bus_strip_plans(state: &AppState, out: &Vec<(String, String)>) -> (r: Vec<StripPlan>)
    ensures
        plans_view(r@) == bus_plans(*state, pairs_view(out@)),
{
    let mut plans: Vec<StripPlan> = Vec::new();
    let buses = &state.config.buses;
    for i in 0..buses.len()
        invariant
            buses@ == state.config.buses@,
            plans_view(plans@) == buses@.take(i as int).map_values(|b: BusConfig| bus_plan(*state, b, pairs_view(out@))),
    {
        let bus = &buses[i];
        let targets = bus_targets_for(state, out, bus.id);
        let active = match state.bus_node_id(bus.id) {
            Some(bn) => active_bus_routes(state, bn, &targets),
            None => copy_texts(&bus.output_targets),
        };
        let plan = StripPlan {
            role: StripRole::Bus { bus_id: bus.id },
            display_name: bus.name.clone(),
            route_targets: targets,
            active_routes: active,
            is_deletable: true,
            is_renamable: true,
            pre_resolved_node_id: None,
            volume: Some(first_gain_of(&bus.volume)),
            muted: Some(bus.muted),
        };
        proof {
            assert(plan@ == bus_plan(*state, *bus, pairs_view(out@)));
            assert(buses@.take(i + 1).map_values(|b: BusConfig| bus_plan(*state, b, pairs_view(out@))) =~= buses@.take(
                i as int,
            ).map_values(|b: BusConfig| bus_plan(*state, b, pairs_view(out@))).push(plan@));
        }
        push_plan(&mut plans, plan);
    }
    proof {
        assert(buses@.take(buses@.len() as int) =~= buses@);
    }
    plans
}

/// The plans of the hardware outputs: one per route target whose node is
/// found by name, showing the node's first gain (if any) and mute.
pub open spec fn output_plans(s: AppState, out: Seq<(Seq<char>, Seq<char>)>) -> Seq<PlanView>
    decreases out.len(),
{
    if out.len() == 0 {
        Seq::empty()
    } else {
        let prev = output_plans(s, out.drop_last());
        match s.graph@.node_key_named(out.last().0) {
            Some(n) => prev.push(
                PlanView {
                    role: RoleView::HardwareOutput { node_name: out.last().0 },
                    name: out.last().1,
                    targets: Seq::empty(),
                    active: Seq::empty(),
                    deletable: false,
                    renamable: false,
                    pre: None,
                    volume: if s.graph@.nodes[n].volumes@.len() > 0 {
                        Some(s.graph@.nodes[n].volumes@[0])
                    } else {
                        None
                    },
                    muted: Some(s.graph@.nodes[n].muted),
                },
            ),
            None => prev,
        }
    }
}

/// The plans of the virtual outputs, in configuration order.
pub open spec fn voutput_plans(strips: Seq<StripConfig>) -> Seq<PlanView>
    decreases strips.len(),
{
    if strips.len() == 0 {
        Seq::empty()
    } else {
        let prev = voutput_plans(strips.drop_last());
        let st = strips.last();
        match st.kind {
            StripKind::VirtualOutput { voutput_id, name } => prev.push(
                PlanView {
                    role: RoleView::VirtualOutput { voutput_id },
                    name: name@,
                    targets: Seq::empty(),
                    active: Seq::empty(),
                    deletable: true,
                    renamable: true,
                    pre: None,
                    volume: Some(first_gain(st.volume@)),
                    muted: Some(st.muted),
                },
            ),
            _ => prev,
        }
    }
}

/// The strips of the outputs section that stand for hardware outputs.
pub fn output_strip_plans(state: &AppState, out: &Vec<(String, String)>) -> (r: Vec<StripPlan>)
    ensures
        plans_view(r@) == output_plans(*state, pairs_view(out@)),
{
    let mut plans: Vec<StripPlan> = Vec::new();
    for i in 0..out.len()
        invariant
            plans_view(plans@) == output_plans(*state, pairs_view(out@).take(i as int)),
    {
        proof {
            assert(pairs_view(out@).take(i + 1).drop_last() =~= pairs_view(out@).take(i as int));
            assert(pairs_view(out@).take(i + 1).last() == (out@[i as int].0@, out@[i as int].1@));
        }
        let key = &out[i].0;
        match state.find_node_key_by_name(key.as_str()) {
            Some(nk) => {
                let node = state.graph.nodes.get(&nk).unwrap();
                let volume = if node.volumes.len() > 0 {
                    Some(node.volumes[0])
                } else {
                    None
                };
                push_plan(
                    &mut plans,
                    StripPlan {
                        role: StripRole::HardwareOutput { node_name: key.clone() },
                        display_name: out[i].1.clone(),
                        route_targets: Vec::new(),
                        active_routes: Vec::new(),
                        is_deletable: false,
                        is_renamable: false,
                        pre_resolved_node_id: None,
                        volume,
                        muted: Some(node.muted),
                    },
                );
                proof {
                    assert(plans_view(plans@).last().targets =~= Seq::<(Seq<char>, Seq<char>)>::empty());
                    assert(plans_view(plans@).last().active =~= Seq::<Seq<char>>::empty());
                }
            },
            None => {},
        }
    }
    proof {
        assert(pairs_view(out@).take(out@.len() as int) =~= pairs_view(out@));
    }
    plans
}

/// The strips of the outputs section that stand for virtual outputs.
pub fn voutput_strip_plans(state: &AppState) -> (r: Vec<StripPlan>)
    ensures
        plans_view(r@) == voutput_plans(state.config.strips@),
{
    let mut plans: Vec<StripPlan> = Vec::new();
    let strips = &state.config.strips;
    for i in 0..strips.len()
        invariant
            strips@ == state.config.strips@,
            plans_view(plans@) == voutput_plans(strips@.take(i as int)),
    {
        let st = &strips[i];
        proof {
            assert(strips@.take(i + 1).drop_last() =~= strips@.take(i as int));
            assert(strips@.take(i + 1).last() == *st);
        }
        match &st.kind {
            StripKind::VirtualOutput { voutput_id, name } => {
                push_plan(
                    &mut plans,
                    StripPlan {
                        role: StripRole::VirtualOutput { voutput_id: *voutput_id },
                        display_name: name.clone(),
                        route_targets: Vec::new(),
                        active_routes: Vec::new(),
                        is_deletable: true,
                        is_renamable: true,
                        pre_resolved_node_id: None,
                        volume: Some(first_gain_of(&st.volume)),
                        muted: Some(st.muted),
                    },
                );
                proof {
                    assert(plans_view(plans@).last().targets =~= Seq::<(Seq<char>, Seq<char>)>::empty());
                    assert(plans_view(plans@).last().active =~= Seq::<Seq<char>>::empty());
                }
            },
            _ => {},
        }
    }
    proof {
        assert(strips@.take(strips@.len() as int) =~= strips@);
    }
    plans
}

/// The node a planned strip meters.
pub open spec fn planned_node(s: AppState, p: PlanView) -> Option<u32> {
    match p.role {
        RoleView::Input { strip_id } => input_source(s, strip_id, p.pre),
        RoleView::Bus { bus_id } => lookup(s.bus_node_map@, bus_id.0),
        RoleView::HardwareOutput { node_name } => s.graph@.node_named(node_name),
        RoleView::VirtualOutput { voutput_id } => lookup(s.voutput_node_map@, voutput_id.0),
    }
}

/// `(node, name, capture_sink)` for each planned strip whose node is
/// known, in plan order; sinks are metered through their monitor ports.
pub open spec fn monitored_for(s: AppState, plans: Seq<PlanView>) -> Seq<(u32, Seq<char>, bool)>
    decreases plans.len(),
{
    if plans.len() == 0 {
        Seq::empty()
    } else {
        let prev = monitored_for(s, plans.drop_last());
        match planned_node(s, plans.last()) {
            Some(n) => if s.graph@.nodes.contains_key(n) {
                prev.push((n, s.graph@.nodes[n].name@, is_sink_class(s.graph@.nodes[n].media_class@)))
            } else {
                prev
            },
            None => prev,
        }
    }
}

fn push_monitored(state: &AppState, plans: &Vec<StripPlan>, nodes: &mut Vec<(u32, String, bool)>)
    ensures
        monitored_view(final(nodes)@) == monitored_view(old(nodes)@) + monitored_for(*state, plans_view(plans@)),
{
    let ghost start = monitored_view(nodes@);
    for i in 0..plans.len()
        invariant
            monitored_view(nodes@) == start + monitored_for(*state, plans_view(plans@).take(i as int)),
    {
        let plan = &plans[i];
        proof {
            assert(plans_view(plans@).take(i + 1).drop_last() =~= plans_view(plans@).take(i as int));
            assert(plans_view(plans@).take(i + 1).last() == plan@);
        }
        let node_id = match &plan.role {
            StripRole::Input { strip_id } => input_source_node(state, *strip_id, plan.pre_resolved_node_id),
            StripRole::Bus { bus_id } => state.bus_node_id(*bus_id),
            StripRole::HardwareOutput { node_name } => state.find_hardware_node_by_name(node_name.as_str()),
            StripRole::VirtualOutput { voutput_id } => state.voutput_node_id(*voutput_id),
        };
        match node_id {
            Some(nid) => {
                match state.graph.nodes.get(&nid) {
                    Some(node) => {
                        let mc = node.media_class.as_str();
                        let capture_sink = crate::text::same_text(mc, "Audio/Sink") || crate::text::same_text(
                            mc,
                            "Audio/Duplex",
                        );
                        let entry = (nid, node.name.clone(), capture_sink);
                        proof {
                            assert(monitored_view(nodes@.push(entry)) =~= monitored_view(nodes@).push(
                                (nid, node.name@, capture_sink),
                            ));
                        }
                        nodes.push(entry);
                    },
                    None => {},
                }
            },
            None => {},
        }
    }
    proof {
        assert(plans_view(plans@).take(plans@.len() as int) =~= plans_view(plans@));
    }
}

/// Everything the mixer view shows after a rebuild.
#[derive(Debug)]
pub struct MixerPlan {
    pub inputs: Vec<StripPlan>,
    pub buses: Vec<StripPlan>,
    pub outputs: Vec<StripPlan>,
    /// `(node_id, node_name, capture_sink)` for the peak meters.
    pub monitored: Vec<(u32, String, bool)>,
}

fn append_plans(a: &mut Vec<StripPlan>, b: Vec<StripPlan>)
    ensures
        plans_view(final(a)@) == plans_view(old(a)@) + plans_view(b@),
{
    let mut b = b;
    let ghost bv = b@;
    a.append(&mut b);
    proof {
        assert(plans_view(a@) =~= plans_view(old(a)@) + plans_view(bv));
    }
}

/// What the mixer view shows: in the inputs section the configured input
/// strips then the discovered sources, each routable to every bus; in the
/// buses section every bus, routable to the hardware outputs and the other
/// buses; in the outputs section the hardware outputs then the virtual
/// outputs; and the nodes of all these strips, for metering.
pub fn mixer_plan(state: &AppState) -> (r: MixerPlan)
    requires
        discovered_ids_fit(*state),
    ensures
        plans_view(r.inputs@) == configured_input_plans(*state, state.config.strips@, bus_targets(state.config.buses@))
            + discovered_plans(*state, bus_targets(state.config.buses@)),
        plans_view(r.buses@) == bus_plans(*state, output_targets(state.graph@)),
        plans_view(r.outputs@) == output_plans(*state, output_targets(state.graph@)) + voutput_plans(state.config.strips@),
        monitored_view(r.monitored@) == monitored_for(*state, plans_view(r.inputs@)) + monitored_for(
            *state,
            plans_view(r.buses@),
        ) + monitored_for(*state, plans_view(r.outputs@)),
{
    let bus_targets = bus_route_targets(&state.config.buses);
    let out_targets = output_route_targets(state);
    let mut inputs = configured_input_strip_plans(state, &bus_targets);
    append_plans(&mut inputs, discovered_source_plans(state, &bus_targets));
    let buses = bus_strip_plans(state, &out_targets);
    let mut outputs = output_strip_plans(state, &out_targets);
    append_plans(&mut outputs, voutput_strip_plans(state));
    let mut monitored: Vec<(u32, String, bool)> = Vec::new();
    push_monitored(state, &inputs, &mut monitored);
    push_monitored(state, &buses, &mut monitored);
    push_monitored(state, &outputs, &mut monitored);
    proof {
        assert(monitored_view(Seq::<(u32, String, bool)>::empty()) =~= Seq::<(u32, Seq<char>, bool)>::empty());
    }
    MixerPlan { inputs, buses, outputs, monitored }
}

/// The configuration and registrations are untouched but for the lists
/// and counters of the configuration.
pub open spec fn only_config_changed(a: AppState, b: AppState) -> bool {
    &&& a.graph == b.graph
    &&& a.bus_node_map == b.bus_node_map
    &&& a.strip_node_map == b.strip_node_map
    &&& a.node_bus_map == b.node_bus_map
    &&& a.node_strip_map == b.node_strip_map
    &&& a.voutput_node_map == b.voutput_node_map
    &&& a.node_voutput_map == b.node_voutput_map
    &&& a.restore_pending == b.restore_pending
    &&& a.cleanup_done == b.cleanup_done
}

/// Adds a stereo virtual input strip named `VInput <id>` with the next
/// strip id, and asks PipeWire for its node.
pub fn add_virtual_input(state: &mut AppState) -> (cmd: PwCommand)
    requires
        old(state).well_formed(),
        old(state).config.next_strip_id < u32::MAX,
    ensures
        final(state).well_formed(),
        ({
            let id = old(state).config.next_strip_id;
            let name = "VInput "@ + decimal(id as nat);
            &&& only_config_changed(*old(state), *final(state))
            &&& final(state).config.next_strip_id == id + 1
            &&& final(state).config.next_bus_id == old(state).config.next_bus_id
            &&& final(state).config.next_voutput_id == old(state).config.next_voutput_id
            &&& final(state).config.buses == old(state).config.buses
            &&& final(state).config.strips@.drop_last() == old(state).config.strips@
            &&& final(state).config.strips@.len() == old(state).config.strips@.len() + 1
            &&& final(state).config.strips@.last().is_fresh(StripId(id), ChannelLayout::Stereo)
            &&& final(state).config.strips@.last().kind is VirtualInput
            &&& final(state).config.strips@.last().kind->VirtualInput_name@ == name
            &&& cmd@ == (CommandView::CreateVirtualInput { strip_id: StripId(id), name, channels: ChannelLayout::Stereo })
        }),
{
    let strip_id = state.config.allocate_strip_id();
    let name = crate::text::joined("VInput ", decimal_string(strip_id.0).as_str());
    let strip = StripConfig::new_virtual(strip_id, name.clone(), ChannelLayout::Stereo);
    state.config.strips.push(strip);
    proof {
        assert(state.config.strips@.drop_last() =~= old(state).config.strips@);
    }
    PwCommand::CreateVirtualInput { strip_id, name, channels: ChannelLayout::Stereo }
}

/// Adds a stereo bus named `Bus <id>` with the next bus id, and asks
/// PipeWire for its node.
pub fn add_bus(state: &mut AppState) -> (cmd: PwCommand)
    requires
        old(state).well_formed(),
        old(state).config.next_bus_id < u32::MAX,
    ensures
        final(state).well_formed(),
        ({
            let id = old(state).config.next_bus_id;
            let name = "Bus "@ + decimal(id as nat);
            &&& only_config_changed(*old(state), *final(state))
            &&& final(state).config.next_bus_id == id + 1
            &&& final(state).config.next_strip_id == old(state).config.next_strip_id
            &&& final(state).config.next_voutput_id == old(state).config.next_voutput_id
            &&& final(state).config.strips == old(state).config.strips
            &&& final(state).config.buses@.drop_last() == old(state).config.buses@
            &&& final(state).config.buses@.len() == old(state).config.buses@.len() + 1
            &&& final(state).config.buses@.last().id == BusId(id)
            &&& final(state).config.buses@.last().name@ == name
            &&& final(state).config.buses@.last().channels == ChannelLayout::Stereo
            &&& final(state).config.buses@.last().output_targets@.len() == 0
            &&& final(state).config.buses@.last().volume@ == unity_gains(2)
            &&& !final(state).config.buses@.last().muted
            &&& cmd@ == (CommandView::CreateBus { bus_id: BusId(id), name, channels: ChannelLayout::Stereo })
        }),
{
    let bus_id = state.config.allocate_bus_id();
    let name = crate::text::joined("Bus ", decimal_string(bus_id.0).as_str());
    let bus = BusConfig::new(bus_id, name.clone(), ChannelLayout::Stereo);
    state.config.buses.push(bus);
    proof {
        assert(state.config.buses@.drop_last() =~= old(state).config.buses@);
    }
    PwCommand::CreateBus { bus_id, name, channels: ChannelLayout::Stereo }
}

/// Adds a stereo virtual output named `VOutput <n>`, taking the next
/// virtual output id `n` and then the next strip id, and asks PipeWire for
/// its node.
pub fn add_virtual_output(state: &mut AppState) -> (cmd: PwCommand)
    requires
        old(state).well_formed(),
        old(state).config.next_voutput_id < u32::MAX,
        old(state).config.next_strip_id < u32::MAX,
    ensures
        final(state).well_formed(),
        ({
            let vid = old(state).config.next_voutput_id;
            let sid = old(state).config.next_strip_id;
            let name = "VOutput "@ + decimal(vid as nat);
            &&& only_config_changed(*old(state), *final(state))
            &&& final(state).config.next_voutput_id == vid + 1
            &&& final(state).config.next_strip_id == sid + 1
            &&& final(state).config.next_bus_id == old(state).config.next_bus_id
            &&& final(state).config.buses == old(state).config.buses
            &&& final(state).config.strips@.drop_last() == old(state).config.strips@
            &&& final(state).config.strips@.len() == old(state).config.strips@.len() + 1
            &&& final(state).config.strips@.last().is_fresh(StripId(sid), ChannelLayout::Stereo)
            &&& final(state).config.strips@.last().kind is VirtualOutput
            &&& final(state).config.strips@.last().kind->voutput_id == VirtualOutputId(vid)
            &&& final(state).config.strips@.last().kind->VirtualOutput_name@ == name
            &&& cmd@ == (CommandView::CreateVirtualOutput {
                voutput_id: VirtualOutputId(vid),
                name,
                channels: ChannelLayout::Stereo,
            })
        }),
{
    let voutput_id = state.config.allocate_voutput_id();
    let strip_id = state.config.allocate_strip_id();
    let name = crate::text::joined("VOutput ", decimal_string(voutput_id.0).as_str());
    let strip = StripConfig::new_virtual_output(strip_id, voutput_id, name.clone(), ChannelLayout::Stereo);
    state.config.strips.push(strip);
    proof {
        assert(state.config.strips@.drop_last() =~= old(state).config.strips@);
    }
    PwCommand::CreateVirtualOutput { voutput_id, name, channels: ChannelLayout::Stereo }
}

} // verus!
