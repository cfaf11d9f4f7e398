//! Which nodes are metered: one capture stream per monitored node, kept in
//! step with the list of nodes the user interface asks for.
use std::collections::HashMap;
use vstd::prelude::*;

use crate::order::{ascending, ascending_keys, keys_where, lemma_keys_below_members, lemma_keys_where_step};
use crate::pw::message::monitored_view;
use crate::pw::registry::props_view;
use crate::text::{decimal, decimal_string, joined};

verus! {

broadcast use vstd::std_specs::hash::group_hash_axioms;

/// The node ids of a list of `(node_id, node_name, capture_sink)` requests.
pub open spec fn requested_ids(nodes: Seq<(u32, String, bool)>) -> Set<u32> {
    Set::new(|id: u32| exists|j: int| 0 <= j < nodes.len() && (#[trigger] nodes[j]).0 == id)
}

/// The requests, in order, for nodes that have no stream yet. A node
/// requested twice appears twice: should opening its stream fail the first
/// time, the later request is tried as well.
pub open spec fn requests_to_open(nodes: Seq<(u32, String, bool)>, have: Set<u32>) -> Seq<(u32, String, bool)>
    decreases nodes.len(),
{
    if nodes.len() == 0 {
        Seq::empty()
    } else {
        let before = requests_to_open(nodes.drop_last(), have);
        if !have.contains(nodes.last().0) {
            before.push(nodes.last())
        } else {
            before
        }
    }
}

/// The capture streams of the metered nodes, keyed by node id.
#[verifier::reject_recursive_types(S)]
pub struct MonitorSet<S> {
    pub streams: HashMap<u32, S>,
}

/// Whether a request for `id` is in the list.
fn is_requested(nodes: &Vec<(u32, String, bool)>, id: u32) -> (r: bool)
    ensures
        r == requested_ids(nodes@).contains(id),
{
    let mut i: usize = 0;
    while i < nodes.len()
        invariant
            i <= nodes@.len(),
            forall|j: int| 0 <= j < i ==> (#[trigger] nodes@[j]).0 != id,
        decreases nodes@.len() - i,
    {
        if nodes[i].0 == id {
            proof {
                assert(nodes@[i as int].0 == id);
            }
            return true;
        }
        i = i + 1;
    }
    false
}

impl<S> MonitorSet<S> {
    /// No stream.
    pub fn new() -> (r: Self)
        ensures
            r.streams@ == Map::<u32, S>::empty(),
    {
        MonitorSet { streams: HashMap::new() }
    }

    /// Whether `id` is metered.
    pub fn is_monitored(&self, id: u32) -> (r: bool)
        ensures
            r == self.streams@.contains_key(id),
    {
        self.streams.contains_key(&id)
    }

    /// Drops the streams of the nodes that are no longer requested and
    /// returns their ids, in ascending order.
    pub fn retain_requested(&mut self, nodes: &Vec<(u32, String, bool)>) -> (removed: Vec<u32>)
        ensures
            final(self).streams@ == old(self).streams@.restrict(requested_ids(nodes@)),
            removed@ == keys_where(
                ascending(old(self).streams@.dom()),
                |k: u32| !requested_ids(nodes@).contains(k),
            ),
    {
        let keys = ascending_keys(&self.streams);
        let ghost old_map = self.streams@;
        let ghost wanted = requested_ids(nodes@);
        let ghost stale = |k: u32| !wanted.contains(k);
        let mut removed: Vec<u32> = Vec::new();
        for i in 0..keys.len()
            invariant
                keys@ == ascending(old_map.dom()),
                wanted == requested_ids(nodes@),
                stale == (|k: u32| !wanted.contains(k)),
                self.streams@ == old_map.restrict(
                    Set::new(|k: u32| wanted.contains(k) || !keys@.take(i as int).contains(k)),
                ),
                removed@ == keys_where(keys@.take(i as int), stale),
        {
            let k = keys[i];
            proof {
                lemma_keys_where_step(keys@, stale, i as int);
                assert(keys@.take(i + 1) =~= keys@.take(i as int).push(k));
            }
            if !is_requested(nodes, k) {
                self.streams.remove(&k);
                removed.push(k);
            }
            proof {
                assert(self.streams@ =~= old_map.restrict(
                    Set::new(|j: u32| wanted.contains(j) || !keys@.take(i + 1).contains(j)),
                ));
            }
        }
        proof {
            assert(keys@.take(keys@.len() as int) =~= keys@);
            lemma_keys_below_members(old_map.dom(), 0x1_0000_0000);
            assert(self.streams@ =~= old_map.restrict(wanted));
        }
        removed
    }

    /// The requests for nodes that have no stream yet, in request order.
    pub fn requests_to_open(&self, nodes: &Vec<(u32, String, bool)>) -> (r: Vec<(u32, String, bool)>)
        ensures
            monitored_view(r@) == monitored_view(requests_to_open(nodes@, self.streams@.dom())),
    {
        let ghost have = self.streams@.dom();
        let mut r: Vec<(u32, String, bool)> = Vec::new();
        for i in 0..nodes.len()
            invariant
                have == self.streams@.dom(),
                monitored_view(r@) == monitored_view(requests_to_open(nodes@.take(i as int), have)),
        {
            let ghost t = nodes@.take(i + 1);
            let ghost before = requests_to_open(nodes@.take(i as int), have);
            proof {
                assert(t.drop_last() =~= nodes@.take(i as int));
                assert(t[i as int] == nodes@[i as int]);
            }
            let id = nodes[i].0;
            if !self.streams.contains_key(&id) {
                let name = nodes[i].1.clone();
                let ghost prev = r@;
                r.push((id, name, nodes[i].2));
                proof {
                    assert(monitored_view(r@) =~= monitored_view(prev).push((id, name@, nodes@[i as int].2)));
                    assert(monitored_view(before.push(t[i as int])) =~= monitored_view(before).push(
                        (id, name@, nodes@[i as int].2),
                    ));
                }
            }
        }
        proof {
            assert(nodes@.take(nodes@.len() as int) =~= nodes@);
        }
        r
    }

    /// Records the stream opened for `id`.
    pub fn insert_stream(&mut self, id: u32, stream: S)
        ensures
            final(self).streams@ == old(self).streams@.insert(id, stream),
    {
        self.streams.insert(id, stream);
    }
}

/// The name of the capture stream metering node `node_id`.
pub open spec fn peak_name(node_id: u32) -> Seq<char> {
    "blabbergraph.peak."@ + decimal(node_id as nat)
}

/// The name of the capture stream metering node `node_id`.
pub fn peak_stream_name(node_id: u32) -> (r: String)
    ensures
        r@ == peak_name(node_id),
{
    let n = decimal_string(node_id);
    joined("blabbergraph.peak.", n.as_str())
}

/// The properties of the capture stream metering node `node_id`, named
/// `node_name`: an audio capture stream for signal processing, aimed at the
/// node by name, virtual, named after the node id; when it captures a sink
/// or duplex node it taps the monitor ports and is passive, so as not to
/// drive the graph.
pub open spec fn peak_props(node_id: u32, node_name: Seq<char>, capture_sink: bool) -> Seq<(Seq<char>, Seq<char>)> {
    let base = seq![
        ("media.type"@, "Audio"@),
        ("media.category"@, "Capture"@),
        ("media.role"@, "DSP"@),
        ("target.object"@, node_name),
        ("node.virtual"@, "true"@),
        ("node.name"@, peak_name(node_id)),
    ];
    if capture_sink {
        base + seq![("stream.capture.sink"@, "true"@), ("node.passive"@, "true"@)]
    } else {
        base
    }
}

/// The properties of the capture stream metering a node.
pub fn peak_stream_properties(node_id: u32, node_name: &str, capture_sink: bool) -> (r: Vec<(String, String)>)
    ensures
        props_view(r@) == peak_props(node_id, node_name@, capture_sink),
{
    let mut r: Vec<(String, String)> = Vec::new();
    r.push((String::from_str("media.type"), String::from_str("Audio")));
    r.push((String::from_str("media.category"), String::from_str("Capture")));
    r.push((String::from_str("media.role"), String::from_str("DSP")));
    r.push((String::from_str("target.object"), String::from_str(node_name)));
    r.push((String::from_str("node.virtual"), String::from_str("true")));
    r.push((String::from_str("node.name"), peak_stream_name(node_id)));
    if capture_sink {
        r.push((String::from_str("stream.capture.sink"), String::from_str("true")));
        r.push((String::from_str("node.passive"), String::from_str("true")));
    }
    proof {
        assert(props_view(r@) =~= peak_props(node_id, node_name@, capture_sink));
    }
    r
}

/// The node a capture stream connects to directly: a source by its id; a
/// sink or duplex node (captured from its monitor ports) none, so that the
/// session manager routes it.
pub fn peak_target(node_id: u32, capture_sink: bool) -> (r: Option<u32>)
    ensures
        r == (if capture_sink { None } else { Some(node_id) }),
{
    if capture_sink {
        None
    } else {
        Some(node_id)
    }
}

proof fn lemma_opened_ids(s: Seq<(u32, String, bool)>, kept: Set<u32>)
    ensures
        requested_ids(requests_to_open(s, kept)) == requested_ids(s).difference(kept),
    decreases s.len(),
{
    if s.len() == 0 {
        assert(requested_ids(s) =~= Set::empty());
        assert(requested_ids(requests_to_open(s, kept)) =~= Set::empty());
    } else {
        let d = s.drop_last();
        let last = s.len() - 1;
        let e = s[last];
        lemma_opened_ids(d, kept);
        let before = requests_to_open(d, kept);
        assert forall|j: int| 0 <= j < d.len() implies d[j] == s[j] by {}
        assert(requested_ids(s) =~= requested_ids(d).insert(e.0)) by {
            assert forall|id: u32| requested_ids(s).contains(id) implies requested_ids(d).insert(e.0).contains(id) by {
                let j = choose|j: int| 0 <= j < s.len() && (#[trigger] s[j]).0 == id;
                if j < last {
                    assert(d[j].0 == id);
                }
            }
            assert forall|id: u32| requested_ids(d).insert(e.0).contains(id) implies requested_ids(s).contains(id) by {
                if id != e.0 {
                    let j = choose|j: int| 0 <= j < d.len() && (#[trigger] d[j]).0 == id;
                    assert(s[j].0 == id);
                } else {
                    assert(s[last].0 == id);
                }
            }
        }
        if !kept.contains(e.0) {
            let after = before.push(e);
            assert(requested_ids(after) =~= requested_ids(before).insert(e.0)) by {
                assert forall|id: u32| requested_ids(after).contains(id) implies requested_ids(before).insert(e.0).contains(id) by {
                    let j = choose|j: int| 0 <= j < after.len() && (#[trigger] after[j]).0 == id;
                    if j < before.len() {
                        assert(before[j].0 == id);
                    }
                }
                assert forall|id: u32| requested_ids(before).insert(e.0).contains(id) implies requested_ids(after).contains(id) by {
                    if id != e.0 {
                        let j = choose|j: int| 0 <= j < before.len() && (#[trigger] before[j]).0 == id;
                        assert(after[j].0 == id);
                    } else {
                        assert(after[before.len() as int].0 == id);
                    }
                }
            }
            assert(requested_ids(after) =~= requested_ids(s).difference(kept));
        } else {
            assert(requested_ids(before) =~= requested_ids(s).difference(kept));
        }
    }
}

/// Metering follows the request: once the streams of nodes no longer
/// requested are dropped, the requests still to open name exactly the
/// requested nodes without a stream, so that when their streams open the
/// metered nodes are exactly the requested ones; no stream is opened for a
/// node still metered.
pub proof fn lemma_metered_as_requested(metered: Set<u32>, nodes: Seq<(u32, String, bool)>)
    ensures
        ({
            let kept = metered.intersect(requested_ids(nodes));
            let opened = requests_to_open(nodes, kept);
            &&& kept.union(requested_ids(opened)) == requested_ids(nodes)
            &&& kept.disjoint(requested_ids(opened))
        }),
{
    let kept = metered.intersect(requested_ids(nodes));
    lemma_opened_ids(nodes, kept);
    let opened = requests_to_open(nodes, kept);
    assert(kept.union(requested_ids(opened)) =~= requested_ids(nodes));
}

} // verus!
