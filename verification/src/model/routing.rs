//! Routing rules: which port pairs to link when a node is routed to
//! another, and which links already join two nodes.
use vstd::prelude::*;
use vstd::string::StrSliceExecFns;

use crate::order::{ascending, ascending_keys, keys_where, lemma_keys_where_step};
use crate::pw::graph::{derefs, GraphView, PortInfo, PwGraph};
use crate::text::{chars_of, same_text};

verus! {

broadcast use vstd::std_specs::hash::group_hash_axioms;

/// What follows the last `_` of a port name, or the whole name when it
/// has none (`playback_FL` gives `FL`, `MONO` gives `MONO`).
pub open spec fn channel_suffix_of(s: Seq<char>) -> Seq<char>
    decreases s.len(),
{
    if s.len() == 0 {
        s
    } else if s.last() == '_' {
        Seq::empty()
    } else {
        channel_suffix_of(s.drop_last()).push(s.last())
    }
}

proof fn lemma_suffix_tail(s: Seq<char>, m: int)
    requires
        0 <= m <= s.len(),
        forall|j: int| m <= j < s.len() ==> s[j] != '_',
    ensures
        channel_suffix_of(s) == channel_suffix_of(s.take(m)) + s.subrange(m, s.len() as int),
    decreases s.len(),
{
    if s.len() == m {
        assert(s.take(m) =~= s);
        assert(s.subrange(m, s.len() as int) =~= Seq::<char>::empty());
        assert(channel_suffix_of(s) + Seq::<char>::empty() =~= channel_suffix_of(s));
    } else {
        let d = s.drop_last();
        lemma_suffix_tail(d, m);
        assert(d.take(m) =~= s.take(m));
        assert(s[s.len() - 1] == s.last());
        assert(channel_suffix_of(s) == channel_suffix_of(d).push(s.last()));
        assert((channel_suffix_of(s.take(m)) + d.subrange(m, d.len() as int)).push(s.last()) =~= channel_suffix_of(
            s.take(m),
        ) + s.subrange(m, s.len() as int));
    }
}

/// The channel part of a name is its longest ending without `_`: it is an
/// ending of the name, holds no `_`, and is preceded by `_` unless it is
/// the whole name.
pub proof fn lemma_channel_suffix_shape(s: Seq<char>)
    ensures
        channel_suffix_of(s).len() <= s.len(),
        channel_suffix_of(s) == s.subrange(s.len() - channel_suffix_of(s).len(), s.len() as int),
        forall|i: int| 0 <= i < channel_suffix_of(s).len() ==> #[trigger] channel_suffix_of(s)[i] != '_',
        channel_suffix_of(s).len() < s.len() ==> s[s.len() - channel_suffix_of(s).len() - 1] == '_',
    decreases s.len(),
{
    if s.len() == 0 {
        assert(s.subrange(0, 0) =~= s);
    } else if s.last() == '_' {
        assert(s.subrange(s.len() as int, s.len() as int) =~= Seq::<char>::empty());
    } else {
        let d = s.drop_last();
        lemma_channel_suffix_shape(d);
        let c = channel_suffix_of(d);
        assert(channel_suffix_of(s) == c.push(s.last()));
        assert(s.subrange(s.len() - c.len() - 1, s.len() as int) =~= d.subrange(d.len() - c.len(), d.len() as int).push(s.last()));
        assert forall|i: int| 0 <= i < c.len() + 1 implies #[trigger] c.push(s.last())[i] != '_' by {
            if i < c.len() {
                assert(c.push(s.last())[i] == c[i]);
            }
        }
        if c.len() < d.len() {
            assert(s[s.len() - c.len() - 2] == d[d.len() - c.len() - 1]);
        }
    }
}

/// The channel part of a port name: what follows its last `_`, or the
/// whole name.
pub fn channel_suffix(port_name: &str) -> (r: &str)
    ensures
        r@ == channel_suffix_of(port_name@),
{
    let cs = chars_of(port_name);
    let n = cs.len();
    let mut i: usize = n;
    while i > 0
        invariant
            cs@ == port_name@,
            n == cs@.len(),
            i <= n,
            forall|j: int| i <= j < n ==> cs@[j] != '_',
        decreases i,
    {
        if cs[i - 1] == '_' {
            proof {
                let s = port_name@;
                lemma_suffix_tail(s, i as int);
                assert(s.take(i as int).last() == '_');
                assert(channel_suffix_of(s.take(i as int)) == Seq::<char>::empty());
                assert(Seq::<char>::empty() + s.subrange(i as int, n as int) =~= s.subrange(i as int, n as int));
            }
            return port_name.substring_char(i, n);
        }
        i = i - 1;
    }
    proof {
        let s = port_name@;
        lemma_suffix_tail(s, 0);
        assert(s.take(0) =~= Seq::<char>::empty());
        assert(Seq::<char>::empty() + s.subrange(0, n as int) =~= s);
    }
    port_name
}

/// The pairs `(o, i)` for input ports `i` whose channel matches that of `o`.
pub open spec fn matches_for(o: PortInfo, ins: Seq<PortInfo>) -> Seq<(u32, u32)>
    decreases ins.len(),
{
    if ins.len() == 0 {
        Seq::empty()
    } else {
        let prev = matches_for(o, ins.drop_last());
        if channel_suffix_of(o.name@) == channel_suffix_of(ins.last().name@) {
            prev.push((o.id, ins.last().id))
        } else {
            prev
        }
    }
}

/// Channel-matched pairs, output by output.
pub open spec fn name_matches(outs: Seq<PortInfo>, ins: Seq<PortInfo>) -> Seq<(u32, u32)>
    decreases outs.len(),
{
    if outs.len() == 0 {
        Seq::empty()
    } else {
        name_matches(outs.drop_last(), ins) + matches_for(outs.last(), ins)
    }
}

/// One output port linked to every input port.
pub open spec fn fan_out(o: PortInfo, ins: Seq<PortInfo>) -> Seq<(u32, u32)> {
    ins.map_values(|i: PortInfo| (o.id, i.id))
}

/// Outputs and inputs paired by position, as far as both go.
pub open spec fn zip_ports(outs: Seq<PortInfo>, ins: Seq<PortInfo>) -> Seq<(u32, u32)> {
    Seq::new(
        if outs.len() <= ins.len() { outs.len() } else { ins.len() },
        |k: int| (outs[k].id, ins[k].id),
    )
}

/// The pairs to link from the output ports `outs` to the input ports
/// `ins`: none when either side has no port; else the channel-matched
/// pairs; else, from a single output, that output to every input; else the
/// ports paired by position.
pub open spec fn link_pairs(outs: Seq<PortInfo>, ins: Seq<PortInfo>) -> Seq<(u32, u32)> {
    if outs.len() == 0 || ins.len() == 0 {
        Seq::empty()
    } else if name_matches(outs, ins).len() > 0 {
        name_matches(outs, ins)
    } else if outs.len() == 1 {
        fan_out(outs[0], ins)
    } else {
        zip_ports(outs, ins)
    }
}

/// The ids of a sequence of ports.
pub open spec fn port_ids(s: Seq<PortInfo>) -> Seq<u32> {
    s.map_values(|p: PortInfo| p.id)
}

impl GraphView {
    /// The port pairs that route `source_node_id` to `dest_node_id`.
    pub open spec fn link_pairs_between(self, source_node_id: u32, dest_node_id: u32) -> Seq<(u32, u32)> {
        link_pairs(self.outputs_of(source_node_id), self.inputs_of(dest_node_id))
    }

    /// The link joins an output port of `source_node_id` to an input port of `dest_node_id`.
    pub open spec fn joins(self, link_id: u32, source_node_id: u32, dest_node_id: u32) -> bool {
        &&& port_ids(self.outputs_of(source_node_id)).contains(self.links[link_id].output_port_id)
        &&& port_ids(self.inputs_of(dest_node_id)).contains(self.links[link_id].input_port_id)
    }

    /// The links from `source_node_id` to `dest_node_id`, ascending by id.
    pub open spec fn links_between(self, source_node_id: u32, dest_node_id: u32) -> Seq<u32> {
        keys_where(ascending(self.links.dom()), |k: u32| self.joins(k, source_node_id, dest_node_id))
    }
}

fn pairs_for_output(o: &PortInfo, ins: &Vec<&PortInfo>, pairs: &mut Vec<(u32, u32)>)
    ensures
        final(pairs)@ == old(pairs)@ + matches_for(*o, derefs(ins@)),
{
    let oc = channel_suffix(o.name.as_str());
    let ghost start = pairs@;
    for j in 0..ins.len()
        invariant
            oc@ == channel_suffix_of(o.name@),
            pairs@ == start + matches_for(*o, derefs(ins@).take(j as int)),
            start == old(pairs)@,
    {
        proof {
            assert(derefs(ins@).take(j + 1).drop_last() =~= derefs(ins@).take(j as int));
            assert(derefs(ins@)[j as int] == *ins@[j as int]);
        }
        let i = ins[j];
        let ic = channel_suffix(i.name.as_str());
        if same_text(oc, ic) {
            pairs.push((o.id, i.id));
            proof {
                assert(pairs@ =~= start + matches_for(*o, derefs(ins@).take(j as int)).push((o.id, i.id)));
            }
        }
    }
    proof {
        assert(derefs(ins@).take(ins@.len() as int) =~= derefs(ins@));
    }
}

/// The port pairs to link so that `source_node_id`'s outputs feed
/// `dest_node_id`'s inputs: ports are matched by channel name (the part
/// after the last `_`); failing that, a single output feeds every input;
/// failing that, ports are paired by position.
pub fn compute_link_pairs(graph: &PwGraph, source_node_id: u32, dest_node_id: u32) -> (r: Vec<(u32, u32)>)
    ensures
        r@ == graph@.link_pairs_between(source_node_id, dest_node_id),
{
    let source_outputs = graph.output_ports_for_node(source_node_id);
    let dest_inputs = graph.input_ports_for_node(dest_node_id);
    let ghost outs = derefs(source_outputs@);
    let ghost ins = derefs(dest_inputs@);
    if source_outputs.len() == 0 || dest_inputs.len() == 0 {
        return Vec::new();
    }
    let mut pairs: Vec<(u32, u32)> = Vec::new();
    for k in 0..source_outputs.len()
        invariant
            outs == derefs(source_outputs@),
            ins == derefs(dest_inputs@),
            pairs@ == name_matches(outs.take(k as int), ins),
    {
        proof {
            assert(outs.take(k + 1).drop_last() =~= outs.take(k as int));
            assert(outs[k as int] == *source_outputs@[k as int]);
        }
        pairs_for_output(source_outputs[k], &dest_inputs, &mut pairs);
    }
    proof {
        assert(outs.take(outs.len() as int) =~= outs);
    }
    if pairs.len() == 0 {
        if source_outputs.len() == 1 {
            let o = source_outputs[0];
            for j in 0..dest_inputs.len()
                invariant
                    ins == derefs(dest_inputs@),
                    outs == derefs(source_outputs@),
                    outs.len() == 1,
                    *o == outs[0],
                    pairs@ == fan_out(*o, ins.take(j as int)),
            {
                proof {
                    assert(ins[j as int] == *dest_inputs@[j as int]);
                }
                pairs.push((o.id, dest_inputs[j].id));
                proof {
                    assert(pairs@ =~= fan_out(*o, ins.take(j + 1)));
                }
            }
            proof {
                assert(ins.take(ins.len() as int) =~= ins);
            }
        } else {
            let n = if source_outputs.len() <= dest_inputs.len() {
                source_outputs.len()
            } else {
                dest_inputs.len()
            };
            for j in 0..n
                invariant
                    ins == derefs(dest_inputs@),
                    outs == derefs(source_outputs@),
                    n == if outs.len() <= ins.len() { outs.len() } else { ins.len() },
                    pairs@ == zip_ports(outs, ins).take(j as int),
            {
                proof {
                    assert(ins[j as int] == *dest_inputs@[j as int]);
                    assert(outs[j as int] == *source_outputs@[j as int]);
                }
                pairs.push((source_outputs[j].id, dest_inputs[j].id));
                proof {
                    assert(pairs@ =~= zip_ports(outs, ins).take(j + 1));
                }
            }
            proof {
                assert(zip_ports(outs, ins).take(n as int) =~= zip_ports(outs, ins));
            }
        }
    }
    pairs
}

fn ids_of(ports: &Vec<&PortInfo>) -> (r: Vec<u32>)
    ensures
        r@ == port_ids(derefs(ports@)),
{
    let mut r: Vec<u32> = Vec::new();
    for i in 0..ports.len()
        invariant
            r@ == port_ids(derefs(ports@)).take(i as int),
    {
        r.push(ports[i].id);
        proof {
            assert(r@ =~= port_ids(derefs(ports@)).take(i + 1));
        }
    }
    proof {
        assert(port_ids(derefs(ports@)).take(ports@.len() as int) =~= port_ids(derefs(ports@)));
    }
    r
}

/// Whether `v` holds `x`.
fn holds(v: &Vec<u32>, x: u32) -> (r: bool)
    ensures
        r == v@.contains(x),
{
    for i in 0..v.len()
        invariant
            forall|j: int| 0 <= j < i ==> v@[j] != x,
    {
        if v[i] == x {
            return true;
        }
    }
    false
}

/// The links that join an output port of `source_node_id` to an input
/// port of `dest_node_id`, ascending by id.
#[verifier::loop_isolation(false)]
pub fn find_links_between(graph: &PwGraph, source_node_id: u32, dest_node_id: u32) -> (r: Vec<u32>)
    ensures
        r@ == graph@.links_between(source_node_id, dest_node_id),
{
    let source_output_ids = ids_of(&graph.output_ports_for_node(source_node_id));
    let dest_input_ids = ids_of(&graph.input_ports_for_node(dest_node_id));
    let keys = ascending_keys(&graph.links);
    let ghost p = |k: u32| graph@.joins(k, source_node_id, dest_node_id);
    let mut r: Vec<u32> = Vec::new();
    for i in 0..keys.len()
        invariant
            r@ == keys_where(keys@.take(i as int), p),
    {
        proof {
            lemma_keys_where_step(keys@, p, i as int);
        }
        let k = keys[i];
        let l = graph.links.get(&k).unwrap();
        if holds(&source_output_ids, l.output_port_id) && holds(&dest_input_ids, l.input_port_id) {
            r.push(k);
        }
    }
    proof {
        assert(keys@.take(keys@.len() as int) =~= keys@);
    }
    r
}

/// The pair joins an output of `outs` to an input of `ins`, and with
/// `same_channel` the two ports carry the same channel.
pub open spec fn joins_ports(p: (u32, u32), outs: Seq<PortInfo>, ins: Seq<PortInfo>, same_channel: bool) -> bool {
    exists|i: int, j: int|
        0 <= i < outs.len() && 0 <= j < ins.len() && p == (#[trigger] outs[i].id, #[trigger] ins[j].id) && (
        same_channel ==> channel_suffix_of(outs[i].name@) == channel_suffix_of(ins[j].name@))
}

proof fn lemma_matches_for_join(outs: Seq<PortInfo>, i: int, ins: Seq<PortInfo>)
    requires
        0 <= i < outs.len(),
    ensures
        forall|k: int|
            0 <= k < matches_for(outs[i], ins).len() ==> joins_ports(
                #[trigger] matches_for(outs[i], ins)[k],
                outs,
                ins,
                true,
            ),
    decreases ins.len(),
{
    if ins.len() > 0 {
        let d = ins.drop_last();
        lemma_matches_for_join(outs, i, d);
        let m = matches_for(outs[i], ins);
        let pm = matches_for(outs[i], d);
        assert forall|k: int| 0 <= k < m.len() implies joins_ports(#[trigger] m[k], outs, ins, true) by {
            if k < pm.len() {
                assert(joins_ports(pm[k], outs, d, true));
                let (a, b) = choose|a: int, b: int|
                    0 <= a < outs.len() && 0 <= b < d.len() && pm[k] == (#[trigger] outs[a].id, #[trigger] d[b].id) && (
                    true ==> channel_suffix_of(outs[a].name@) == channel_suffix_of(d[b].name@));
                assert(d[b] == ins[b]);
            } else {
                assert(ins[ins.len() - 1] == ins.last());
                assert(m[k] == (outs[i].id, ins[ins.len() - 1].id));
            }
        }
    }
}

proof fn lemma_name_matches_join(outs: Seq<PortInfo>, n: int, ins: Seq<PortInfo>)
    requires
        0 <= n <= outs.len(),
    ensures
        forall|k: int|
            0 <= k < name_matches(outs.take(n), ins).len() ==> joins_ports(
                #[trigger] name_matches(outs.take(n), ins)[k],
                outs,
                ins,
                true,
            ),
    decreases n,
{
    if n > 0 {
        lemma_name_matches_join(outs, n - 1, ins);
        lemma_matches_for_join(outs, n - 1, ins);
        assert(outs.take(n).drop_last() =~= outs.take(n - 1));
        assert(outs.take(n).last() == outs[n - 1]);
        let all = name_matches(outs.take(n), ins);
        let prev = name_matches(outs.take(n - 1), ins);
        let last = matches_for(outs[n - 1], ins);
        assert(all == prev + last);
        assert forall|k: int| 0 <= k < all.len() implies joins_ports(#[trigger] all[k], outs, ins, true) by {
            if k < prev.len() {
                assert(all[k] == prev[k]);
            } else {
                assert(all[k] == last[k - prev.len()]);
            }
        }
    }
}

/// Routing links outputs to inputs: every pair chosen to route `outs` to
/// `ins` joins one of the output ports to one of the input ports, and when
/// the ports are matched by channel name, the two ports of every pair carry
/// the same channel.
pub proof fn lemma_link_pairs_join_ports(outs: Seq<PortInfo>, ins: Seq<PortInfo>)
    ensures
        forall|k: int|
            0 <= k < link_pairs(outs, ins).len() ==> joins_ports(
                #[trigger] link_pairs(outs, ins)[k],
                outs,
                ins,
                name_matches(outs, ins).len() > 0,
            ),
{
    let r = link_pairs(outs, ins);
    if outs.len() == 0 || ins.len() == 0 {
    } else if name_matches(outs, ins).len() > 0 {
        lemma_name_matches_join(outs, outs.len() as int, ins);
        assert(outs.take(outs.len() as int) =~= outs);
    } else if outs.len() == 1 {
        assert forall|k: int| 0 <= k < r.len() implies joins_ports(#[trigger] r[k], outs, ins, false) by {
            assert(r[k] == (outs[0].id, ins[k].id));
        }
    } else {
        assert forall|k: int| 0 <= k < r.len() implies joins_ports(#[trigger] r[k], outs, ins, false) by {
            assert(r[k] == (outs[k].id, ins[k].id));
        }
    }
}

} // verus!
