//! What the routing matrix shows: audio output ports as rows, audio input
//! ports as columns, and which cells are linked; and what toggling a cell
//! asks of PipeWire.
use vstd::prelude::*;

use crate::model::state::AppState;
use crate::order::{ascending, ascending_keys, keys_where, lemma_keys_where_step};
use crate::pw::graph::{GraphView, PortInfo, PwGraph};
use crate::pw::message::{CommandView, PortDirection, PwCommand};
use crate::sorting::{
    insert_sorted, lemma_sort_sorted, lemma_text_le_total, lemma_text_le_transitive, sort_sorted, sorted_by,
};
use crate::text::{joined, text_le, text_le_exec};
use crate::pw::graph::LinkInfo;
use crate::ui::app::{removal_refresh, Refresh};
use crate::ui::mixer_view::shown_name;

verus! {

broadcast use vstd::std_specs::hash::group_hash_axioms;

/// Port `a` sorts no later than port `b`: by node id, then by name.
pub open spec fn port_le(a: PortInfo, b: PortInfo) -> bool {
    a.node_id < b.node_id || (a.node_id == b.node_id && text_le(a.name@, b.name@))
}

/// `x` inserted into the port keys `s` after every port that sorts no later.
pub open spec fn insert_port(s: Seq<u32>, x: u32, ports: Map<u32, PortInfo>) -> Seq<u32>
    decreases s.len(),
{
    if s.len() == 0 {
        seq![x]
    } else if port_le(ports[s.last()], ports[x]) {
        s.push(x)
    } else {
        insert_port(s.drop_last(), x, ports).push(s.last())
    }
}

/// The port keys `s` sorted by node id and name, keeping the order of ties.
pub open spec fn sort_ports(s: Seq<u32>, ports: Map<u32, PortInfo>) -> Seq<u32>
    decreases s.len(),
{
    if s.len() == 0 {
        s
    } else {
        insert_port(sort_ports(s.drop_last(), ports), s.last(), ports)
    }
}

impl GraphView {
    /// Keys of the ports of audio nodes with direction `d`, sorted by node id and name.
    pub open spec fn audio_ports(self, d: PortDirection) -> Seq<u32> {
        sort_ports(
            keys_where(ascending(self.ports.dom()), |k: u32| self.is_audio(self.ports[k].node_id) && self.ports[k].direction == d),
            self.ports,
        )
    }

    /// How the matrix names a node: its shown name, or `?` when unknown.
    pub open spec fn node_label(self, node_id: u32) -> Seq<char> {
        if self.nodes.contains_key(node_id) {
            shown_name(self.nodes[node_id])
        } else {
            "?"@
        }
    }
}

/// A row or column header.
#[derive(Debug)]
pub struct PortLabel {
    pub port_id: u32,
    pub text: String,
}

/// The content of the matrix.
#[derive(Debug)]
pub struct MatrixLayout {
    /// Row headers: output ports, labelled `node : port`.
    pub outputs: Vec<PortLabel>,
    /// Column headers: input ports, labelled `node` and `port` on two lines.
    pub inputs: Vec<PortLabel>,
    /// `linked[row][column]`: a link joins the two ports.
    pub linked: Vec<Vec<bool>>,
}

/// The ids and texts of a list of labels.
pub open spec fn labels_view(v: Seq<PortLabel>) -> Seq<(u32, Seq<char>)> {
    v.map_values(|l: PortLabel| (l.port_id, l.text@))
}

/// Row headers for the output port keys `keys`.
pub open spec fn row_labels(g: GraphView, keys: Seq<u32>) -> Seq<(u32, Seq<char>)> {
    keys.map_values(|k: u32| (g.ports[k].id, g.node_label(g.ports[k].node_id) + " : "@ + g.ports[k].name@))
}

/// Column headers for the input port keys `keys`.
pub open spec fn column_labels(g: GraphView, keys: Seq<u32>) -> Seq<(u32, Seq<char>)> {
    keys.map_values(|k: u32| (g.ports[k].id, g.node_label(g.ports[k].node_id) + "\n"@ + g.ports[k].name@))
}

/// The matrix has no rows and no columns when either side has no audio port.
pub open spec fn matrix_is_empty(g: GraphView) -> bool {
    g.audio_ports(PortDirection::Output).len() == 0 || g.audio_ports(PortDirection::Input).len() == 0
}

proof fn lemma_insert_port_at(s: Seq<u32>, x: u32, ports: Map<u32, PortInfo>, p: int)
    requires
        0 <= p <= s.len(),
        p > 0 ==> port_le(ports[s[p - 1]], ports[x]),
        forall|j: int| p <= j < s.len() ==> !port_le(ports[#[trigger] s[j]], ports[x]),
    ensures
        insert_port(s, x, ports) == s.insert(p, x),
    decreases s.len(),
{
    if s.len() == 0 {
        assert(s.insert(p, x) =~= seq![x]);
    } else if p == s.len() {
        assert(s.insert(p, x) =~= s.push(x));
    } else {
        let d = s.drop_last();
        lemma_insert_port_at(d, x, ports, p);
        assert(s.insert(p, x) =~= d.insert(p, x).push(s.last()));
    }
}

fn port_le_exec(a: &PortInfo, b: &PortInfo) -> (r: bool)
    ensures
        r == port_le(*a, *b),
{
    a.node_id < b.node_id || (a.node_id == b.node_id && text_le_exec(a.name.as_str(), b.name.as_str()))
}

#[verifier::loop_isolation(false)]
fn insert_port_exec(graph: &PwGraph, v: &mut Vec<u32>, x: u32)
    requires
        graph@.ports.contains_key(x),
        forall|j: int| 0 <= j < old(v)@.len() ==> graph@.ports.contains_key(#[trigger] old(v)@[j]),
    ensures
        final(v)@ == insert_port(old(v)@, x, graph@.ports),
        forall|j: int| 0 <= j < final(v)@.len() ==> graph@.ports.contains_key(#[trigger] final(v)@[j]),
{
    let px = graph.ports.get(&x).unwrap();
    let mut p: usize = v.len();
    while p > 0 && !port_le_exec(graph.ports.get(&v[p - 1]).unwrap(), px)
        invariant
            p <= v@.len(),
            v@ == old(v)@,
            forall|j: int| p <= j < v@.len() ==> !port_le(graph@.ports[#[trigger] v@[j]], graph@.ports[x]),
        decreases p,
    {
        p = p - 1;
    }
    proof {
        lemma_insert_port_at(v@, x, graph@.ports, p as int);
    }
    v.insert(p, x);
}

/// Keys of the ports of audio nodes with direction `d`, sorted by node id and name.
#[verifier::loop_isolation(false)]
pub fn audio_ports_sorted(graph: &PwGraph, d: PortDirection) -> (r: Vec<u32>)
    ensures
        r@ == graph@.audio_ports(d),
        forall|j: int| 0 <= j < r@.len() ==> graph@.ports.contains_key(#[trigger] r@[j]),
{
    let keys = ascending_keys(&graph.ports);
    let ghost g = graph@;
    let ghost p = |k: u32| g.is_audio(g.ports[k].node_id) && g.ports[k].direction == d;
    let mut sorted: Vec<u32> = Vec::new();
    for i in 0..keys.len()
        invariant
            sorted@ == sort_ports(keys_where(keys@.take(i as int), p), g.ports),
            forall|j: int| 0 <= j < sorted@.len() ==> g.ports.contains_key(#[trigger] sorted@[j]),
    {
        proof {
            lemma_keys_where_step(keys@, p, i as int);
        }
        let k = keys[i];
        let port = graph.ports.get(&k).unwrap();
        if graph.is_audio_node(port.node_id) && port.direction == d {
            insert_port_exec(graph, &mut sorted, k);
            proof {
                let prev = keys_where(keys@.take(i as int), p);
                assert(prev.push(k).drop_last() =~= prev);
            }
        }
    }
    proof {
        assert(keys@.take(keys@.len() as int) =~= keys@);
    }
    sorted
}

fn node_label_text(graph: &PwGraph, node_id: u32) -> (r: String)
    ensures
        r@ == graph@.node_label(node_id),
{
    match graph.nodes.get(&node_id) {
        Some(n) => if n.description.as_str().is_empty() {
            n.name.clone()
        } else {
            n.description.clone()
        },
        None => String::from_str("?"),
    }
}

/// The content of the matrix: rows for the output ports and columns for
/// the input ports of audio nodes, each sorted by node id and port name;
/// a cell is marked when a link joins its two ports. Without an audio
/// output or input port the matrix is empty.
#[verifier::loop_isolation(false)]
pub fn matrix_layout(state: &AppState) -> (r: MatrixLayout)
    ensures
        ({
            let g = state.graph@;
            let outs = g.audio_ports(PortDirection::Output);
            let ins = g.audio_ports(PortDirection::Input);
            if matrix_is_empty(g) {
                r.outputs@.len() == 0 && r.inputs@.len() == 0 && r.linked@.len() == 0
            } else {
                &&& labels_view(r.outputs@) == row_labels(g, outs)
                &&& labels_view(r.inputs@) == column_labels(g, ins)
                &&& r.linked@.len() == outs.len()
                &&& forall|i: int, j: int| #![trigger r.linked@[i]@[j]]
                    0 <= i < outs.len() && 0 <= j < ins.len() ==> r.linked@[i]@.len() == ins.len() && (r.linked@[i]@[j]
                        <==> g.link_between_ports(g.ports[outs[i]].id, g.ports[ins[j]].id) is Some)
            }
        }),
{
    let graph = &state.graph;
    let ghost g = graph@;
    let outs = audio_ports_sorted(graph, PortDirection::Output);
    let ins = audio_ports_sorted(graph, PortDirection::Input);
    if outs.len() == 0 || ins.len() == 0 {
        return MatrixLayout { outputs: Vec::new(), inputs: Vec::new(), linked: Vec::new() };
    }
    let mut inputs: Vec<PortLabel> = Vec::new();
    for j in 0..ins.len()
        invariant
            labels_view(inputs@) == column_labels(g, ins@.take(j as int)),
            inputs@.len() == j,
    {
        let port = graph.ports.get(&ins[j]).unwrap();
        let head = joined(node_label_text(graph, port.node_id).as_str(), "\n");
        let text = joined(head.as_str(), port.name.as_str());
        let label = PortLabel { port_id: port.id, text };
        proof {
            assert(g.ports[ins@[j as int]] == *port);
            assert(text@ == g.node_label(port.node_id) + "\n"@ + port.name@);
            assert(column_labels(g, ins@.take(j + 1)) =~= column_labels(g, ins@.take(j as int)).push((port.id, text@)));
            assert(labels_view(inputs@.push(label)) =~= labels_view(inputs@).push((port.id, text@)));
        }
        inputs.push(label);
    }
    let mut outputs: Vec<PortLabel> = Vec::new();
    let mut linked: Vec<Vec<bool>> = Vec::new();
    for i in 0..outs.len()
        invariant
            labels_view(inputs@) == column_labels(g, ins@.take(ins@.len() as int)),
            labels_view(outputs@) == row_labels(g, outs@.take(i as int)),
            outputs@.len() == i,
            linked@.len() == i,
            forall|a: int| 0 <= a < i ==> (#[trigger] linked@[a])@.len() == ins@.len(),
            forall|a: int, b: int| #![trigger linked@[a]@[b]]
                0 <= a < i && 0 <= b < ins@.len() ==> (linked@[a]@[b]
                    <==> g.link_between_ports(g.ports[outs@[a]].id, g.ports[ins@[b]].id) is Some),
    {
        let port = graph.ports.get(&outs[i]).unwrap();
        let head = joined(node_label_text(graph, port.node_id).as_str(), " : ");
        let text = joined(head.as_str(), port.name.as_str());
        let label = PortLabel { port_id: port.id, text };
        proof {
            assert(g.ports[outs@[i as int]] == *port);
            assert(text@ == g.node_label(port.node_id) + " : "@ + port.name@);
            assert(row_labels(g, outs@.take(i + 1)) =~= row_labels(g, outs@.take(i as int)).push((port.id, text@)));
            assert(labels_view(outputs@.push(label)) =~= labels_view(outputs@).push((port.id, text@)));
        }
        outputs.push(label);
        let mut row: Vec<bool> = Vec::new();
        proof {
            assert(g.ports[outs@[i as int]].id == port.id);
        }
        for j in 0..ins.len()
            invariant
                row@.len() == j,
                forall|b: int| 0 <= b < j ==> (row@[b] <==> g.link_between_ports(port.id, g.ports[ins@[b]].id) is Some),
        {
            let in_port = graph.ports.get(&ins[j]).unwrap();
            row.push(graph.find_link(port.id, in_port.id).is_some());
        }
        let ghost before = linked@;
        linked.push(row);
        proof {
            assert forall|a: int| 0 <= a < i + 1 implies (#[trigger] linked@[a])@.len() == ins@.len() by {
                if a < i {
                    assert(linked@[a] == before[a]);
                }
            }
            assert forall|a: int, b: int| #![trigger linked@[a]@[b]]
                0 <= a < i + 1 && 0 <= b < ins@.len() implies linked@[a]@.len() == ins@.len() && (linked@[a]@[b]
                    <==> g.link_between_ports(g.ports[outs@[a]].id, g.ports[ins@[b]].id) is Some) by {
                if a < i {
                    assert(linked@[a] == before[a]);
                    assert(before[a]@[b] <==> g.link_between_ports(g.ports[outs@[a]].id, g.ports[ins@[b]].id) is Some);
                } else {
                    assert(linked@[a] == row);
                    assert(g.ports[outs@[a]].id == port.id);
                    assert(row@[b] <==> g.link_between_ports(port.id, g.ports[ins@[b]].id) is Some);
                }
            }
        }
    }
    proof {
        assert(ins@.take(ins@.len() as int) =~= ins@);
        assert(outs@.take(outs@.len() as int) =~= outs@);
    }
    MatrixLayout { outputs, inputs, linked }
}

/// What toggling the cell of `output_port_id` and `input_port_id` asks of
/// PipeWire: a new link when switched on; when switched off, the
/// destruction of the lowest-numbered link between the two ports, if any.
pub fn matrix_cell_toggled(graph: &PwGraph, output_port_id: u32, input_port_id: u32, active: bool) -> (r: Option<PwCommand>)
    ensures
        active ==> r is Some && r->0@ == (CommandView::CreateLink { output_port_id, input_port_id }),
        !active ==> match graph@.link_between_ports(output_port_id, input_port_id) {
            Some(l) => r is Some && r->0@ == (CommandView::DestroyLink { link_id: l }),
            None => r is None,
        },
{
    if active {
        Some(PwCommand::CreateLink { output_port_id, input_port_id })
    } else {
        match graph.find_link(output_port_id, input_port_id) {
            Some(link_id) => Some(PwCommand::DestroyLink { link_id }),
            None => None,
        }
    }
}

/// Port keys compare by their ports: node id, then port name.
pub open spec fn port_key_le(ports: Map<u32, PortInfo>) -> spec_fn(u32, u32) -> bool {
    |a: u32, b: u32| port_le(ports[a], ports[b])
}

proof fn lemma_port_sort_is_sort(s: Seq<u32>, ports: Map<u32, PortInfo>)
    ensures
        sort_ports(s, ports) == sort_sorted(s, port_key_le(ports)),
    decreases s.len(),
{
    if s.len() > 0 {
        lemma_port_sort_is_sort(s.drop_last(), ports);
        lemma_insert_port_is_insert(sort_ports(s.drop_last(), ports), s.last(), ports);
    }
}

proof fn lemma_insert_port_is_insert(s: Seq<u32>, x: u32, ports: Map<u32, PortInfo>)
    ensures
        insert_port(s, x, ports) == insert_sorted(s, x, port_key_le(ports)),
    decreases s.len(),
{
    if s.len() > 0 {
        lemma_insert_port_is_insert(s.drop_last(), x, ports);
    }
}

/// The rows and the columns of the matrix come in order of node id, then
/// port name, and list every port of an audio node with that direction
/// once.
pub proof fn lemma_matrix_ports_sorted(g: GraphView, d: PortDirection)
    ensures
        sorted_by(g.audio_ports(d), port_key_le(g.ports)),
        g.audio_ports(d).to_multiset() == keys_where(
            ascending(g.ports.dom()),
            |k: u32| g.is_audio(g.ports[k].node_id) && g.ports[k].direction == d,
        ).to_multiset(),
{
    let le = port_key_le(g.ports);
    assert forall|a: u32, b: u32| #[trigger] le(a, b) || le(b, a) by {
        lemma_text_le_total(g.ports[a].name@, g.ports[b].name@);
    }
    assert forall|a: u32, b: u32, c: u32| #[trigger] le(a, b) && #[trigger] le(b, c) implies le(a, c) by {
        if g.ports[a].node_id == g.ports[b].node_id && g.ports[b].node_id == g.ports[c].node_id {
            lemma_text_le_transitive(g.ports[a].name@, g.ports[b].name@, g.ports[c].name@);
        }
    }
    let keys = keys_where(
        ascending(g.ports.dom()),
        |k: u32| g.is_audio(g.ports[k].node_id) && g.ports[k].direction == d,
    );
    lemma_port_sort_is_sort(keys, g.ports);
    lemma_sort_sorted(keys, le);
}

/// The keys `(output port, input port)` of the matrix's cells, row by row.
pub open spec fn layout_cells(outs: Seq<PortLabel>, ins: Seq<PortLabel>) -> Seq<(u32, u32)>
    decreases outs.len(),
{
    if outs.len() == 0 {
        Seq::empty()
    } else {
        layout_cells(outs.drop_last(), ins) + ins.map_values(|l: PortLabel| (outs.last().port_id, l.port_id))
    }
}

/// The keys of the cells of a matrix layout, row by row.
pub fn matrix_cell_keys(layout: &MatrixLayout) -> (r: Vec<(u32, u32)>)
    ensures
        r@ == layout_cells(layout.outputs@, layout.inputs@),
{
    let outs = &layout.outputs;
    let ins = &layout.inputs;
    let mut r: Vec<(u32, u32)> = Vec::new();
    for a in 0..outs.len()
        invariant
            outs@ == layout.outputs@,
            ins@ == layout.inputs@,
            r@ == layout_cells(outs@.take(a as int), ins@),
    {
        let o = outs[a].port_id;
        let ghost start = r@;
        for b in 0..ins.len()
            invariant
                ins@ == layout.inputs@,
                a < outs@.len(),
                o == outs@[a as int].port_id,
                r@ == start + ins@.take(b as int).map_values(|l: PortLabel| (o, l.port_id)),
        {
            r.push((o, ins[b].port_id));
            proof {
                assert(ins@.take(b + 1).map_values(|l: PortLabel| (o, l.port_id)) =~= ins@.take(b as int).map_values(
                    |l: PortLabel| (o, l.port_id),
                ).push((o, ins@[b as int].port_id)));
                assert(start + ins@.take(b + 1).map_values(|l: PortLabel| (o, l.port_id)) =~= (start + ins@.take(
                    b as int,
                ).map_values(|l: PortLabel| (o, l.port_id))).push((o, ins@[b as int].port_id)));
            }
        }
        proof {
            assert(ins@.take(ins@.len() as int) =~= ins@);
            assert(outs@.take(a + 1).drop_last() =~= outs@.take(a as int));
            assert(outs@.take(a + 1).last() == outs@[a as int]);
        }
    }
    proof {
        assert(outs@.take(outs@.len() as int) =~= outs@);
    }
    r
}

/// Whether the views must be rebuilt after a refresh, given the keys of the
/// matrix's cells: always for a rebuild; for a link added or removed, when
/// the matrix has no cell for its ports; never otherwise.
pub open spec fn rebuild_needed(refresh: Refresh, cells: Seq<(u32, u32)>) -> bool {
    match refresh {
        Refresh::Rebuild => true,
        Refresh::LinkAdded { output_port_id, input_port_id } => !cells.contains((output_port_id, input_port_id)),
        Refresh::LinkRemoved { output_port_id, input_port_id } => !cells.contains((output_port_id, input_port_id)),
        _ => false,
    }
}

/// Whether the views must be rebuilt after `refresh`, the matrix having
/// the cells `cells`.
pub fn needs_rebuild(refresh: &Refresh, cells: &Vec<(u32, u32)>) -> (r: bool)
    ensures
        r == rebuild_needed(*refresh, cells@),
{
    let key = match refresh {
        Refresh::Rebuild => {
            return true;
        },
        Refresh::LinkAdded { output_port_id, input_port_id } => (*output_port_id, *input_port_id),
        Refresh::LinkRemoved { output_port_id, input_port_id } => (*output_port_id, *input_port_id),
        _ => {
            return false;
        },
    };
    for i in 0..cells.len()
        invariant
            rebuild_needed(*refresh, cells@) == !cells@.contains(key),
            forall|j: int| 0 <= j < i ==> cells@[j] != key,
    {
        if cells[i].0 == key.0 && cells[i].1 == key.1 {
            proof {
                assert(cells@[i as int] == key);
            }
            return false;
        }
    }
    true
}

/// A link event needs a full rebuild exactly when the matrix has no cell
/// for its ports: for a link added, the ports it joins; for a link removed,
/// the ports of the removed link, and always when the link was unknown.
pub proof fn lemma_link_event_rebuild(
    links: Map<u32, LinkInfo>,
    id: u32,
    output_port_id: u32,
    input_port_id: u32,
    cells: Seq<(u32, u32)>,
)
    ensures
        rebuild_needed(Refresh::LinkAdded { output_port_id, input_port_id }, cells) == !cells.contains(
            (output_port_id, input_port_id),
        ),
        rebuild_needed(removal_refresh(links, id), cells) == !(links.contains_key(id) && cells.contains(
            (links[id].output_port_id, links[id].input_port_id),
        )),
{
}

} // verus!
