//! The properties of the links the mixer creates between two ports.
use vstd::prelude::*;

use crate::order::{is_first, lemma_first_index_at};
use crate::pw::registry::{key_at, prop_id, props_view};
use crate::text::{decimal, decimal_string, lemma_parse_decimal};

verus! {

/// The properties of a link from `output_port_id` to `input_port_id`: the
/// two port ids in decimal, and lingering so that the link outlives the
/// proxy that asked for it.
pub open spec fn link_props(output_port_id: u32, input_port_id: u32) -> Seq<(Seq<char>, Seq<char>)> {
    seq![
        ("link.output.port"@, decimal(output_port_id as nat)),
        ("link.input.port"@, decimal(input_port_id as nat)),
        ("object.linger"@, "true"@),
    ]
}

/// The properties of the link the mixer asks the link factory for.
pub fn link_properties(output_port_id: u32, input_port_id: u32) -> (r: Vec<(String, String)>)
    ensures
        props_view(r@) == link_props(output_port_id, input_port_id),
{
    let mut r: Vec<(String, String)> = Vec::new();
    r.push((String::from_str("link.output.port"), decimal_string(output_port_id)));
    r.push((String::from_str("link.input.port"), decimal_string(input_port_id)));
    r.push((String::from_str("object.linger"), String::from_str("true")));
    proof {
        assert(props_view(r@) =~= link_props(output_port_id, input_port_id));
    }
    r
}

/// A link the mixer asks for is announced with the ports it was asked
/// for: reading the link's properties back as the registry reads a new
/// link gives the output port and the input port it was created with.
pub proof fn lemma_link_props_read_back(props: Seq<(String, String)>, output_port_id: u32, input_port_id: u32)
    requires
        props_view(props) == link_props(output_port_id, input_port_id),
    ensures
        prop_id(props, "link.output.port"@) == output_port_id,
        prop_id(props, "link.input.port"@) == input_port_id,
{
    reveal_strlit("link.output.port");
    reveal_strlit("link.input.port");
    assert(props_view(props).len() == props.len());
    assert(link_props(output_port_id, input_port_id).len() == 3);
    assert(props_view(props)[0] == (props[0].0@, props[0].1@));
    assert(props_view(props)[1] == (props[1].0@, props[1].1@));
    assert(props[0].0@ == "link.output.port"@);
    assert(props[1].0@ == "link.input.port"@);
    assert(props[0].0@ != "link.input.port"@) by {
        assert(props[0].0@[5] != "link.input.port"@[5]);
    }
    assert(is_first(props, key_at("link.output.port"@), 0));
    lemma_first_index_at(props, key_at("link.output.port"@), 0);
    assert(is_first(props, key_at("link.input.port"@), 1));
    lemma_first_index_at(props, key_at("link.input.port"@), 1);
    lemma_parse_decimal(output_port_id);
    lemma_parse_decimal(input_port_id);
}

} // verus!
