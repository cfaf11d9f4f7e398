//! The properties of the virtual nodes the mixer creates: buses, virtual
//! inputs and virtual outputs. Each is a null audio sink run through the
//! adapter factory; they differ in name prefix and media class.
use vstd::prelude::*;

use crate::pw::message::ChannelLayout;
use crate::order::{is_first, lemma_first_index_at};
use crate::pw::registry::{key_at, node_description, prop_text, prop_value, props_view};
use crate::text::{has_prefix, joined};

verus! {

/// The `audio.position` value of a channel layout.
pub open spec fn positions(channels: ChannelLayout) -> Seq<char> {
    match channels {
        ChannelLayout::Mono => "MONO"@,
        ChannelLayout::Stereo => "FL,FR"@,
    }
}

/// The `audio.position` value of a channel layout.
pub fn channel_positions(channels: ChannelLayout) -> (r: &'static str)
    ensures
        r@ == positions(channels),
{
    match channels {
        ChannelLayout::Mono => "MONO",
        ChannelLayout::Stereo => "FL,FR",
    }
}

/// The properties of a virtual node shown as `name`, whose PipeWire name is
/// `prefix` followed by `name`, of media class `class`.
pub open spec fn virtual_node_props(
    prefix: Seq<char>,
    class: Seq<char>,
    name: Seq<char>,
    channels: ChannelLayout,
) -> Seq<(Seq<char>, Seq<char>)> {
    seq![
        ("factory.name"@, "support.null-audio-sink"@),
        ("node.name"@, prefix + name),
        ("node.description"@, name),
        ("media.class"@, class),
        ("audio.position"@, positions(channels)),
        ("node.virtual"@, "true"@),
        ("monitor.channel-volumes"@, "true"@),
    ]
}

/// A property pair made of two texts.
fn pair(k: &str, v: &str) -> (r: (String, String))
    ensures
        r.0@ == k@,
        r.1@ == v@,
{
    (String::from_str(k), String::from_str(v))
}

fn virtual_node_properties(prefix: &str, class: &str, name: &str, channels: ChannelLayout) -> (r: Vec<
    (String, String),
>)
    ensures
        props_view(r@) == virtual_node_props(prefix@, class@, name@, channels),
{
    let mut r: Vec<(String, String)> = Vec::new();
    r.push(pair("factory.name", "support.null-audio-sink"));
    r.push((String::from_str("node.name"), joined(prefix, name)));
    r.push(pair("node.description", name));
    r.push(pair("media.class", class));
    r.push(pair("audio.position", channel_positions(channels)));
    r.push(pair("node.virtual", "true"));
    r.push(pair("monitor.channel-volumes", "true"));
    proof {
        assert(props_view(r@) =~= virtual_node_props(prefix@, class@, name@, channels));
    }
    r
}

/// The properties of a bus: a duplex node named `blabbergraph.bus.<name>`.
pub open spec fn bus_props(name: Seq<char>, channels: ChannelLayout) -> Seq<(Seq<char>, Seq<char>)> {
    virtual_node_props("blabbergraph.bus."@, "Audio/Duplex"@, name, channels)
}

/// The properties of a virtual input: a sink named
/// `blabbergraph.vinput.<name>`.
pub open spec fn virtual_input_props(name: Seq<char>, channels: ChannelLayout) -> Seq<
    (Seq<char>, Seq<char>),
> {
    virtual_node_props("blabbergraph.vinput."@, "Audio/Sink"@, name, channels)
}

/// The properties of a virtual output: a virtual source named
/// `blabbergraph.voutput.<name>`.
pub open spec fn virtual_output_props(name: Seq<char>, channels: ChannelLayout) -> Seq<
    (Seq<char>, Seq<char>),
> {
    virtual_node_props("blabbergraph.voutput."@, "Audio/Source/Virtual"@, name, channels)
}

/// The properties of the node a bus is created as.
pub fn bus_node_properties(name: &str, channels: ChannelLayout) -> (r: Vec<(String, String)>)
    ensures
        props_view(r@) == bus_props(name@, channels),
{
    virtual_node_properties("blabbergraph.bus.", "Audio/Duplex", name, channels)
}

/// The properties of the node a virtual input is created as.
pub fn virtual_input_node_properties(name: &str, channels: ChannelLayout) -> (r: Vec<(String, String)>)
    ensures
        props_view(r@) == virtual_input_props(name@, channels),
{
    virtual_node_properties("blabbergraph.vinput.", "Audio/Sink", name, channels)
}

/// The properties of the node a virtual output is created as.
pub fn virtual_output_node_properties(name: &str, channels: ChannelLayout) -> (r: Vec<(String, String)>)
    ensures
        props_view(r@) == virtual_output_props(name@, channels),
{
    virtual_node_properties("blabbergraph.voutput.", "Audio/Source/Virtual", name, channels)
}

proof fn lemma_virtual_node_read_back(
    props: Seq<(String, String)>,
    prefix: Seq<char>,
    class: Seq<char>,
    name: Seq<char>,
    channels: ChannelLayout,
)
    requires
        props_view(props) == virtual_node_props(prefix, class, name, channels),
    ensures
        prop_text(props, "node.name"@) == prefix + name,
        node_description(props) == name,
        prop_text(props, "media.class"@) == class,
{
    reveal_strlit("factory.name");
    reveal_strlit("node.name");
    reveal_strlit("node.description");
    reveal_strlit("media.class");
    assert(props_view(props).len() == props.len());
    assert(virtual_node_props(prefix, class, name, channels).len() == 7);
    assert forall|i: int| 0 <= i < 4 implies props_view(props)[i] == (#[trigger] props[i].0@, props[i].1@) by {}
    assert(props[0].0@ == "factory.name"@);
    assert(props[1].0@ == "node.name"@);
    assert(props[2].0@ == "node.description"@);
    assert(props[3].0@ == "media.class"@);
    assert(is_first(props, key_at("node.name"@), 1));
    lemma_first_index_at(props, key_at("node.name"@), 1);
    assert("factory.name"@.len() == 12 && "node.name"@.len() == 9);
    assert("node.description"@.len() == 16 && "media.class"@.len() == 11);
    assert(props[0].0@ != "node.description"@ && props[1].0@ != "node.description"@);
    assert(props[0].0@ != "media.class"@ && props[1].0@ != "media.class"@ && props[2].0@ != "media.class"@);
    assert(is_first(props, key_at("node.description"@), 2));
    lemma_first_index_at(props, key_at("node.description"@), 2);
    assert(prop_value(props, "node.description"@) == Some(name));
    assert(is_first(props, key_at("media.class"@), 3));
    lemma_first_index_at(props, key_at("media.class"@), 3);
}

/// A node the mixer creates is announced as it was asked for: reading back
/// the properties of a bus, virtual input or virtual output node as the
/// registry reads a new node gives the mixer's name prefix followed by its
/// name, the name itself as the name shown, and its media class; the node
/// name starts with `blabbergraph.`, the mark by which nodes left over from
/// an earlier run are recognised.
pub proof fn lemma_created_node_read_back(props: Seq<(String, String)>, name: Seq<char>, channels: ChannelLayout)
    ensures
        props_view(props) == bus_props(name, channels) ==> {
            &&& prop_text(props, "node.name"@) == "blabbergraph.bus."@ + name
            &&& node_description(props) == name
            &&& prop_text(props, "media.class"@) == "Audio/Duplex"@
            &&& has_prefix(prop_text(props, "node.name"@), "blabbergraph."@)
        },
        props_view(props) == virtual_input_props(name, channels) ==> {
            &&& prop_text(props, "node.name"@) == "blabbergraph.vinput."@ + name
            &&& node_description(props) == name
            &&& prop_text(props, "media.class"@) == "Audio/Sink"@
            &&& has_prefix(prop_text(props, "node.name"@), "blabbergraph."@)
        },
        props_view(props) == virtual_output_props(name, channels) ==> {
            &&& prop_text(props, "node.name"@) == "blabbergraph.voutput."@ + name
            &&& node_description(props) == name
            &&& prop_text(props, "media.class"@) == "Audio/Source/Virtual"@
            &&& has_prefix(prop_text(props, "node.name"@), "blabbergraph."@)
        },
{
    reveal_strlit("blabbergraph.");
    reveal_strlit("blabbergraph.bus.");
    reveal_strlit("blabbergraph.vinput.");
    reveal_strlit("blabbergraph.voutput.");
    if props_view(props) == bus_props(name, channels) {
        lemma_virtual_node_read_back(props, "blabbergraph.bus."@, "Audio/Duplex"@, name, channels);
        assert(("blabbergraph.bus."@ + name).subrange(0, 13) =~= "blabbergraph."@);
    }
    if props_view(props) == virtual_input_props(name, channels) {
        lemma_virtual_node_read_back(props, "blabbergraph.vinput."@, "Audio/Sink"@, name, channels);
        assert(("blabbergraph.vinput."@ + name).subrange(0, 13) =~= "blabbergraph."@);
    }
    if props_view(props) == virtual_output_props(name, channels) {
        lemma_virtual_node_read_back(props, "blabbergraph.voutput."@, "Audio/Source/Virtual"@, name, channels);
        assert(("blabbergraph.voutput."@ + name).subrange(0, 13) =~= "blabbergraph."@);
    }
}

} // verus!
