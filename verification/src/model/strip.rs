//! Input strips and virtual outputs as the configuration records them.
use vstd::prelude::*;

use crate::listed::{listed_with, listed_without};
use crate::model::bus::{unity_gains, unity_volume};
use crate::pw::message::{layout_channels, BusId, ChannelLayout, StripId, VirtualOutputId};

verus! {

broadcast use vstd::seq_lib::group_seq_properties;

/// What a strip stands for.
#[derive(Clone, Debug)]
pub enum StripKind {
    /// A hardware capture device, found again by its node name.
    HardwareInput { node_name: String },
    /// A virtual sink the mixer creates, into which applications play.
    VirtualInput { name: String },
    /// A virtual output the mixer creates.
    VirtualOutput { voutput_id: VirtualOutputId, name: String },
}

/// A configured strip.
#[derive(Debug)]
pub struct StripConfig {
    pub id: StripId,
    pub kind: StripKind,
    pub channels: ChannelLayout,
    /// Per-channel gains, as `f32` bit patterns.
    pub volume: Vec<u32>,
    pub muted: bool,
    /// The buses this strip feeds, each listed once.
    pub routed_to: Vec<BusId>,
}

/// The name a strip shows.
pub open spec fn kind_name(k: StripKind) -> Seq<char> {
    match k {
        StripKind::HardwareInput { node_name } => node_name@,
        StripKind::VirtualInput { name } => name@,
        StripKind::VirtualOutput { name, .. } => name@,
    }
}

/// The strip is created by the mixer (a virtual input or output).
pub open spec fn kind_is_virtual(k: StripKind) -> bool {
    !(k is HardwareInput)
}

impl StripConfig {
    /// Each bus is listed once among the routes.
    pub open spec fn well_formed(&self) -> bool {
        self.routed_to@.no_duplicates()
    }

    /// Whether each bus is listed once among the routes.
    pub fn routes_listed_once(&self) -> (r: bool)
        ensures
            r == self.well_formed(),
    {
        let v = &self.routed_to;
        for i in 0..v.len()
            invariant
                v@ == self.routed_to@,
                forall|a: int, b: int| 0 <= a < b < i ==> v@[a] != v@[b],
        {
            for j in 0..i
                invariant
                    v@ == self.routed_to@,
                    i < v@.len(),
                    forall|a: int| 0 <= a < j ==> v@[a] != v@[i as int],
            {
                if v[j].0 == v[i].0 {
                    proof {
                        assert(v@[j as int] == v@[i as int]);
                    }
                    return false;
                }
            }
        }
        true
    }

    /// A fresh strip: unity gain on every channel, unmuted, routed nowhere.
    pub open spec fn is_fresh(&self, id: StripId, channels: ChannelLayout) -> bool {
        &&& self.id == id
        &&& self.channels == channels
        &&& self.volume@ == unity_gains(layout_channels(channels))
        &&& !self.muted
        &&& self.routed_to@ == Seq::<BusId>::empty()
    }

    /// A strip for the hardware capture node named `node_name`.
    pub fn new_hardware(id: StripId, node_name: String, channels: ChannelLayout) -> (s: Self)
        ensures
            s.is_fresh(id, channels),
            s.kind == (StripKind::HardwareInput { node_name }),
    {
        StripConfig {
            id,
            kind: StripKind::HardwareInput { node_name },
            channels,
            volume: unity_volume(channels),
            muted: false,
            routed_to: Vec::new(),
        }
    }

    /// A strip for a virtual input named `name`.
    pub fn new_virtual(id: StripId, name: String, channels: ChannelLayout) -> (s: Self)
        ensures
            s.is_fresh(id, channels),
            s.kind == (StripKind::VirtualInput { name }),
    {
        StripConfig {
            id,
            kind: StripKind::VirtualInput { name },
            channels,
            volume: unity_volume(channels),
            muted: false,
            routed_to: Vec::new(),
        }
    }

    /// A strip for the virtual output `voutput_id` named `name`.
    pub fn new_virtual_output(
        id: StripId,
        voutput_id: VirtualOutputId,
        name: String,
        channels: ChannelLayout,
    ) -> (s: Self)
        ensures
            s.is_fresh(id, channels),
            s.kind == (StripKind::VirtualOutput { voutput_id, name }),
    {
        StripConfig {
            id,
            kind: StripKind::VirtualOutput { voutput_id, name },
            channels,
            volume: unity_volume(channels),
            muted: false,
            routed_to: Vec::new(),
        }
    }

    /// The node name of a hardware strip, or the name of a virtual one.
    pub fn display_name(&self) -> (r: &str)
        ensures
            r@ == kind_name(self.kind),
    {
        match &self.kind {
            StripKind::HardwareInput { node_name } => node_name.as_str(),
            StripKind::VirtualInput { name } => name.as_str(),
            StripKind::VirtualOutput { name, .. } => name.as_str(),
        }
    }

    /// Whether the mixer creates this strip's node itself.
    pub fn is_virtual(&self) -> (r: bool)
        ensures
            r == kind_is_virtual(self.kind),
    {
        match &self.kind {
            StripKind::HardwareInput { .. } => false,
            _ => true,
        }
    }

    /// Whether the strip is a virtual output.
    pub fn is_virtual_output(&self) -> (r: bool)
        ensures
            r == (self.kind is VirtualOutput),
    {
        match &self.kind {
            StripKind::VirtualOutput { .. } => true,
            _ => false,
        }
    }

    /// Whether the strip feeds `bus_id`.
    pub fn routes_to(&self, bus_id: BusId) -> (r: bool)
        ensures
            r == self.routed_to@.contains(bus_id),
    {
        for i in 0..self.routed_to.len()
            invariant
                forall|j: int| 0 <= j < i ==> self.routed_to@[j] != bus_id,
        {
            if self.routed_to[i].0 == bus_id.0 {
                return true;
            }
        }
        false
    }

    /// Makes the strip feed `bus_id` (a bus is listed once).
    pub fn add_route(&mut self, bus_id: BusId)
        requires
            old(self).well_formed(),
        ensures
            final(self).well_formed(),
            final(self).routed_to@ == listed_with(old(self).routed_to@, bus_id),
            final(self).routed_to@.to_set() == old(self).routed_to@.to_set().insert(bus_id),
            final(self).id == old(self).id,
            final(self).kind == old(self).kind,
            final(self).channels == old(self).channels,
            final(self).volume == old(self).volume,
            final(self).muted == old(self).muted,
    {
        if !self.routes_to(bus_id) {
            self.routed_to.push(bus_id);
            proof {
                assert(self.routed_to@.to_set() =~= old(self).routed_to@.to_set().insert(bus_id));
            }
        } else {
            proof {
                assert(old(self).routed_to@.to_set().insert(bus_id) =~= old(self).routed_to@.to_set());
            }
        }
    }

    /// Makes the strip stop feeding `bus_id`.
    pub fn remove_route(&mut self, bus_id: BusId)
        requires
            old(self).well_formed(),
        ensures
            final(self).well_formed(),
            final(self).routed_to@ == listed_without(old(self).routed_to@, bus_id),
            final(self).routed_to@.to_set() == old(self).routed_to@.to_set().remove(bus_id),
            final(self).id == old(self).id,
            final(self).kind == old(self).kind,
            final(self).channels == old(self).channels,
            final(self).volume == old(self).volume,
            final(self).muted == old(self).muted,
    {
        let mut kept: Vec<BusId> = Vec::new();
        for i in 0..self.routed_to.len()
            invariant
                kept@.to_set() == self.routed_to@.take(i as int).to_set().remove(bus_id),
                kept@ == listed_without(self.routed_to@.take(i as int), bus_id),
                self.routed_to@.no_duplicates() ==> kept@.no_duplicates(),
                forall|j: int| 0 <= j < kept@.len() ==> self.routed_to@.take(i as int).contains(#[trigger] kept@[j]),
        {
            let b = self.routed_to[i];
            proof {
                assert(self.routed_to@.take(i + 1) =~= self.routed_to@.take(i as int).push(b));
                reveal(Seq::filter);
                assert(self.routed_to@.take(i + 1).drop_last() =~= self.routed_to@.take(i as int));
                assert forall|j: int| 0 <= j < kept@.len() implies self.routed_to@.take(i + 1).contains(#[trigger] kept@[j]) by {
                    let t = choose|t: int| 0 <= t < i && self.routed_to@.take(i as int)[t] == kept@[j];
                    assert(self.routed_to@.take(i + 1)[t] == kept@[j]);
                }
            }
            if b.0 != bus_id.0 {
                proof {
                    if self.routed_to@.no_duplicates() {
                        assert(!self.routed_to@.take(i as int).contains(b)) by {
                            if self.routed_to@.take(i as int).contains(b) {
                                let t = choose|t: int| 0 <= t < i && self.routed_to@.take(i as int)[t] == b;
                                assert(self.routed_to@[t] == self.routed_to@[i as int]);
                            }
                        }
                    }
                }
                let ghost before = kept@;
                kept.push(b);
                proof {
                    assert(b != bus_id);
                    assert(kept@.to_set() =~= before.to_set().insert(b));
                    assert(self.routed_to@.take(i + 1).to_set() =~= self.routed_to@.take(i as int).to_set().insert(b));
                    assert(kept@.to_set() =~= self.routed_to@.take(i + 1).to_set().remove(bus_id));
                    assert forall|j: int| 0 <= j < kept@.len() implies self.routed_to@.take(i + 1).contains(#[trigger] kept@[j]) by {
                        if j == kept@.len() - 1 {
                            assert(self.routed_to@.take(i + 1)[i as int] == b);
                        } else {
                            let t = choose|t: int| 0 <= t < i && self.routed_to@.take(i as int)[t] == kept@[j];
                            assert(self.routed_to@.take(i + 1)[t] == kept@[j]);
                        }
                    }
                }
            } else {
                proof {
                    assert(b == bus_id);
                    assert(self.routed_to@.take(i + 1).to_set() =~= self.routed_to@.take(i as int).to_set().insert(b));
                    assert(self.routed_to@.take(i + 1).to_set().remove(bus_id) =~= self.routed_to@.take(i as int).to_set().remove(bus_id));
                    assert(kept@.to_set() =~= self.routed_to@.take(i + 1).to_set().remove(bus_id));
                }
            }
        }
        proof {
            assert(self.routed_to@.take(self.routed_to@.len() as int) =~= self.routed_to@);
        }
        self.routed_to = kept;
    }
}

} // verus!
