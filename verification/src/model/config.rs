//! The persisted mixer configuration and its id allocators.
use vstd::prelude::*;

use crate::model::bus::{unity_gains, BusConfig};
use crate::model::strip::{StripConfig, StripKind};
use crate::order::{first_index, lemma_first_index_at, lemma_first_index_none};
use crate::pw::message::{layout_channels, BusId, ChannelLayout, StripId, VirtualOutputId};

verus! {

/// The strip has id `sid`.
pub open spec fn strip_with_id(sid: StripId) -> spec_fn(StripConfig) -> bool {
    |s: StripConfig| s.id == sid
}

/// The bus has id `bid`.
pub open spec fn bus_with_id(bid: BusId) -> spec_fn(BusConfig) -> bool {
    |b: BusConfig| b.id == bid
}

/// The strip is the virtual output `vid`.
pub open spec fn voutput_strip(vid: VirtualOutputId) -> spec_fn(StripConfig) -> bool {
    |s: StripConfig| s.kind is VirtualOutput && s.kind->voutput_id == vid
}

/// An optional position as a mathematical one.
pub open spec fn as_position(r: Option<usize>) -> Option<int> {
    match r {
        Some(i) => Some(i as int),
        None => None,
    }
}

/// Buses, strips and the next free id of each kind.
#[derive(Debug)]
pub struct AppConfig {
    pub buses: Vec<BusConfig>,
    pub strips: Vec<StripConfig>,
    pub next_bus_id: u32,
    pub next_strip_id: u32,
    pub next_voutput_id: u32,
}

impl Default for AppConfig {
    /// No bus, no strip, every counter at zero.
    fn default() -> (c: Self)
        ensures
            c.well_formed(),
            c.buses@.len() == 0,
            c.strips@.len() == 0,
            c.next_bus_id == 0,
            c.next_strip_id == 0,
            c.next_voutput_id == 0,
    {
        AppConfig { buses: Vec::new(), strips: Vec::new(), next_bus_id: 0, next_strip_id: 0, next_voutput_id: 0 }
    }
}

impl AppConfig {
    /// No strip lists a bus twice among its routes and no bus lists an
    /// output twice among its targets.
    pub open spec fn well_formed(&self) -> bool {
        &&& forall|i: int| 0 <= i < self.strips@.len() ==> (#[trigger] self.strips@[i]).well_formed()
        &&& forall|i: int| 0 <= i < self.buses@.len() ==> (#[trigger] self.buses@[i]).well_formed()
    }

    /// The configuration used when none is saved: two stereo buses, `A1`
    /// (id 1) and `B1` (id 2), no strip; the next ids are bus 3, strip 1
    /// and virtual output 1.
    pub open spec fn is_initial(&self) -> bool {
        &&& self.buses@.len() == 2
        &&& self.buses@[0].id == BusId(1)
        &&& self.buses@[0].name@ == "A1"@
        &&& self.buses@[1].id == BusId(2)
        &&& self.buses@[1].name@ == "B1"@
        &&& forall|i: int| 0 <= i < 2 ==> {
            &&& (#[trigger] self.buses@[i]).channels == ChannelLayout::Stereo
            &&& self.buses@[i].output_targets@.len() == 0
            &&& self.buses@[i].volume@ == unity_gains(layout_channels(ChannelLayout::Stereo))
            &&& !self.buses@[i].muted
        }
        &&& self.strips@.len() == 0
        &&& self.next_bus_id == 3
        &&& self.next_strip_id == 1
        &&& self.next_voutput_id == 1
    }

    /// Whether no strip lists a bus twice and no bus lists an output twice.
    pub fn is_well_formed(&self) -> (r: bool)
        ensures
            r == self.well_formed(),
    {
        for i in 0..self.strips.len()
            invariant
                forall|k: int| 0 <= k < i ==> (#[trigger] self.strips@[k]).well_formed(),
        {
            if !self.strips[i].routes_listed_once() {
                return false;
            }
        }
        for i in 0..self.buses.len()
            invariant
                forall|k: int| 0 <= k < self.strips@.len() ==> (#[trigger] self.strips@[k]).well_formed(),
                forall|k: int| 0 <= k < i ==> (#[trigger] self.buses@[k]).well_formed(),
        {
            if !self.buses[i].targets_listed_once() {
                return false;
            }
        }
        true
    }

    /// The configuration used when none is saved.
    pub fn default_config() -> (c: Self)
        ensures
            c.is_initial(),
            c.well_formed(),
    {
        let mut buses: Vec<BusConfig> = Vec::new();
        buses.push(BusConfig::new(BusId(1), String::from_str("A1"), ChannelLayout::Stereo));
        buses.push(BusConfig::new(BusId(2), String::from_str("B1"), ChannelLayout::Stereo));
        AppConfig { buses, strips: Vec::new(), next_bus_id: 3, next_strip_id: 1, next_voutput_id: 1 }
    }

    /// The configuration to start with: the saved one where one was read,
    /// else the configuration used when none is saved.
    pub fn loaded_or_default(saved: Option<AppConfig>) -> (c: Self)
        ensures
            match saved {
                Some(s) => c == s,
                None => c.is_initial() && c.well_formed(),
            },
    {
        match saved {
            Some(s) => s,
            None => Self::default_config(),
        }
    }

    /// Hands out the next bus id and advances the counter.
    pub fn allocate_bus_id(&mut self) -> (id: BusId)
        requires
            old(self).next_bus_id < u32::MAX,
        ensures
            id.0 == old(self).next_bus_id,
            final(self).next_bus_id == old(self).next_bus_id + 1,
            final(self).next_strip_id == old(self).next_strip_id,
            final(self).next_voutput_id == old(self).next_voutput_id,
            final(self).buses == old(self).buses,
            final(self).strips == old(self).strips,
    {
        let id = BusId(self.next_bus_id);
        self.next_bus_id = self.next_bus_id + 1;
        id
    }

    /// Hands out the next strip id and advances the counter.
    pub fn allocate_strip_id(&mut self) -> (id: StripId)
        requires
            old(self).next_strip_id < u32::MAX,
        ensures
            id.0 == old(self).next_strip_id,
            final(self).next_strip_id == old(self).next_strip_id + 1,
            final(self).next_bus_id == old(self).next_bus_id,
            final(self).next_voutput_id == old(self).next_voutput_id,
            final(self).buses == old(self).buses,
            final(self).strips == old(self).strips,
    {
        let id = StripId(self.next_strip_id);
        self.next_strip_id = self.next_strip_id + 1;
        id
    }

    /// Hands out the next virtual output id and advances the counter.
    pub fn allocate_voutput_id(&mut self) -> (id: VirtualOutputId)
        requires
            old(self).next_voutput_id < u32::MAX,
        ensures
            id.0 == old(self).next_voutput_id,
            final(self).next_voutput_id == old(self).next_voutput_id + 1,
            final(self).next_bus_id == old(self).next_bus_id,
            final(self).next_strip_id == old(self).next_strip_id,
            final(self).buses == old(self).buses,
            final(self).strips == old(self).strips,
    {
        let id = VirtualOutputId(self.next_voutput_id);
        self.next_voutput_id = self.next_voutput_id + 1;
        id
    }
    /// Position of the first strip with id `sid`.
    pub fn strip_position(&self, sid: StripId) -> (r: Option<usize>)
        ensures
            as_position(r) == first_index(self.strips@, strip_with_id(sid)),
    {
        for i in 0..self.strips.len()
            invariant
                forall|j: int| 0 <= j < i ==> !strip_with_id(sid)(#[trigger] self.strips@[j]),
        {
            if self.strips[i].id.0 == sid.0 {
                proof {
                    lemma_first_index_at(self.strips@, strip_with_id(sid), i as int);
                }
                return Some(i);
            }
        }
        proof {
            lemma_first_index_none(self.strips@, strip_with_id(sid));
        }
        None
    }

    /// Position of the first bus with id `bid`.
    pub fn bus_position(&self, bid: BusId) -> (r: Option<usize>)
        ensures
            as_position(r) == first_index(self.buses@, bus_with_id(bid)),
    {
        for i in 0..self.buses.len()
            invariant
                forall|j: int| 0 <= j < i ==> !bus_with_id(bid)(#[trigger] self.buses@[j]),
        {
            if self.buses[i].id.0 == bid.0 {
                proof {
                    lemma_first_index_at(self.buses@, bus_with_id(bid), i as int);
                }
                return Some(i);
            }
        }
        proof {
            lemma_first_index_none(self.buses@, bus_with_id(bid));
        }
        None
    }

    /// Position of the first strip that is the virtual output `vid`.
    pub fn voutput_position(&self, vid: VirtualOutputId) -> (r: Option<usize>)
        ensures
            as_position(r) == first_index(self.strips@, voutput_strip(vid)),
    {
        for i in 0..self.strips.len()
            invariant
                forall|j: int| 0 <= j < i ==> !voutput_strip(vid)(#[trigger] self.strips@[j]),
        {
            let hit = match &self.strips[i].kind {
                StripKind::VirtualOutput { voutput_id, .. } => voutput_id.0 == vid.0,
                _ => false,
            };
            if hit {
                proof {
                    lemma_first_index_at(self.strips@, voutput_strip(vid), i as int);
                }
                return Some(i);
            }
        }
        proof {
            lemma_first_index_none(self.strips@, voutput_strip(vid));
        }
        None
    }
}

} // verus!
