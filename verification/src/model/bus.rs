//! Mixing buses as the configuration records them.
use vstd::prelude::*;

use crate::listed::{listed_with, listed_without};
use crate::pw::message::{layout_channels, BusId, ChannelLayout};
use crate::text::same_text;

verus! {

broadcast use vstd::seq_lib::group_seq_properties;

/// Bit pattern of the `f32` gain `1.0`.
pub const UNITY_GAIN_BITS: u32 = 0x3F80_0000;

/// `n` channels at unity gain.
pub open spec fn unity_gains(n: nat) -> Seq<u32> {
    Seq::new(n, |i: int| UNITY_GAIN_BITS)
}

/// One unity gain per channel of `channels`.
pub fn unity_volume(channels: ChannelLayout) -> (v: Vec<u32>)
    ensures
        v@ == unity_gains(layout_channels(channels)),
{
    let v = match channels {
        ChannelLayout::Mono => vec![UNITY_GAIN_BITS],
        ChannelLayout::Stereo => vec![UNITY_GAIN_BITS, UNITY_GAIN_BITS],
    };
    proof {
        assert(v@ =~= unity_gains(layout_channels(channels)));
    }
    v
}

/// A configured bus.
#[derive(Debug)]
pub struct BusConfig {
    pub id: BusId,
    pub name: String,
    pub channels: ChannelLayout,
    /// Node names of the outputs this bus feeds, each listed once.
    pub output_targets: Vec<String>,
    /// Per-channel gains, as `f32` bit patterns.
    pub volume: Vec<u32>,
    pub muted: bool,
}

/// The character sequences of a list of strings.
pub open spec fn texts(v: Seq<String>) -> Seq<Seq<char>> {
    v.map_values(|s: String| s@)
}

impl BusConfig {
    /// Each output is listed once among the targets.
    pub open spec fn well_formed(&self) -> bool {
        texts(self.output_targets@).no_duplicates()
    }

    /// Whether each output is listed once among the targets.
    pub fn targets_listed_once(&self) -> (r: bool)
        ensures
            r == self.well_formed(),
    {
        let v = &self.output_targets;
        let ghost t = texts(v@);
        for i in 0..v.len()
            invariant
                t == texts(v@),
                v@ == self.output_targets@,
                forall|a: int, b: int| 0 <= a < b < i ==> t[a] != t[b],
        {
            for j in 0..i
                invariant
                    t == texts(v@),
                    v@ == self.output_targets@,
                    i < v@.len(),
                    forall|a: int| 0 <= a < j ==> t[a] != t[i as int],
            {
                proof {
                    assert(t[j as int] == v@[j as int]@ && t[i as int] == v@[i as int]@);
                }
                if same_text(v[j].as_str(), v[i].as_str()) {
                    proof {
                        assert(t[j as int] == v@[j as int]@ && t[i as int] == v@[i as int]@);
                        assert(t[j as int] == t[i as int]);
                    }
                    return false;
                }
            }
        }
        true
    }

    /// A bus at unity gain, unmuted, feeding no output.
    pub fn new(id: BusId, name: String, channels: ChannelLayout) -> (b: Self)
        ensures
            b.id == id,
            b.name == name,
            b.channels == channels,
            b.output_targets@ == Seq::<String>::empty(),
            b.volume@ == unity_gains(layout_channels(channels)),
            !b.muted,
    {
        BusConfig {
            id,
            name,
            channels,
            output_targets: Vec::new(),
            volume: unity_volume(channels),
            muted: false,
        }
    }

    /// Whether the bus feeds the output named `node_name`.
    pub fn targets(&self, node_name: &str) -> (r: bool)
        ensures
            r == texts(self.output_targets@).contains(node_name@),
    {
        for i in 0..self.output_targets.len()
            invariant
                forall|j: int| 0 <= j < i ==> self.output_targets@[j]@ != node_name@,
        {
            if same_text(self.output_targets[i].as_str(), node_name) {
                proof {
                    assert(texts(self.output_targets@)[i as int] == node_name@);
                }
                return true;
            }
        }
        proof {
            assert forall|j: int| 0 <= j < texts(self.output_targets@).len() implies texts(self.output_targets@)[j] != node_name@ by {
                assert(texts(self.output_targets@)[j] == self.output_targets@[j]@);
            }
        }
        false
    }

    /// Makes the bus feed the output named `node_name` (listed once).
    pub fn add_target(&mut self, node_name: String)
        requires
            old(self).well_formed(),
        ensures
            final(self).well_formed(),
            texts(final(self).output_targets@) == listed_with(texts(old(self).output_targets@), node_name@),
            texts(final(self).output_targets@).to_set() == texts(old(self).output_targets@).to_set().insert(node_name@),
            final(self).id == old(self).id,
            final(self).name == old(self).name,
            final(self).channels == old(self).channels,
            final(self).volume == old(self).volume,
            final(self).muted == old(self).muted,
    {
        if !self.targets(node_name.as_str()) {
            let ghost name_view = node_name@;
            self.output_targets.push(node_name);
            proof {
                assert(texts(self.output_targets@) =~= texts(old(self).output_targets@).push(name_view));
                assert(texts(self.output_targets@).to_set() =~= texts(old(self).output_targets@).to_set().insert(name_view));
            }
        } else {
            proof {
                assert(texts(old(self).output_targets@).to_set().insert(node_name@) =~= texts(old(self).output_targets@).to_set());
            }
        }
    }

    /// Makes the bus stop feeding the output named `node_name`.
    pub fn remove_target(&mut self, node_name: &str)
        requires
            old(self).well_formed(),
        ensures
            final(self).well_formed(),
            texts(final(self).output_targets@) == listed_without(texts(old(self).output_targets@), node_name@),
            texts(final(self).output_targets@).to_set() == texts(old(self).output_targets@).to_set().remove(node_name@),
            final(self).id == old(self).id,
            final(self).name == old(self).name,
            final(self).channels == old(self).channels,
            final(self).volume == old(self).volume,
            final(self).muted == old(self).muted,
    {
        let mut kept: Vec<String> = Vec::new();
        let ghost all = texts(self.output_targets@);
        for i in 0..self.output_targets.len()
            invariant
                all == texts(self.output_targets@),
                texts(kept@).to_set() == all.take(i as int).to_set().remove(node_name@),
                texts(kept@) == all.take(i as int).filter(|t: Seq<char>| t != node_name@),
                all.no_duplicates() ==> texts(kept@).no_duplicates(),
                forall|j: int| 0 <= j < kept@.len() ==> all.take(i as int).contains(#[trigger] texts(kept@)[j]),
        {
            let s = self.output_targets[i].clone();
            let ghost sv = s@;
            proof {
                assert(all[i as int] == sv);
                assert(all.take(i + 1) =~= all.take(i as int).push(sv));
                reveal(Seq::filter);
                assert(all.take(i + 1).drop_last() =~= all.take(i as int));
            }
            if !same_text(s.as_str(), node_name) {
                proof {
                    if all.no_duplicates() {
                        assert(!all.take(i as int).contains(sv)) by {
                            if all.take(i as int).contains(sv) {
                                let t = choose|t: int| 0 <= t < i && all.take(i as int)[t] == sv;
                                assert(all[t] == all[i as int]);
                            }
                        }
                        assert forall|j: int| 0 <= j < kept@.len() implies texts(kept@)[j] != sv by {
                            assert(all.take(i as int).contains(texts(kept@)[j]));
                        }
                    }
                }
                let ghost before = kept@;
                kept.push(s);
                proof {
                    assert(texts(kept@) =~= texts(before).push(sv));
                    assert(sv != node_name@);
                    assert(texts(kept@).to_set() =~= texts(before).to_set().insert(sv));
                    assert(all.take(i + 1).to_set() =~= all.take(i as int).to_set().insert(sv));
                    assert(texts(kept@).to_set() =~= all.take(i + 1).to_set().remove(node_name@));
                    assert forall|j: int| 0 <= j < kept@.len() implies all.take(i + 1).contains(#[trigger] texts(kept@)[j]) by {
                        if j == kept@.len() - 1 {
                            assert(all.take(i + 1)[i as int] == sv);
                        } else {
                            assert(texts(kept@)[j] == texts(before)[j]);
                            assert(all.take(i as int).contains(texts(before)[j]));
                            let t = choose|t: int| 0 <= t < i && all.take(i as int)[t] == texts(before)[j];
                            assert(all.take(i + 1)[t] == texts(before)[j]);
                        }
                    }
                }
            } else {
                proof {
                    assert(sv == node_name@);
                    assert(all.take(i + 1).to_set() =~= all.take(i as int).to_set().insert(sv));
                    assert(all.take(i + 1).to_set().remove(node_name@) =~= all.take(i as int).to_set().remove(node_name@));
                    assert(texts(kept@).to_set() =~= all.take(i + 1).to_set().remove(node_name@));
                    assert forall|j: int| 0 <= j < kept@.len() implies all.take(i + 1).contains(#[trigger] texts(kept@)[j]) by {
                        let t = choose|t: int| 0 <= t < i && all.take(i as int)[t] == texts(kept@)[j];
                        assert(all.take(i + 1)[t] == texts(kept@)[j]);
                    }
                }
            }
        }
        proof {
            assert(all.take(all.len() as int) =~= all);
        }
        self.output_targets = kept;
    }
}

} // verus!
