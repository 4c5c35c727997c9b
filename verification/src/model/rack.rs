//! A mapping whose pairs may lack a key or a value.

use vstd::prelude::*;

use crate::call::{Call, Reply};
use crate::model::heap::next_after;
use crate::model::world::World;

verus! {

/// The pairs of a mapping, and the key and the value of each; either may be null.
pub struct Rack {
    pub map: usize,
    pub pairs: Seq<usize>,
    pub keys: spec_fn(usize) -> usize,
    pub values: spec_fn(usize) -> usize,
}

impl Rack {
    /// Whether the pairs stand at different places, none of them null.
    pub open spec fn well_formed(self) -> bool {
        self.pairs.no_duplicates() && !self.pairs.contains(0)
    }

    /// Whether the `i`-th pair has a key and a value.
    pub open spec fn whole(self, i: int) -> bool {
        (self.keys)(self.pairs[i]) != 0 && (self.values)(self.pairs[i]) != 0
    }
}

impl World for Rack {
    /// A call on another mapping may do anything.
    open spec fn performs(self, call: Call, reply: Reply, after: Self) -> bool {
        match call {
            Call::MappingIterate { map, last } => map == self.map && (last == 0
                || self.pairs.contains(last)) ==> after == self && reply == Reply::Pointer(
                next_after(self.pairs, last),
            ),
            Call::PairKey { pair } => self.pairs.contains(pair) ==> after == self && reply
                == Reply::Pointer((self.keys)(pair)),
            Call::PairValue { pair } => self.pairs.contains(pair) ==> after == self && reply
                == Reply::Pointer((self.values)(pair)),
            _ => true,
        }
    }
}

} // verus!
