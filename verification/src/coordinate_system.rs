//! Minecraft-space bounding boxes.

use vstd::prelude::*;

verus! {

/// Bounding box over Minecraft x and z, both ends inclusive.
pub struct XZBBox {
    pub min_x: i32,
    pub max_x: i32,
    pub min_z: i32,
    pub max_z: i32,
}

/// Chunk coordinate of a block coordinate: the block coordinate divided by
/// 16, rounded down.
pub open spec fn chunk_of(v: int) -> int {
    v / 16
}

impl XZBBox {
    pub fn min_x(&self) -> (v: i32)
        ensures
            v == self.min_x,
    {
        self.min_x
    }

    pub fn max_x(&self) -> (v: i32)
        ensures
            v == self.max_x,
    {
        self.max_x
    }

    pub fn min_z(&self) -> (v: i32)
        ensures
            v == self.min_z,
    {
        self.min_z
    }

    pub fn max_z(&self) -> (v: i32)
        ensures
            v == self.max_z,
    {
        self.max_z
    }

    /// Range of chunks that the box touches, as `(min_chunk_x, max_chunk_x,
    /// min_chunk_z, max_chunk_z)`, each end inclusive.
    pub fn chunk_range(&self) -> (r: (i32, i32, i32, i32))
        ensures
            r.0 == chunk_of(self.min_x as int),
            r.1 == chunk_of(self.max_x as int),
            r.2 == chunk_of(self.min_z as int),
            r.3 == chunk_of(self.max_z as int),
    {
        (shift_to_chunk(self.min_x), shift_to_chunk(self.max_x), shift_to_chunk(self.min_z),
            shift_to_chunk(self.max_z))
    }

    /// The smallest box that covers both boxes.
    pub fn union_with(&self, other: &XZBBox) -> (r: XZBBox)
        ensures
            r.min_x == if self.min_x <= other.min_x { self.min_x } else { other.min_x },
            r.max_x == if self.max_x >= other.max_x { self.max_x } else { other.max_x },
            r.min_z == if self.min_z <= other.min_z { self.min_z } else { other.min_z },
            r.max_z == if self.max_z >= other.max_z { self.max_z } else { other.max_z },
    {
        XZBBox {
            min_x: if self.min_x <= other.min_x { self.min_x } else { other.min_x },
            max_x: if self.max_x >= other.max_x { self.max_x } else { other.max_x },
            min_z: if self.min_z <= other.min_z { self.min_z } else { other.min_z },
            max_z: if self.max_z >= other.max_z { self.max_z } else { other.max_z },
        }
    }
}

/// `v >> 4`: the chunk coordinate of block coordinate `v`.
pub fn shift_to_chunk(v: i32) -> (c: i32)
    ensures
        c == chunk_of(v as int),
{
    let c = v >> 4i32;
    assert(16 * (c as int) <= v as int && (v as int) < 16 * (c as int) + 16) by (bit_vector)
        requires
            c == v >> 4i32,
    ;
    proof {
        vstd::arithmetic::div_mod::lemma_div_multiples_vanish_fancy(c as int, v - 16 * c, 16);
    }
    c
}

/// A box covers every box it is the union of.
pub proof fn law_union_covers(a: XZBBox, b: XZBBox, u: XZBBox)
    requires
        u.min_x == if a.min_x <= b.min_x { a.min_x } else { b.min_x },
        u.max_x == if a.max_x >= b.max_x { a.max_x } else { b.max_x },
        u.min_z == if a.min_z <= b.min_z { a.min_z } else { b.min_z },
        u.max_z == if a.max_z >= b.max_z { a.max_z } else { b.max_z },
    ensures
        u.min_x <= a.min_x && u.min_x <= b.min_x,
        u.max_x >= a.max_x && u.max_x >= b.max_x,
        u.min_z <= a.min_z && u.min_z <= b.min_z,
        u.max_z >= a.max_z && u.max_z >= b.max_z,
{
}

} // verus!
