//! The blocks that ore generation reads and writes.

use vstd::prelude::*;

verus! {

/// A block of the underground fill or one of the ores placed into it.
#[derive(Clone, Copy, Debug, PartialEq, Eq, Structural)]
pub enum Block {
    Stone,
    Deepslate,
    CoalOre,
    DeepslateCoalOre,
    IronOre,
    DeepslateIronOre,
    CopperOre,
    DeepslateCopperOre,
    RedstoneOre,
    DeepslateRedstoneOre,
    LapisOre,
    DeepslateLapisOre,
    GoldOre,
    DeepslateGoldOre,
    DiamondOre,
    DeepslateDiamondOre,
    EmeraldOre,
    DeepslateEmeraldOre,
}

impl Block {
    /// The blocks an ore vein may replace.
    pub open spec fn is_ore_substrate(self) -> bool {
        self == Block::Stone || self == Block::Deepslate
    }

    /// Whether this block is one of the two substrate blocks (stone, deepslate).
    pub fn ore_substrate(&self) -> (r: bool)
        ensures
            r == self.is_ore_substrate(),
            r == (*self == Block::Stone || *self == Block::Deepslate),
    {
        match self {
            Block::Stone | Block::Deepslate => true,
            _ => false,
        }
    }
}

} // verus!
