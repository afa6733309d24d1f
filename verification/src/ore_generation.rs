//! Random ore veins for the stone produced by `--fillground`.
//!
//! Vanilla overworld height bands are mapped onto each column's underground fill
//! (`MIN_Y+1` .. `ground_y-3`) with vanilla Y=-64 at the column bottom and Y=64 at
//! the top of stone (sea level), so depth matches normal Minecraft worlds.

use vstd::prelude::*;
use crate::blocks::Block;
use crate::rng::{
    chacha8_i32_draw, chacha8_next_u32, chacha8_seeded, chacha8_u32_draw, coord_rng, coord_seed_of,
    random_i32_in, random_u32_in, random_word,
};
use rand_chacha::ChaCha8Rng;

verus! {

/// Lowest block layer of the world (bedrock).
pub const MIN_Y: i32 = -64;
/// Ground level below which no deepslate band is laid down.
pub const DEFAULT_GROUND_LEVEL: i32 = -62;
/// Thickest deepslate band, in blocks.
pub const MAX_DEEPSLATE_BAND: i32 = 64;
/// Vanilla bedrock floor, mapped to `underground_bottom`.
pub const VANILLA_ANCHOR_FLOOR: i32 = -64;
/// Vanilla sea level (top of normal stone), mapped to `underground_top`.
pub const VANILLA_ANCHOR_SURFACE: i32 = 64;

pub open spec fn min_int(a: int, b: int) -> int {
    if a <= b { a } else { b }
}

pub open spec fn max_int(a: int, b: int) -> int {
    if a >= b { a } else { b }
}

pub open spec fn clamp_int(v: int, lo: int, hi: int) -> int {
    if v < lo { lo } else if v > hi { hi } else { v }
}

/// How a placement spreads its vein centres over its vanilla height band.
#[derive(Clone, Copy, Debug, PartialEq, Eq, Structural)]
pub enum HeightDistribution {
    /// Flat across the Y band.
    Uniform,
    /// Denser near the middle of the band (mean of two uniform samples).
    Triangle,
    /// Denser near the top of the band (max of two uniform samples).
    UpperTriangle,
}

/// One kind of ore vein and where, how often and how large it spawns.
#[derive(Clone, Copy, Debug, PartialEq, Eq, Structural)]
pub struct OrePlacement {
    pub block: Block,
    pub deepslate_variant: Block,
    /// Shallowest vanilla Y for this placement.
    pub vanilla_y_min: i32,
    /// Deepest vanilla Y for this placement.
    pub vanilla_y_max: i32,
    pub distribution: HeightDistribution,
    pub size_min: u32,
    pub size_max: u32,
    /// Spawn tries per chunk for this placement.
    pub spawn_tries: u32,
    /// Chance to skip a vein when it would be air-exposed (0 = never skip),
    /// in units of 2^-24: a roll skips when the top 24 bits of its 32-bit word
    /// are below this number. That is the test `random::<f32>() < chance` of
    /// `rand`, whose `f32` is those 24 bits times 2^-24, written for the chance
    /// times 2^24 rounded up (0.55 is 9227469, 0.5 is 8388608).
    pub air_exposure_skip: u32,
    /// If Some(N), only run on 1 in N chunks.
    pub rarity_one_in: Option<u32>,
    pub rng_salt: u32,
    pub min_height_above_base: Option<i32>,
}

/// Number of ore placements in the table.
pub const ORE_PLACEMENT_COUNT: usize = 16;

/// The ore placement table, in the order in which generation runs it.
pub open spec fn ore_placement_spec(index: int) -> OrePlacement {
    if index == 0 {
        // Coal
        OrePlacement {
            block: Block::CoalOre,
            deepslate_variant: Block::DeepslateCoalOre,
            vanilla_y_min: 0,
            vanilla_y_max: 192,
            distribution: HeightDistribution::Triangle,
            size_min: 8,
            size_max: 17,
            spawn_tries: 14,
            air_exposure_skip: 9227469,
            rarity_one_in: None,
            rng_salt: 0xC0A1_0001,
            min_height_above_base: None,
        }
    } else if index == 1 {
        // Iron
        OrePlacement {
            block: Block::IronOre,
            deepslate_variant: Block::DeepslateIronOre,
            vanilla_y_min: -64i32,
            vanilla_y_max: 72,
            distribution: HeightDistribution::Uniform,
            size_min: 4,
            size_max: 4,
            spawn_tries: 8,
            air_exposure_skip: 2516583,
            rarity_one_in: None,
            rng_salt: 0x1E00_0001,
            min_height_above_base: None,
        }
    } else if index == 2 {
        OrePlacement {
            block: Block::IronOre,
            deepslate_variant: Block::DeepslateIronOre,
            vanilla_y_min: -24i32,
            vanilla_y_max: 56,
            distribution: HeightDistribution::Triangle,
            size_min: 5,
            size_max: 9,
            spawn_tries: 8,
            air_exposure_skip: 4194304,
            rarity_one_in: None,
            rng_salt: 0x1E00_0002,
            min_height_above_base: None,
        }
    } else if index == 3 {
        OrePlacement {
            block: Block::IronOre,
            deepslate_variant: Block::DeepslateIronOre,
            vanilla_y_min: 80,
            vanilla_y_max: 384,
            distribution: HeightDistribution::Triangle,
            size_min: 5,
            size_max: 9,
            spawn_tries: 4,
            air_exposure_skip: 9227469,
            rarity_one_in: None,
            rng_salt: 0x1E00_0003,
            min_height_above_base: None,
        }
    } else if index == 4 {
        // Copper
        OrePlacement {
            block: Block::CopperOre,
            deepslate_variant: Block::DeepslateCopperOre,
            vanilla_y_min: -16i32,
            vanilla_y_max: 112,
            distribution: HeightDistribution::Triangle,
            size_min: 6,
            size_max: 10,
            spawn_tries: 16,
            air_exposure_skip: 0,
            rarity_one_in: None,
            rng_salt: 0xC0FF_0001,
            min_height_above_base: None,
        }
    } else if index == 5 {
        // Redstone
        OrePlacement {
            block: Block::RedstoneOre,
            deepslate_variant: Block::DeepslateRedstoneOre,
            vanilla_y_min: -64i32,
            vanilla_y_max: 32,
            distribution: HeightDistribution::Uniform,
            size_min: 5,
            size_max: 8,
            spawn_tries: 6,
            air_exposure_skip: 0,
            rarity_one_in: None,
            rng_salt: 0xBED5_0001,
            min_height_above_base: None,
        }
    } else if index == 6 {
        OrePlacement {
            block: Block::RedstoneOre,
            deepslate_variant: Block::DeepslateRedstoneOre,
            vanilla_y_min: -64i32,
            vanilla_y_max: -32i32,
            distribution: HeightDistribution::Triangle,
            size_min: 5,
            size_max: 8,
            spawn_tries: 4,
            air_exposure_skip: 0,
            rarity_one_in: None,
            rng_salt: 0xBED5_0002,
            min_height_above_base: None,
        }
    } else if index == 7 {
        // Lapis
        OrePlacement {
            block: Block::LapisOre,
            deepslate_variant: Block::DeepslateLapisOre,
            vanilla_y_min: -32i32,
            vanilla_y_max: 32,
            distribution: HeightDistribution::Triangle,
            size_min: 4,
            size_max: 7,
            spawn_tries: 4,
            air_exposure_skip: 0,
            rarity_one_in: None,
            rng_salt: 0x1A91_0001,
            min_height_above_base: None,
        }
    } else if index == 8 {
        OrePlacement {
            block: Block::LapisOre,
            deepslate_variant: Block::DeepslateLapisOre,
            vanilla_y_min: -64i32,
            vanilla_y_max: 48,
            distribution: HeightDistribution::Uniform,
            size_min: 4,
            size_max: 4,
            spawn_tries: 3,
            air_exposure_skip: 0,
            rarity_one_in: None,
            rng_salt: 0x1A91_0002,
            min_height_above_base: None,
        }
    } else if index == 9 {
        // Gold
        OrePlacement {
            block: Block::GoldOre,
            deepslate_variant: Block::DeepslateGoldOre,
            vanilla_y_min: -64i32,
            vanilla_y_max: 48,
            distribution: HeightDistribution::Triangle,
            size_min: 5,
            size_max: 9,
            spawn_tries: 5,
            air_exposure_skip: 5872026,
            rarity_one_in: None,
            rng_salt: 0x60D0_0001,
            min_height_above_base: None,
        }
    } else if index == 10 {
        OrePlacement {
            block: Block::GoldOre,
            deepslate_variant: Block::DeepslateGoldOre,
            vanilla_y_min: -64i32,
            vanilla_y_max: -48i32,
            distribution: HeightDistribution::Uniform,
            size_min: 5,
            size_max: 9,
            spawn_tries: 2,
            air_exposure_skip: 8388608,
            rarity_one_in: None,
            rng_salt: 0x60D0_0002,
            min_height_above_base: None,
        }
    } else if index == 11 {
        // Diamond
        OrePlacement {
            block: Block::DiamondOre,
            deepslate_variant: Block::DeepslateDiamondOre,
            vanilla_y_min: -64i32,
            vanilla_y_max: 16,
            distribution: HeightDistribution::Triangle,
            size_min: 4,
            size_max: 4,
            spawn_tries: 4,
            air_exposure_skip: 8388608,
            rarity_one_in: None,
            rng_salt: 0xD1A1_0001,
            min_height_above_base: None,
        }
    } else if index == 12 {
        OrePlacement {
            block: Block::DiamondOre,
            deepslate_variant: Block::DeepslateDiamondOre,
            vanilla_y_min: -64i32,
            vanilla_y_max: 16,
            distribution: HeightDistribution::Triangle,
            size_min: 5,
            size_max: 8,
            spawn_tries: 2,
            air_exposure_skip: 0,
            rarity_one_in: None,
            rng_salt: 0xD1A1_0002,
            min_height_above_base: None,
        }
    } else if index == 13 {
        OrePlacement {
            block: Block::DiamondOre,
            deepslate_variant: Block::DeepslateDiamondOre,
            vanilla_y_min: -64i32,
            vanilla_y_max: 16,
            distribution: HeightDistribution::Triangle,
            size_min: 8,
            size_max: 12,
            spawn_tries: 1,
            air_exposure_skip: 0,
            rarity_one_in: Some(14),
            rng_salt: 0xD1A1_0003,
            min_height_above_base: None,
        }
    } else if index == 14 {
        OrePlacement {
            block: Block::DiamondOre,
            deepslate_variant: Block::DeepslateDiamondOre,
            vanilla_y_min: -64i32,
            vanilla_y_max: -4i32,
            distribution: HeightDistribution::Uniform,
            size_min: 5,
            size_max: 8,
            spawn_tries: 1,
            air_exposure_skip: 8388608,
            rarity_one_in: None,
            rng_salt: 0xD1A1_0004,
            min_height_above_base: None,
        }
    } else {
        // Emerald
        OrePlacement {
            block: Block::EmeraldOre,
            deepslate_variant: Block::DeepslateEmeraldOre,
            vanilla_y_min: -16i32,
            vanilla_y_max: 480,
            distribution: HeightDistribution::Triangle,
            size_min: 1,
            size_max: 3,
            spawn_tries: 12,
            air_exposure_skip: 0,
            rarity_one_in: None,
            rng_salt: 0xE1E1_0001,
            min_height_above_base: Some(80),
        }
    }
}

/// Entry `index` of the ore placement table.
pub fn ore_placement(index: usize) -> (p: OrePlacement)
    requires
        index < ORE_PLACEMENT_COUNT,
    ensures
        p == ore_placement_spec(index as int),
{
    match index {
        0 => OrePlacement {
            block: Block::CoalOre,
            deepslate_variant: Block::DeepslateCoalOre,
            vanilla_y_min: 0,
            vanilla_y_max: 192,
            distribution: HeightDistribution::Triangle,
            size_min: 8,
            size_max: 17,
            spawn_tries: 14,
            air_exposure_skip: 9227469,
            rarity_one_in: None,
            rng_salt: 0xC0A1_0001,
            min_height_above_base: None,
        },
        1 => OrePlacement {
            block: Block::IronOre,
            deepslate_variant: Block::DeepslateIronOre,
            vanilla_y_min: -64i32,
            vanilla_y_max: 72,
            distribution: HeightDistribution::Uniform,
            size_min: 4,
            size_max: 4,
            spawn_tries: 8,
            air_exposure_skip: 2516583,
            rarity_one_in: None,
            rng_salt: 0x1E00_0001,
            min_height_above_base: None,
        },
        2 => OrePlacement {
            block: Block::IronOre,
            deepslate_variant: Block::DeepslateIronOre,
            vanilla_y_min: -24i32,
            vanilla_y_max: 56,
            distribution: HeightDistribution::Triangle,
            size_min: 5,
            size_max: 9,
            spawn_tries: 8,
            air_exposure_skip: 4194304,
            rarity_one_in: None,
            rng_salt: 0x1E00_0002,
            min_height_above_base: None,
        },
        3 => OrePlacement {
            block: Block::IronOre,
            deepslate_variant: Block::DeepslateIronOre,
            vanilla_y_min: 80,
            vanilla_y_max: 384,
            distribution: HeightDistribution::Triangle,
            size_min: 5,
            size_max: 9,
            spawn_tries: 4,
            air_exposure_skip: 9227469,
            rarity_one_in: None,
            rng_salt: 0x1E00_0003,
            min_height_above_base: None,
        },
        4 => OrePlacement {
            block: Block::CopperOre,
            deepslate_variant: Block::DeepslateCopperOre,
            vanilla_y_min: -16i32,
            vanilla_y_max: 112,
            distribution: HeightDistribution::Triangle,
            size_min: 6,
            size_max: 10,
            spawn_tries: 16,
            air_exposure_skip: 0,
            rarity_one_in: None,
            rng_salt: 0xC0FF_0001,
            min_height_above_base: None,
        },
        5 => OrePlacement {
            block: Block::RedstoneOre,
            deepslate_variant: Block::DeepslateRedstoneOre,
            vanilla_y_min: -64i32,
            vanilla_y_max: 32,
            distribution: HeightDistribution::Uniform,
            size_min: 5,
            size_max: 8,
            spawn_tries: 6,
            air_exposure_skip: 0,
            rarity_one_in: None,
            rng_salt: 0xBED5_0001,
            min_height_above_base: None,
        },
        6 => OrePlacement {
            block: Block::RedstoneOre,
            deepslate_variant: Block::DeepslateRedstoneOre,
            vanilla_y_min: -64i32,
            vanilla_y_max: -32i32,
            distribution: HeightDistribution::Triangle,
            size_min: 5,
            size_max: 8,
            spawn_tries: 4,
            air_exposure_skip: 0,
            rarity_one_in: None,
            rng_salt: 0xBED5_0002,
            min_height_above_base: None,
        },
        7 => OrePlacement {
            block: Block::LapisOre,
            deepslate_variant: Block::DeepslateLapisOre,
            vanilla_y_min: -32i32,
            vanilla_y_max: 32,
            distribution: HeightDistribution::Triangle,
            size_min: 4,
            size_max: 7,
            spawn_tries: 4,
            air_exposure_skip: 0,
            rarity_one_in: None,
            rng_salt: 0x1A91_0001,
            min_height_above_base: None,
        },
        8 => OrePlacement {
            block: Block::LapisOre,
            deepslate_variant: Block::DeepslateLapisOre,
            vanilla_y_min: -64i32,
            vanilla_y_max: 48,
            distribution: HeightDistribution::Uniform,
            size_min: 4,
            size_max: 4,
            spawn_tries: 3,
            air_exposure_skip: 0,
            rarity_one_in: None,
            rng_salt: 0x1A91_0002,
            min_height_above_base: None,
        },
        9 => OrePlacement {
            block: Block::GoldOre,
            deepslate_variant: Block::DeepslateGoldOre,
            vanilla_y_min: -64i32,
            vanilla_y_max: 48,
            distribution: HeightDistribution::Triangle,
            size_min: 5,
            size_max: 9,
            spawn_tries: 5,
            air_exposure_skip: 5872026,
            rarity_one_in: None,
            rng_salt: 0x60D0_0001,
            min_height_above_base: None,
        },
        10 => OrePlacement {
            block: Block::GoldOre,
            deepslate_variant: Block::DeepslateGoldOre,
            vanilla_y_min: -64i32,
            vanilla_y_max: -48i32,
            distribution: HeightDistribution::Uniform,
            size_min: 5,
            size_max: 9,
            spawn_tries: 2,
            air_exposure_skip: 8388608,
            rarity_one_in: None,
            rng_salt: 0x60D0_0002,
            min_height_above_base: None,
        },
        11 => OrePlacement {
            block: Block::DiamondOre,
            deepslate_variant: Block::DeepslateDiamondOre,
            vanilla_y_min: -64i32,
            vanilla_y_max: 16,
            distribution: HeightDistribution::Triangle,
            size_min: 4,
            size_max: 4,
            spawn_tries: 4,
            air_exposure_skip: 8388608,
            rarity_one_in: None,
            rng_salt: 0xD1A1_0001,
            min_height_above_base: None,
        },
        12 => OrePlacement {
            block: Block::DiamondOre,
            deepslate_variant: Block::DeepslateDiamondOre,
            vanilla_y_min: -64i32,
            vanilla_y_max: 16,
            distribution: HeightDistribution::Triangle,
            size_min: 5,
            size_max: 8,
            spawn_tries: 2,
            air_exposure_skip: 0,
            rarity_one_in: None,
            rng_salt: 0xD1A1_0002,
            min_height_above_base: None,
        },
        13 => OrePlacement {
            block: Block::DiamondOre,
            deepslate_variant: Block::DeepslateDiamondOre,
            vanilla_y_min: -64i32,
            vanilla_y_max: 16,
            distribution: HeightDistribution::Triangle,
            size_min: 8,
            size_max: 12,
            spawn_tries: 1,
            air_exposure_skip: 0,
            rarity_one_in: Some(14),
            rng_salt: 0xD1A1_0003,
            min_height_above_base: None,
        },
        14 => OrePlacement {
            block: Block::DiamondOre,
            deepslate_variant: Block::DeepslateDiamondOre,
            vanilla_y_min: -64i32,
            vanilla_y_max: -4i32,
            distribution: HeightDistribution::Uniform,
            size_min: 5,
            size_max: 8,
            spawn_tries: 1,
            air_exposure_skip: 8388608,
            rarity_one_in: None,
            rng_salt: 0xD1A1_0004,
            min_height_above_base: None,
        },
        _ => OrePlacement {
            block: Block::EmeraldOre,
            deepslate_variant: Block::DeepslateEmeraldOre,
            vanilla_y_min: -16i32,
            vanilla_y_max: 480,
            distribution: HeightDistribution::Triangle,
            size_min: 1,
            size_max: 3,
            spawn_tries: 12,
            air_exposure_skip: 0,
            rarity_one_in: None,
            rng_salt: 0xE1E1_0001,
            min_height_above_base: Some(80),
        },
    }
}


/// Integer division by two rounding toward zero, as Rust's `/` does.
pub open spec fn half_toward_zero(v: int) -> int {
    if v >= 0 { v / 2 } else { -((-v) / 2) }
}

/// Thickness of the deepslate band at the bottom of a column whose ground is at
/// `ground_y`, for a world generated with the given ground level.
pub open spec fn deepslate_height_of(ground_y: int, ground_level: int) -> int {
    if ground_level <= DEFAULT_GROUND_LEVEL {
        0
    } else {
        min_int(half_toward_zero((ground_y - 3) - MIN_Y), MAX_DEEPSLATE_BAND as int)
    }
}

/// The arithmetic of the deepslate band stays in `i32` for these inputs.
pub open spec fn deepslate_inputs_ok(ground_y: i32, ground_level: i32) -> bool {
    ground_level <= DEFAULT_GROUND_LEVEL || (i32::MIN + 3 <= ground_y && ground_y <= i32::MAX - 61)
}

/// Thickness of the deepslate band of a column, as [`deepslate_height_of`] says.
pub fn column_deepslate_height(ground_y: i32, ground_level: i32) -> (h: i32)
    requires
        deepslate_inputs_ok(ground_y, ground_level),
    ensures
        h == deepslate_height_of(ground_y as int, ground_level as int),
{
    if ground_level <= DEFAULT_GROUND_LEVEL {
        return 0;
    }
    let underground_height = (ground_y - 3) - MIN_Y;
    let half = if underground_height >= 0 {
        underground_height / 2
    } else {
        -((-underground_height) / 2)
    };
    if half <= MAX_DEEPSLATE_BAND {
        half
    } else {
        MAX_DEEPSLATE_BAND
    }
}

/// Y below which ore veins take their deepslate variant; `i32::MIN` when the
/// column has no deepslate band.
pub open spec fn deepslate_top_of(ground_y: int, ground_level: int) -> int {
    let height = deepslate_height_of(ground_y, ground_level);
    if height == 0 {
        i32::MIN as int
    } else {
        MIN_Y + height
    }
}

/// Height at which the deepslate band of a column ends, as [`deepslate_top_of`] says.
pub fn deepslate_top_y(ground_y: i32, ground_level: i32) -> (top: i32)
    requires
        deepslate_inputs_ok(ground_y, ground_level),
    ensures
        top == deepslate_top_of(ground_y as int, ground_level as int),
{
    let height = column_deepslate_height(ground_y, ground_level);
    if height == 0 {
        i32::MIN
    } else {
        MIN_Y + height
    }
}

/// No deepslate band for worlds at or below the default ground level; above
/// it, the band is at most `MAX_DEEPSLATE_BAND` blocks over the world bottom.
pub proof fn law_deepslate_band(ground_y: int, ground_level: int)
    ensures
        ground_level <= DEFAULT_GROUND_LEVEL ==> deepslate_top_of(ground_y, ground_level) == i32::MIN,
        deepslate_top_of(ground_y, ground_level) == i32::MIN || deepslate_top_of(
            ground_y,
            ground_level,
        ) <= MIN_Y + MAX_DEEPSLATE_BAND,
{
}

/// Underground fill of a column: from just above bedrock up to three blocks
/// below the ground; `None` when the column has no room for it.
pub open spec fn underground_of(ground_y: int) -> Option<(int, int)> {
    let top = max_int(ground_y - 3, MIN_Y + 1);
    let bottom = MIN_Y + 1;
    if top <= bottom {
        None
    } else {
        Some((bottom, top))
    }
}

/// The underground fill of a column, as [`underground_of`] says.
pub fn underground_bounds(ground_y: i32) -> (r: Option<(i32, i32)>)
    requires
        ground_y >= i32::MIN + 3,
    ensures
        r is Some <==> underground_of(ground_y as int) is Some,
        r matches Some((b, t)) ==> underground_of(ground_y as int) == Some((b as int, t as int)),
{
    let below_ground = ground_y - 3;
    let underground_top = if below_ground >= MIN_Y + 1 {
        below_ground
    } else {
        MIN_Y + 1
    };
    let underground_bottom = MIN_Y + 1;
    if underground_top <= underground_bottom {
        return None;
    }
    Some((underground_bottom, underground_top))
}

/// Vanilla Y at the top of the anchor range for this column (sea level, or
/// higher when terrain is tall).
pub open spec fn anchor_ceiling_of(ground_y: int) -> int {
    match underground_of(ground_y) {
        None => VANILLA_ANCHOR_SURFACE as int,
        Some((bottom, top)) => {
            let col_span = top - bottom;
            if col_span <= VANILLA_ANCHOR_SURFACE - VANILLA_ANCHOR_FLOOR {
                VANILLA_ANCHOR_SURFACE as int
            } else {
                VANILLA_ANCHOR_FLOOR + col_span
            }
        },
    }
}

/// The column arithmetic stays in `i32` for this ground height.
pub open spec fn ground_in_range(ground_y: int) -> bool {
    i32::MIN + 3 <= ground_y <= i32::MAX - 60
}

/// The anchor ceiling of a column, as [`anchor_ceiling_of`] says.
pub fn vanilla_anchor_ceiling(ground_y: i32) -> (c: i32)
    requires
        ground_in_range(ground_y as int),
    ensures
        c == anchor_ceiling_of(ground_y as int),
        c >= VANILLA_ANCHOR_SURFACE,
{
    let Some((bottom, top)) = underground_bounds(ground_y) else {
        return VANILLA_ANCHOR_SURFACE;
    };
    let col_span = top - bottom;
    let sea_span = VANILLA_ANCHOR_SURFACE - VANILLA_ANCHOR_FLOOR;
    if col_span <= sea_span {
        VANILLA_ANCHOR_SURFACE
    } else {
        VANILLA_ANCHOR_FLOOR + col_span
    }
}

/// `a * b / c` rounded to the nearest integer, halves rounding up.
pub open spec fn round_ratio(a: int, b: int, c: int) -> int {
    (2 * a * b + c) / (2 * c)
}

/// Vanilla Y mapped linearly onto the column: the vanilla floor lands on
/// `underground_bottom`, `vanilla_ceiling` on `underground_top`, and vanilla
/// heights outside that range are clamped to it first.
pub open spec fn column_y_of(vanilla_y: int, bottom: int, top: int, ceiling: int) -> int {
    let col_span = max_int(top - bottom, 1);
    let clamped = clamp_int(vanilla_y, VANILLA_ANCHOR_FLOOR as int, ceiling);
    let anchor_span = max_int(ceiling - VANILLA_ANCHOR_FLOOR, 1);
    bottom + round_ratio(clamped - VANILLA_ANCHOR_FLOOR, col_span, anchor_span)
}

/// The column bounds and ceiling with which the vanilla-to-column map is
/// defined (`clamp` needs the floor below the ceiling) and its spans stay in
/// `i32`.
pub open spec fn column_map_inputs_ok(bottom: int, top: int, ceiling: int) -> bool {
    &&& i32::MIN <= top - bottom <= i32::MAX
    &&& VANILLA_ANCHOR_FLOOR <= ceiling
    &&& ceiling - VANILLA_ANCHOR_FLOOR <= i32::MAX
}

proof fn lemma_round_ratio_bounds(a: int, b: int, c: int)
    requires
        0 <= a <= c,
        1 <= b,
        1 <= c,
    ensures
        0 <= round_ratio(a, b, c) <= b,
        a == 0 ==> round_ratio(a, b, c) == 0,
        a == c ==> round_ratio(a, b, c) == b,
{
    assert(0 <= 2 * a * b) by (nonlinear_arith)
        requires 0 <= a, 1 <= b;
    assert(2 * a * b <= 2 * c * b) by (nonlinear_arith)
        requires 0 <= a <= c, 1 <= b;
    assert((2 * a * b + c) / (2 * c) <= b) by (nonlinear_arith)
        requires 0 <= 2 * a * b <= 2 * c * b, 1 <= c, 1 <= b;
    assert((2 * a * b + c) / (2 * c) >= 0) by (nonlinear_arith)
        requires 0 <= 2 * a * b, 1 <= c;
    if a == 0 {
        assert(2 * a * b == 0) by (nonlinear_arith) requires a == 0;
        assert(c / (2 * c) == 0) by (nonlinear_arith) requires 1 <= c;
    }
    if a == c {
        assert((2 * c * b + c) / (2 * c) == b) by (nonlinear_arith) requires 1 <= c, 1 <= b;
    }
}

/// A larger first argument never gives a smaller rounded ratio.
pub proof fn lemma_round_ratio_monotone(a1: int, a2: int, b: int, c: int)
    requires
        0 <= a1 <= a2,
        1 <= b,
        1 <= c,
    ensures
        round_ratio(a1, b, c) <= round_ratio(a2, b, c),
{
    assert(2 * a1 * b + c <= 2 * a2 * b + c) by (nonlinear_arith)
        requires 0 <= a1 <= a2, 1 <= b;
    vstd::arithmetic::div_mod::lemma_div_is_ordered(2 * a1 * b + c, 2 * a2 * b + c, 2 * c);
}

/// Vanilla Y mapped onto the column, as [`column_y_of`] says.
pub fn map_vanilla_y_to_column(
    vanilla_y: i32,
    underground_bottom: i32,
    underground_top: i32,
    vanilla_ceiling: i32,
) -> (y: i32)
    requires
        column_map_inputs_ok(
            underground_bottom as int,
            underground_top as int,
            vanilla_ceiling as int,
        ),
        column_y_of(
            vanilla_y as int,
            underground_bottom as int,
            underground_top as int,
            vanilla_ceiling as int,
        ) <= i32::MAX,
    ensures
        y == column_y_of(
            vanilla_y as int,
            underground_bottom as int,
            underground_top as int,
            vanilla_ceiling as int,
        ),
{
    let diff = underground_top - underground_bottom;
    let col_span: i32 = if diff >= 1 { diff } else { 1 };
    let clamped = if vanilla_y < VANILLA_ANCHOR_FLOOR {
        VANILLA_ANCHOR_FLOOR
    } else if vanilla_y > vanilla_ceiling {
        vanilla_ceiling
    } else {
        vanilla_y
    };
    let anchor_diff = vanilla_ceiling - VANILLA_ANCHOR_FLOOR;
    let anchor_span: i32 = if anchor_diff >= 1 { anchor_diff } else { 1 };
    let a: u128 = (clamped - VANILLA_ANCHOR_FLOOR) as u128;
    let b: u128 = col_span as u128;
    let c: u128 = anchor_span as u128;
    proof {
        lemma_round_ratio_bounds(a as int, b as int, c as int);
        assert(2 * a * b <= 0x2_0000_0000_0000_0000) by (nonlinear_arith)
            requires a <= 0x1_0000_0000, b <= 0x1_0000_0000;
    }
    let steps: u128 = (2 * a * b + c) / (2 * c);
    underground_bottom + steps as i32
}

/// The map sends the vanilla floor (and anything below it) to the bottom of the
/// fill, the anchor ceiling (and anything above it) to the top of the fill, and
/// everything in between into the fill.
pub proof fn law_column_map_endpoints_and_range(vanilla_y: int, bottom: int, top: int, ceiling: int)
    requires
        bottom < top,
        VANILLA_ANCHOR_FLOOR < ceiling,
    ensures
        bottom <= column_y_of(vanilla_y, bottom, top, ceiling) <= top,
        vanilla_y <= VANILLA_ANCHOR_FLOOR ==> column_y_of(vanilla_y, bottom, top, ceiling) == bottom,
        vanilla_y >= ceiling ==> column_y_of(vanilla_y, bottom, top, ceiling) == top,
{
    let clamped = clamp_int(vanilla_y, VANILLA_ANCHOR_FLOOR as int, ceiling);
    lemma_round_ratio_bounds(clamped - VANILLA_ANCHOR_FLOOR, top - bottom, ceiling - VANILLA_ANCHOR_FLOOR);
}

/// Higher vanilla heights never map lower in the column.
pub proof fn law_column_map_monotone(v1: int, v2: int, bottom: int, top: int, ceiling: int)
    requires
        v1 <= v2,
        VANILLA_ANCHOR_FLOOR <= ceiling,
    ensures
        column_y_of(v1, bottom, top, ceiling) <= column_y_of(v2, bottom, top, ceiling),
{
    let c1 = clamp_int(v1, VANILLA_ANCHOR_FLOOR as int, ceiling);
    let c2 = clamp_int(v2, VANILLA_ANCHOR_FLOOR as int, ceiling);
    lemma_round_ratio_monotone(
        c1 - VANILLA_ANCHOR_FLOOR,
        c2 - VANILLA_ANCHOR_FLOOR,
        max_int(top - bottom, 1),
        max_int(ceiling - VANILLA_ANCHOR_FLOOR, 1),
    );
}

/// Every column's fill runs from the vanilla floor to its anchor ceiling: a
/// column no taller than the vanilla span from bedrock to sea level maps
/// vanilla -64 to the bottom of its fill and vanilla 64 (sea level) to the
/// top, while a taller column keeps one block per vanilla block, vanilla `v`
/// landing 64 + `v` blocks above the bottom (`v` clamped to the floor and the
/// ceiling).
pub proof fn law_tall_column_one_block_per_block(ground_y: int, vanilla_y: int)
    ensures
        match underground_of(ground_y) {
            Some((bottom, top)) => {
                let ceiling = anchor_ceiling_of(ground_y);
                if top - bottom <= VANILLA_ANCHOR_SURFACE - VANILLA_ANCHOR_FLOOR {
                    &&& ceiling == VANILLA_ANCHOR_SURFACE
                    &&& column_y_of(VANILLA_ANCHOR_FLOOR as int, bottom, top, ceiling) == bottom
                    &&& column_y_of(VANILLA_ANCHOR_SURFACE as int, bottom, top, ceiling) == top
                } else {
                    column_y_of(vanilla_y, bottom, top, ceiling) == bottom - VANILLA_ANCHOR_FLOOR
                        + clamp_int(vanilla_y, VANILLA_ANCHOR_FLOOR as int, ceiling)
                }
            },
            None => true,
        },
{
    if let Some((bottom, top)) = underground_of(ground_y) {
        let ceiling = anchor_ceiling_of(ground_y);
        if top - bottom <= VANILLA_ANCHOR_SURFACE - VANILLA_ANCHOR_FLOOR {
            law_column_map_endpoints_and_range(VANILLA_ANCHOR_FLOOR as int, bottom, top, ceiling);
            law_column_map_endpoints_and_range(VANILLA_ANCHOR_SURFACE as int, bottom, top, ceiling);
        } else {
            let span = top - bottom;
            let a = clamp_int(vanilla_y, VANILLA_ANCHOR_FLOOR as int, ceiling) - VANILLA_ANCHOR_FLOOR;
            assert(ceiling - VANILLA_ANCHOR_FLOOR == span);
            assert(2 * a * span + span == a * (2 * span) + span) by (nonlinear_arith);
            vstd::arithmetic::div_mod::lemma_fundamental_div_mod_converse(
                2 * a * span + span,
                2 * span,
                a,
                span,
            );
        }
    }
}

/// The placement's vanilla height band cut to what the column's anchor range
/// covers; `None` when nothing of it is left.
pub open spec fn vanilla_band_of(p: OrePlacement, ground_y: int) -> Option<(int, int)> {
    let ceiling = anchor_ceiling_of(ground_y);
    let lo = max_int(p.vanilla_y_min as int, VANILLA_ANCHOR_FLOOR as int);
    let hi = min_int(p.vanilla_y_max as int, ceiling);
    if lo > hi {
        None
    } else {
        Some((lo, hi))
    }
}

/// The placement's vanilla band cut to the column's anchor range, as [`vanilla_band_of`] says.
pub fn clamped_vanilla_band(placement: &OrePlacement, ground_y: i32) -> (r: Option<(i32, i32)>)
    requires
        ground_in_range(ground_y as int),
    ensures
        r is Some <==> vanilla_band_of(*placement, ground_y as int) is Some,
        r matches Some((lo, hi)) ==> vanilla_band_of(*placement, ground_y as int) == Some(
            (lo as int, hi as int),
        ),
{
    let ceiling = vanilla_anchor_ceiling(ground_y);
    let lo = if placement.vanilla_y_min >= VANILLA_ANCHOR_FLOOR {
        placement.vanilla_y_min
    } else {
        VANILLA_ANCHOR_FLOOR
    };
    let hi = if placement.vanilla_y_max <= ceiling {
        placement.vanilla_y_max
    } else {
        ceiling
    };
    if lo > hi {
        return None;
    }
    Some((lo, hi))
}

/// Column heights between which a placement puts its vein centres: the ends of
/// its vanilla band mapped onto the column's underground fill.
pub open spec fn placement_range_of(p: OrePlacement, ground_y: int) -> Option<(int, int)> {
    match (underground_of(ground_y), vanilla_band_of(p, ground_y)) {
        (Some((bottom, top)), Some((lo, hi))) => {
            let ceiling = anchor_ceiling_of(ground_y);
            Some((column_y_of(lo, bottom, top, ceiling), column_y_of(hi, bottom, top, ceiling)))
        },
        _ => None,
    }
}

proof fn lemma_ceiling_facts(ground_y: int)
    requires
        ground_in_range(ground_y),
    ensures
        VANILLA_ANCHOR_SURFACE <= anchor_ceiling_of(ground_y),
        anchor_ceiling_of(ground_y) - VANILLA_ANCHOR_FLOOR <= i32::MAX,
        underground_of(ground_y) matches Some((b, t)) ==> column_map_inputs_ok(
            b,
            t,
            anchor_ceiling_of(ground_y),
        ) && b < t,
{
}

/// A placement's range lies inside the underground fill, low end first, and it
/// exists exactly when the column has a fill and the band is not empty.
pub proof fn law_placement_range_within_fill(p: OrePlacement, ground_y: int)
    requires
        ground_in_range(ground_y),
    ensures
        placement_range_of(p, ground_y) is Some <==> (underground_of(ground_y) is Some
            && vanilla_band_of(p, ground_y) is Some),
        placement_range_of(p, ground_y) matches Some((lo, hi)) ==> underground_of(
            ground_y,
        ) matches Some((bottom, top)) && bottom <= lo <= hi <= top,
{
    lemma_ceiling_facts(ground_y);
    if let (Some((bottom, top)), Some((lo, hi))) = (underground_of(ground_y), vanilla_band_of(p, ground_y)) {
        let c = anchor_ceiling_of(ground_y);
        law_column_map_endpoints_and_range(lo, bottom, top, c);
        law_column_map_endpoints_and_range(hi, bottom, top, c);
        law_column_map_monotone(lo, hi, bottom, top, c);
    }
}

/// The column heights in which the placement centres veins, as [`placement_range_of`] says.
pub fn placement_y_range(placement: &OrePlacement, ground_y: i32) -> (r: Option<(i32, i32)>)
    requires
        ground_in_range(ground_y as int),
    ensures
        r is Some <==> placement_range_of(*placement, ground_y as int) is Some,
        r matches Some((lo, hi)) ==> placement_range_of(*placement, ground_y as int) == Some(
            (lo as int, hi as int),
        ),
{
    proof {
        lemma_ceiling_facts(ground_y as int);
        law_placement_range_within_fill(*placement, ground_y as int);
    }
    let (underground_bottom, underground_top) = match underground_bounds(ground_y) {
        Some(bounds) => bounds,
        None => return None,
    };
    let (v_min, v_max) = match clamped_vanilla_band(placement, ground_y) {
        Some(band) => band,
        None => return None,
    };
    let vanilla_ceiling = vanilla_anchor_ceiling(ground_y);

    let mut y_min = map_vanilla_y_to_column(
        v_min,
        underground_bottom,
        underground_top,
        vanilla_ceiling,
    );
    let mut y_max = map_vanilla_y_to_column(
        v_max,
        underground_bottom,
        underground_top,
        vanilla_ceiling,
    );
    if y_min > y_max {
        let swapped = y_min;
        y_min = y_max;
        y_max = swapped;
    }
    y_min = clamp_i32(y_min, underground_bottom, underground_top);
    y_max = clamp_i32(y_max, underground_bottom, underground_top);
    if y_min > y_max {
        return None;
    }
    Some((y_min, y_max))
}

/// `v` clamped to `lo..=hi` (`i32::clamp`, which panics when `lo > hi`).
pub fn clamp_i32(v: i32, lo: i32, hi: i32) -> (r: i32)
    requires
        lo <= hi,
    ensures
        r == clamp_int(v as int, lo as int, hi as int),
{
    if v < lo {
        lo
    } else if v > hi {
        hi
    } else {
        v
    }
}

/// The vanilla height that a placement's distribution gives for the draws `a`
/// and `b` (a uniform placement uses only the first draw).
pub open spec fn vanilla_y_from_draws(distribution: HeightDistribution, a: int, b: int) -> int {
    match distribution {
        HeightDistribution::Uniform => a,
        HeightDistribution::Triangle => half_toward_zero(a + b),
        HeightDistribution::UpperTriangle => max_int(a, b),
    }
}

/// The band between two bounds taken in either order, low end first.
pub open spec fn ordered_band(a: i32, b: i32) -> (i32, i32) {
    if a <= b { (a, b) } else { (b, a) }
}

/// A vanilla height drawn from `distribution` over the band between
/// `vanilla_y_min` and `vanilla_y_max` (in either order), and the generator
/// after the draws: a uniform placement takes one draw over the band, a
/// triangle one the mean of two and an upper-triangle one the larger of two,
/// each draw being `random_range(lo..=hi)`.
pub open spec fn vanilla_sample(
    distribution: HeightDistribution,
    vanilla_y_min: i32,
    vanilla_y_max: i32,
    rng: ChaCha8Rng,
) -> (int, ChaCha8Rng) {
    let (lo, hi) = ordered_band(vanilla_y_min, vanilla_y_max);
    let (a, after_a) = chacha8_i32_draw(rng, lo, hi);
    match distribution {
        HeightDistribution::Uniform => (a as int, after_a),
        _ => {
            let (b, after_b) = chacha8_i32_draw(after_a, lo, hi);
            (vanilla_y_from_draws(distribution, a as int, b as int), after_b)
        },
    }
}

/// Draws a vanilla height from `distribution` over the band between the two
/// bounds (taken in either order), as [`vanilla_sample`] says. The sum of two
/// draws must fit `i32` for a triangle distribution.
pub fn sample_vanilla_y(
    distribution: HeightDistribution,
    vanilla_y_min: i32,
    vanilla_y_max: i32,
    rng: &mut ChaCha8Rng,
) -> (y: i32)
    requires
        distribution == HeightDistribution::Triangle ==> (i32::MIN <= 2 * vanilla_y_min
            <= i32::MAX && i32::MIN <= 2 * vanilla_y_max <= i32::MAX),
    ensures
        y as int == vanilla_sample(distribution, vanilla_y_min, vanilla_y_max, *old(rng)).0,
        *final(rng) == vanilla_sample(distribution, vanilla_y_min, vanilla_y_max, *old(rng)).1,
        ({
            let lo = min_int(vanilla_y_min as int, vanilla_y_max as int);
            let hi = max_int(vanilla_y_min as int, vanilla_y_max as int);
            &&& lo <= y <= hi
            &&& exists|a: int, b: int|
                lo <= a <= hi && lo <= b <= hi && y == vanilla_y_from_draws(distribution, a, b)
        }),
{
    let (lo, hi) = if vanilla_y_min <= vanilla_y_max {
        (vanilla_y_min, vanilla_y_max)
    } else {
        (vanilla_y_max, vanilla_y_min)
    };
    match distribution {
        HeightDistribution::Uniform => {
            let a = random_i32_in(rng, lo, hi);
            combine_vanilla_draws(distribution, a, a)
        },
        HeightDistribution::Triangle | HeightDistribution::UpperTriangle => {
            let a = random_i32_in(rng, lo, hi);
            let b = random_i32_in(rng, lo, hi);
            combine_vanilla_draws(distribution, a, b)
        },
    }
}

/// The vanilla height that `distribution` makes of the draws `a` and `b`: the
/// first draw, their mean rounded toward zero, or the larger one.
pub fn combine_vanilla_draws(distribution: HeightDistribution, a: i32, b: i32) -> (y: i32)
    requires
        distribution == HeightDistribution::Triangle ==> i32::MIN <= a + b <= i32::MAX,
    ensures
        y == vanilla_y_from_draws(distribution, a as int, b as int),
{
    match distribution {
        HeightDistribution::Uniform => a,
        HeightDistribution::Triangle => {
            let sum = a + b;
            if sum >= 0 {
                sum / 2
            } else {
                -((-(sum as i64)) / 2) as i32
            }
        },
        HeightDistribution::UpperTriangle => {
            if a >= b {
                a
            } else {
                b
            }
        },
    }
}

/// Ground heights on which sampling for `p` stays in `i32` whatever the
/// draws: the sum of two triangle draws can reach twice the top of the band,
/// the lesser of the placement's deepest vanilla height and the anchor
/// ceiling.
pub open spec fn sample_ground_ok(p: OrePlacement, ground_y: int) -> bool {
    &&& ground_in_range(ground_y)
    &&& p.distribution == HeightDistribution::Triangle ==> 2 * min_int(
        p.vanilla_y_max as int,
        anchor_ceiling_of(ground_y),
    ) <= i32::MAX
}

/// A vein centre height for `p` in a column whose ground is at `ground_y`,
/// drawn from `rng`, and the generator after the draws: the placement's
/// clamped vanilla band is sampled with [`vanilla_sample`], mapped onto the
/// column and clamped to the fill. `None`, with no draw made, when the column
/// has no fill or the band is empty.
pub open spec fn placement_sample(p: OrePlacement, ground_y: int, rng: ChaCha8Rng) -> (
    Option<int>,
    ChaCha8Rng,
) {
    match (underground_of(ground_y), vanilla_band_of(p, ground_y)) {
        (Some((bottom, top)), Some((vlo, vhi))) => {
            let (vy, after) = vanilla_sample(p.distribution, vlo as i32, vhi as i32, rng);
            (
                Some(clamp_int(column_y_of(vy, bottom, top, anchor_ceiling_of(ground_y)), bottom, top)),
                after,
            )
        },
        _ => (None, rng),
    }
}

/// The exact integer form of an `Option<i32>`.
pub open spec fn opt_int(r: Option<i32>) -> Option<int> {
    match r {
        Some(v) => Some(v as int),
        None => None,
    }
}

/// Sample a vein centre Y: distribution in vanilla space, then sea-level anchor
/// map, as [`placement_sample`] says. `None` exactly when the placement has no
/// range in this column, and then the generator is untouched; the centre lies
/// in the placement's range.
pub fn sample_placement_y(placement: &OrePlacement, ground_y: i32, rng: &mut ChaCha8Rng) -> (r:
    Option<i32>)
    requires
        sample_ground_ok(*placement, ground_y as int),
    ensures
        opt_int(r) == placement_sample(*placement, ground_y as int, *old(rng)).0,
        *final(rng) == placement_sample(*placement, ground_y as int, *old(rng)).1,
        r is None ==> *final(rng) == *old(rng),
        r is Some <==> placement_range_of(*placement, ground_y as int) is Some,
        r matches Some(y) ==> {
            &&& placement_range_of(*placement, ground_y as int) matches Some((lo, hi))
            &&& lo <= y <= hi
            &&& underground_of(ground_y as int) matches Some((bottom, top))
            &&& vanilla_band_of(*placement, ground_y as int) matches Some((vlo, vhi))
            &&& exists|vy: int|
                vlo <= vy <= vhi && y == clamp_int(
                    column_y_of(vy, bottom, top, anchor_ceiling_of(ground_y as int)),
                    bottom,
                    top,
                )
        },
{
    proof {
        lemma_ceiling_facts(ground_y as int);
        law_placement_range_within_fill(*placement, ground_y as int);
    }
    let (underground_bottom, underground_top) = match underground_bounds(ground_y) {
        Some(bounds) => bounds,
        None => return None,
    };
    let (v_min, v_max) = match clamped_vanilla_band(placement, ground_y) {
        Some(band) => band,
        None => return None,
    };
    let vanilla_y = sample_vanilla_y(placement.distribution, v_min, v_max, rng);
    let vanilla_ceiling = vanilla_anchor_ceiling(ground_y);
    proof {
        law_column_map_endpoints_and_range(
            vanilla_y as int,
            underground_bottom as int,
            underground_top as int,
            vanilla_ceiling as int,
        );
    }
    let cy = map_vanilla_y_to_column(
        vanilla_y,
        underground_bottom,
        underground_top,
        vanilla_ceiling,
    );
    let y = clamp_i32(cy, underground_bottom, underground_top);
    proof {
        let c = vanilla_ceiling as int;
        let (b, t) = (underground_bottom as int, underground_top as int);
        law_column_map_monotone(v_min as int, vanilla_y as int, b, t, c);
        law_column_map_monotone(vanilla_y as int, v_max as int, b, t, c);
        law_column_map_endpoints_and_range(vanilla_y as int, b, t, c);
    }
    Some(y)
}

/// One block an ore vein writes: the ore `block` at `(x, y, z)`, placed only
/// where the world holds stone or deepslate at that moment.
#[derive(Clone, Copy, Debug, PartialEq, Eq, Structural)]
pub struct OreWrite {
    pub block: Block,
    pub x: i32,
    pub y: i32,
    pub z: i32,
}

/// The ore a vein of `p` puts at height `y` when the deepslate band of its
/// column ends at `deepslate_top` (`i32::MIN` when the column has none).
pub open spec fn vein_block_at(p: OrePlacement, deepslate_top: int, y: int) -> Block {
    if deepslate_top > i32::MIN && y < deepslate_top {
        p.deepslate_variant
    } else {
        p.block
    }
}

/// `b` is one block away from `a` along exactly one axis.
pub open spec fn unit_step(a: OreWrite, b: OreWrite) -> bool {
    let dx = b.x - a.x;
    let dy = b.y - a.y;
    let dz = b.z - a.z;
    ||| (dx == 1 || dx == -1) && dy == 0 && dz == 0
    ||| dx == 0 && (dy == 1 || dy == -1) && dz == 0
    ||| dx == 0 && dy == 0 && (dz == 1 || dz == -1)
}

/// `writes` is a vein of `p` walked from `(x, y, z)`: it starts there, every
/// write is one block from the one before, and each writes the ore variant
/// that its height calls for.
pub open spec fn is_vein_walk(
    writes: Seq<OreWrite>,
    p: OrePlacement,
    deepslate_top: int,
    x: int,
    y: int,
    z: int,
) -> bool {
    &&& writes.len() > 0 ==> writes[0].x == x && writes[0].y == y && writes[0].z == z
    &&& forall|k: int|
        0 <= k < writes.len() ==> #[trigger] writes[k].block == vein_block_at(
            p,
            deepslate_top,
            writes[k].y as int,
        )
    &&& forall|k: int| 0 <= k < writes.len() - 1 ==> unit_step(#[trigger] writes[k], writes[k + 1])
}

/// The coordinates of a vein of `size` blocks started at `(x, y, z)` stay in `i32`.
pub open spec fn vein_room(x: int, y: int, z: int, size: int) -> bool {
    &&& i32::MIN + size <= x <= i32::MAX - size
    &&& i32::MIN + size <= y <= i32::MAX - size
    &&& i32::MIN + size <= z <= i32::MAX - size
}

/// The position one block from `(x, y, z)` in `direction`: 0 and 1 along +x
/// and -x, 2 and 3 along +y and -y, 4 along +z, anything else along -z.
pub open spec fn stepped(x: int, y: int, z: int, direction: int) -> (int, int, int) {
    if direction == 0 {
        (x + 1, y, z)
    } else if direction == 1 {
        (x - 1, y, z)
    } else if direction == 2 {
        (x, y + 1, z)
    } else if direction == 3 {
        (x, y - 1, z)
    } else if direction == 4 {
        (x, y, z + 1)
    } else {
        (x, y, z - 1)
    }
}

/// The position one block from `(x, y, z)` in `direction`, as [`stepped`] says.
pub fn step_in_direction(x: i32, y: i32, z: i32, direction: i32) -> (r: (i32, i32, i32))
    requires
        ({
            let (nx, ny, nz) = stepped(x as int, y as int, z as int, direction as int);
            &&& i32::MIN <= nx <= i32::MAX
            &&& i32::MIN <= ny <= i32::MAX
            &&& i32::MIN <= nz <= i32::MAX
        }),
    ensures
        (r.0 as int, r.1 as int, r.2 as int) == stepped(x as int, y as int, z as int, direction as int),
{
    let (mut cx, mut cy, mut cz) = (x, y, z);
    match direction {
        0 => cx += 1,
        1 => cx -= 1,
        2 => cy += 1,
        3 => cy -= 1,
        4 => cz += 1,
        _ => cz -= 1,
    }
    (cx, cy, cz)
}

/// The writes of a vein of `p` walked `size` blocks from `(x, y, z)` with
/// draws from `rng`, and the generator after the walk: each block writes the
/// ore variant for its height, then one draw of `random_range(0..=5)` picks
/// the direction of the unit step to the next block ([`stepped`]).
pub open spec fn vein_walk(
    p: OrePlacement,
    deepslate_top: int,
    x: int,
    y: int,
    z: int,
    size: nat,
    rng: ChaCha8Rng,
) -> (Seq<OreWrite>, ChaCha8Rng)
    decreases size,
{
    if size == 0 {
        (Seq::empty(), rng)
    } else {
        let write = OreWrite {
            block: vein_block_at(p, deepslate_top, y),
            x: x as i32,
            y: y as i32,
            z: z as i32,
        };
        let (direction, after) = chacha8_i32_draw(rng, 0, 5);
        let (nx, ny, nz) = stepped(x, y, z, direction as int);
        let (rest, end) = vein_walk(p, deepslate_top, nx, ny, nz, (size - 1) as nat, after);
        (seq![write] + rest, end)
    }
}

/// Walks a vein of `size` blocks from `(x, y, z)`, one random unit step after
/// each block, and returns the writes it makes in order: exactly the walk
/// [`vein_walk`] that the generator's draws give, with `size` direction draws.
#[verifier::rlimit(40)]
pub fn place_vein(
    placement: &OrePlacement,
    deepslate_top_y: i32,
    x: i32,
    y: i32,
    z: i32,
    size: u32,
    rng: &mut ChaCha8Rng,
) -> (writes: Vec<OreWrite>)
    requires
        vein_room(x as int, y as int, z as int, size as int),
    ensures
        writes@ == vein_walk(
            *placement,
            deepslate_top_y as int,
            x as int,
            y as int,
            z as int,
            size as nat,
            *old(rng),
        ).0,
        *final(rng) == vein_walk(
            *placement,
            deepslate_top_y as int,
            x as int,
            y as int,
            z as int,
            size as nat,
            *old(rng),
        ).1,
        writes.len() == size,
        is_vein_walk(writes@, *placement, deepslate_top_y as int, x as int, y as int, z as int),
{
    let ghost whole = vein_walk(
        *placement,
        deepslate_top_y as int,
        x as int,
        y as int,
        z as int,
        size as nat,
        *rng,
    );
    let mut writes: Vec<OreWrite> = Vec::new();
    let (mut cx, mut cy, mut cz) = (x, y, z);
    let mut step: u32 = 0;
    while step < size
        invariant
            step <= size,
            writes.len() == step,
            vein_room(x as int, y as int, z as int, size as int),
            -(step as int) <= cx - x <= step,
            -(step as int) <= cy - y <= step,
            -(step as int) <= cz - z <= step,
            step == 0 ==> cx == x && cy == y && cz == z,
            step > 0 ==> unit_step(writes@[step - 1], OreWrite { block: writes@[step - 1].block, x: cx, y: cy, z: cz }),
            is_vein_walk(writes@, *placement, deepslate_top_y as int, x as int, y as int, z as int),
            ({
                let rest = vein_walk(
                    *placement,
                    deepslate_top_y as int,
                    cx as int,
                    cy as int,
                    cz as int,
                    (size - step) as nat,
                    *rng,
                );
                writes@ + rest.0 == whole.0 && rest.1 == whole.1
            }),
        decreases size - step,
    {
        let ghost rest = vein_walk(
            *placement,
            deepslate_top_y as int,
            cx as int,
            cy as int,
            cz as int,
            (size - step) as nat,
            *rng,
        );
        let block = if deepslate_top_y > i32::MIN && cy < deepslate_top_y {
            placement.deepslate_variant
        } else {
            placement.block
        };
        let write = OreWrite { block, x: cx, y: cy, z: cz };
        let ghost before = writes@;
        writes.push(write);
        let direction = random_i32_in(rng, 0, 5);
        let (nx, ny, nz) = step_in_direction(cx, cy, cz, direction);
        cx = nx;
        cy = ny;
        cz = nz;
        step += 1;
        proof {
            let w = writes@;
            assert forall|k: int| 0 <= k < w.len() - 1 implies unit_step(#[trigger] w[k], w[k + 1]) by {
                if k < w.len() - 2 {
                    assert(w[k] == before[k] && w[k + 1] == before[k + 1]);
                }
            }
            let next = vein_walk(
                *placement,
                deepslate_top_y as int,
                cx as int,
                cy as int,
                cz as int,
                (size - step) as nat,
                *rng,
            );
            assert(rest.0 =~= seq![write] + next.0);
            assert(writes@ + next.0 =~= before + rest.0);
        }
    }
    proof {
        let last = vein_walk(
            *placement,
            deepslate_top_y as int,
            cx as int,
            cy as int,
            cz as int,
            0,
            *rng,
        );
        assert(writes@ + last.0 =~= writes@);
    }
    writes
}

/// Properties of every entry of the placement table that generation relies on.
pub open spec fn placement_wf(p: OrePlacement) -> bool {
    &&& 1 <= p.size_min <= p.size_max <= 17
    &&& p.spawn_tries <= 16
    &&& p.vanilla_y_max <= 480
    &&& p.rarity_one_in matches Some(k) ==> k >= 1
}

pub proof fn lemma_placement_table_wf(index: int)
    requires
        0 <= index < ORE_PLACEMENT_COUNT,
    ensures
        placement_wf(ore_placement_spec(index)),
{
}

/// Ground heights of the 16 x 16 columns of one chunk, row by row
/// (`heights[16 * local_z + local_x]`).
pub struct ChunkColumns {
    pub heights: Vec<i32>,
}

impl ChunkColumns {
    pub open spec fn wf(&self) -> bool {
        self.heights.len() == 256
    }

    /// Ground height of the column at `(local_x, local_z)` within the chunk.
    pub open spec fn height_at(&self, local_x: int, local_z: int) -> i32 {
        self.heights@[16 * local_z + local_x]
    }

    /// Every column can go through ore placement for a world generated at
    /// `ground_level` without leaving `i32`, whatever the draws.
    pub open spec fn heights_ok(&self, ground_level: i32) -> bool {
        forall|k: int|
            0 <= k < self.heights.len() ==> {
                let g = #[trigger] self.heights@[k];
                &&& ground_in_range(g as int)
                &&& deepslate_inputs_ok(g, ground_level)
                &&& i32::MIN <= g - ground_level <= i32::MAX
            }
    }

    pub fn height(&self, local_x: i32, local_z: i32) -> (h: i32)
        requires
            self.wf(),
            0 <= local_x < 16,
            0 <= local_z < 16,
        ensures
            h == self.height_at(local_x as int, local_z as int),
    {
        self.heights[(16 * local_z + local_x) as usize]
    }
}

/// A vein that ore generation places: entry `placement` of the table, centred
/// at `(x, y, z)` over a column whose ground is at `ground_y`, with the writes
/// of its walk in order. When `skip_if_air_exposed` is set, the vein's
/// air-exposure roll came out below the placement's chance, and the vein is
/// left out if it would be exposed to air ([`keep_vein`]).
pub struct PlannedVein {
    pub placement: usize,
    pub ground_y: i32,
    pub x: i32,
    pub y: i32,
    pub z: i32,
    pub skip_if_air_exposed: bool,
    pub writes: Vec<OreWrite>,
}

/// A planned vein as plain values.
pub struct PlannedVeinView {
    pub placement: int,
    pub ground_y: int,
    pub x: int,
    pub y: int,
    pub z: int,
    pub skip_if_air_exposed: bool,
    pub writes: Seq<OreWrite>,
}

impl View for PlannedVein {
    type V = PlannedVeinView;

    open spec fn view(&self) -> PlannedVeinView {
        PlannedVeinView {
            placement: self.placement as int,
            ground_y: self.ground_y as int,
            x: self.x as int,
            y: self.y as int,
            z: self.z as int,
            skip_if_air_exposed: self.skip_if_air_exposed,
            writes: self.writes@,
        }
    }
}

/// Whether a write lands: the block found at its position (`None` for one
/// that ore generation does not know) is stone or deepslate, which the ore
/// replaces; anything else is left alone.
pub fn takes_ore(found: Option<Block>) -> (r: bool)
    ensures
        r == (found matches Some(b) && b.is_ore_substrate()),
        r == (found == Some(Block::Stone) || found == Some(Block::Deepslate)),
{
    match found {
        Some(b) => b.ore_substrate(),
        None => false,
    }
}

/// The position beside `(x, y, z)` on `side` (numbered as in [`stepped`]),
/// `None` when it lies outside `i32`.
pub fn side_of(x: i32, y: i32, z: i32, side: i32) -> (r: Option<(i32, i32, i32)>)
    requires
        0 <= side < 6,
    ensures
        ({
            let (nx, ny, nz) = stepped(x as int, y as int, z as int, side as int);
            let fits = i32::MIN <= nx <= i32::MAX && i32::MIN <= ny <= i32::MAX && i32::MIN <= nz
                <= i32::MAX;
            &&& r is Some <==> fits
            &&& r matches Some(p) ==> (p.0 as int, p.1 as int, p.2 as int) == (nx, ny, nz)
        }),
{
    let fits = match side {
        0 => x < i32::MAX,
        1 => x > i32::MIN,
        2 => y < i32::MAX,
        3 => y > i32::MIN,
        4 => z < i32::MAX,
        _ => z > i32::MIN,
    };
    if fits {
        Some(step_in_direction(x, y, z, side))
    } else {
        None
    }
}

/// What the world holds at and around one block that a vein would write:
/// whether the write lands there ([`takes_ore`]), and whether air lies on each
/// of its six sides ([`side_of`]; a side outside `i32` holds no air).
#[derive(Clone, Copy, Debug)]
pub struct WriteSurroundings {
    pub takes_ore: bool,
    pub air_beside: [bool; 6],
}

/// A write is exposed to air when it lands and air lies on one of its sides.
pub open spec fn write_exposed(s: WriteSurroundings) -> bool {
    s.takes_ore && exists|side: int| 0 <= side < 6 && #[trigger] s.air_beside@[side]
}

/// A vein is exposed to air when one of its writes is.
pub open spec fn vein_exposed(around: Seq<WriteSurroundings>) -> bool {
    exists|k: int| 0 <= k < around.len() && #[trigger] write_exposed(around[k])
}

/// Whether a vein whose writes have these surroundings, in order, is exposed
/// to air ([`vein_exposed`]).
pub fn air_exposed(around: &Vec<WriteSurroundings>) -> (exposed: bool)
    ensures
        exposed == vein_exposed(around@),
        exposed <==> exists|k: int, side: int|
            0 <= k < around.len() && 0 <= side < 6 && #[trigger] around@[k].takes_ore
                && #[trigger] around@[k].air_beside@[side],
{
    let mut k: usize = 0;
    while k < around.len()
        invariant
            k <= around.len(),
            forall|j: int| 0 <= j < k ==> !#[trigger] write_exposed(around@[j]),
        decreases around.len() - k,
    {
        let s = around[k];
        if s.takes_ore {
            let mut side: usize = 0;
            while side < 6
                invariant
                    side <= 6,
                    k < around.len(),
                    s.takes_ore,
                    s == around@[k as int],
                    forall|d: int| 0 <= d < side ==> !#[trigger] s.air_beside@[d],
                decreases 6 - side,
            {
                if s.air_beside[side] {
                    assert(s.air_beside@[side as int]);
                    assert(write_exposed(around@[k as int]));
                    return true;
                }
                side += 1;
            }
        }
        assert(!write_exposed(around@[k as int]));
        k += 1;
    }
    assert forall|j: int, side: int|
        0 <= j < around.len() && 0 <= side < 6 && #[trigger] around@[j].takes_ore implies !#[trigger] around@[j].air_beside@[side] by {
        assert(!write_exposed(around@[j]));
    }
    false
}

/// Whether a planned vein is placed, given the surroundings of its writes in
/// order: it is left out exactly when its air-exposure roll asked for a skip
/// and it is exposed to air.
pub fn keep_vein(vein: &PlannedVein, around: &Vec<WriteSurroundings>) -> (keep: bool)
    requires
        around.len() == vein.writes.len(),
    ensures
        keep == !(vein.skip_if_air_exposed && vein_exposed(around@)),
{
    !(vein.skip_if_air_exposed && air_exposed(around))
}

/// `v` is a vein that the placement rules allow in chunk `(chunk_x, chunk_z)`
/// with these column heights and this ground level.
pub open spec fn vein_allowed(
    v: PlannedVein,
    chunk_x: int,
    chunk_z: int,
    columns: ChunkColumns,
    ground_level: int,
) -> bool {
    let p = ore_placement_spec(v.placement as int);
    &&& v.placement < ORE_PLACEMENT_COUNT
    &&& 16 * chunk_x <= v.x < 16 * chunk_x + 16
    &&& 16 * chunk_z <= v.z < 16 * chunk_z + 16
    &&& v.ground_y == columns.height_at(v.x - 16 * chunk_x, v.z - 16 * chunk_z)
    &&& p.min_height_above_base matches Some(min_above) ==> v.ground_y - ground_level >= min_above
    &&& placement_range_of(p, v.ground_y as int) matches Some((lo, hi))
    &&& lo <= v.y <= hi
    &&& p.size_min <= v.writes.len() <= p.size_max
    &&& is_vein_walk(
        v.writes@,
        p,
        deepslate_top_of(v.ground_y as int, ground_level),
        v.x as int,
        v.y as int,
        v.z as int,
    )
}

/// Number of the veins that come from entry `index` of the placement table.
pub open spec fn veins_of_placement(veins: Seq<PlannedVein>, index: int) -> nat
    decreases veins.len(),
{
    if veins.len() == 0 {
        0
    } else {
        veins_of_placement(veins.drop_last(), index) + if veins.last().placement == index {
            1nat
        } else {
            0nat
        }
    }
}

/// Chunk coordinates whose veins stay in `i32`.
pub open spec fn chunk_in_range(chunk: int) -> bool {
    i32::MIN / 16 + 2 <= chunk <= i32::MAX / 16 - 2
}

/// `v` doubled, saturating at `u32::MAX`.
pub open spec fn doubled(v: u32) -> u32 {
    if 2 * v > u32::MAX {
        u32::MAX
    } else {
        (2 * v) as u32
    }
}

/// `u32::saturating_mul` by two.
fn saturating_double(v: u32) -> (r: u32)
    ensures
        r == doubled(v),
{
    if v > u32::MAX / 2 {
        u32::MAX
    } else {
        v * 2
    }
}

/// The air-exposure roll of one attempt of `p` and the generator after it:
/// when the placement has a skip chance, one word is drawn and asks for a skip
/// when its top 24 bits are below the chance; without a chance nothing is
/// drawn.
pub open spec fn air_skip_roll(p: OrePlacement, rng: ChaCha8Rng) -> (bool, ChaCha8Rng) {
    if p.air_exposure_skip > 0 {
        let (word, after) = chacha8_next_u32(rng);
        (word / 256 < p.air_exposure_skip, after)
    } else {
        (false, rng)
    }
}

/// Whether an air-exposure roll that drew `word` asks to skip the vein for a
/// placement with skip chance `chance` (in units of 2^-24): the word's top 24
/// bits are below the chance.
pub fn skip_roll_hits(word: u32, chance: u32) -> (hit: bool)
    ensures
        hit == (word / 256 < chance),
{
    word / 256 < chance
}

/// One vein attempt of placement `p` (entry `index` of the table) in chunk
/// `(chunk_x, chunk_z)` whose column heights are `heights`, drawn from `rng`,
/// and the generator after it. In order: the air-exposure roll, the column
/// (`random_range(0..16)` for x, then for z), then, unless the column is below
/// the placement's minimum height above the base or the placement has no
/// range there, the centre height ([`placement_sample`]), the size
/// (`random_range(size_min..=size_max)`) and the walk ([`vein_walk`]).
pub open spec fn attempt_of(
    p: OrePlacement,
    index: int,
    chunk_x: i32,
    chunk_z: i32,
    heights: Seq<i32>,
    ground_level: i32,
    rng: ChaCha8Rng,
) -> (Option<PlannedVeinView>, ChaCha8Rng) {
    let (skip_if_air_exposed, after_roll) = air_skip_roll(p, rng);
    let (local_x, after_x) = chacha8_i32_draw(after_roll, 0, 15);
    let (local_z, after_z) = chacha8_i32_draw(after_x, 0, 15);
    let ground_y = heights[16 * local_z + local_x] as int;
    let too_low = match p.min_height_above_base {
        Some(min_above) => ground_y - ground_level < min_above,
        None => false,
    };
    if too_low || placement_range_of(p, ground_y) is None {
        (None, after_z)
    } else {
        let (centre, after_centre) = placement_sample(p, ground_y, after_z);
        match centre {
            None => (None, after_centre),
            Some(y) => {
                let (size, after_size) = chacha8_u32_draw(after_centre, p.size_min, p.size_max);
                let x = 16 * chunk_x + local_x;
                let z = 16 * chunk_z + local_z;
                let (writes, after_walk) = vein_walk(
                    p,
                    deepslate_top_of(ground_y, ground_level as int),
                    x,
                    y,
                    z,
                    size as nat,
                    after_size,
                );
                (
                    Some(
                        PlannedVeinView {
                            placement: index,
                            ground_y,
                            x,
                            y,
                            z,
                            skip_if_air_exposed,
                            writes,
                        },
                    ),
                    after_walk,
                )
            },
        }
    }
}

/// The veins of `count` successive attempts of `p`, in order, and the
/// generator after them.
pub open spec fn attempts_of(
    p: OrePlacement,
    index: int,
    chunk_x: i32,
    chunk_z: i32,
    heights: Seq<i32>,
    ground_level: i32,
    count: nat,
    rng: ChaCha8Rng,
) -> (Seq<PlannedVeinView>, ChaCha8Rng)
    decreases count,
{
    if count == 0 {
        (Seq::empty(), rng)
    } else {
        let (first, after) = attempt_of(p, index, chunk_x, chunk_z, heights, ground_level, rng);
        let (rest, end) = attempts_of(
            p,
            index,
            chunk_x,
            chunk_z,
            heights,
            ground_level,
            (count - 1) as nat,
            after,
        );
        (
            match first {
                Some(v) => seq![v] + rest,
                None => rest,
            },
            end,
        )
    }
}

/// The veins that placement `p` (entry `index` of the table) plans in chunk
/// `(chunk_x, chunk_z)`. Its stream is seeded from the chunk and the
/// placement's salt; a placement that runs on 1 in `k` chunks (`k > 1`) first
/// draws `random_range(0..k)` and plans nothing unless it is 0; then the
/// number of attempts is drawn from `0..=2 * spawn_tries` (saturating) and the
/// attempts follow ([`attempts_of`]).
pub open spec fn placement_plan_of(
    p: OrePlacement,
    index: int,
    chunk_x: i32,
    chunk_z: i32,
    heights: Seq<i32>,
    ground_level: i32,
) -> Seq<PlannedVeinView> {
    let rng = chacha8_seeded(coord_seed_of(chunk_x, chunk_z, p.rng_salt as u64));
    let (skip_chunk, after_rarity) = match p.rarity_one_in {
        Some(one_in) => if one_in > 1 {
            let (d, after) = chacha8_u32_draw(rng, 0, (one_in - 1) as u32);
            (d != 0, after)
        } else {
            (false, rng)
        },
        None => (false, rng),
    };
    if skip_chunk {
        Seq::empty()
    } else {
        let (n, after_n) = chacha8_u32_draw(after_rarity, 0, doubled(p.spawn_tries));
        attempts_of(p, index, chunk_x, chunk_z, heights, ground_level, n as nat, after_n).0
    }
}

/// The veins of the first `count` entries of the placement table in chunk
/// `(chunk_x, chunk_z)`, in table order.
pub open spec fn chunk_plan_upto(
    chunk_x: i32,
    chunk_z: i32,
    heights: Seq<i32>,
    ground_level: i32,
    count: nat,
) -> Seq<PlannedVeinView>
    decreases count,
{
    if count == 0 {
        Seq::empty()
    } else {
        chunk_plan_upto(chunk_x, chunk_z, heights, ground_level, (count - 1) as nat)
            + placement_plan_of(
            ore_placement_spec(count - 1),
            count - 1,
            chunk_x,
            chunk_z,
            heights,
            ground_level,
        )
    }
}

/// All veins that ore generation plans in chunk `(chunk_x, chunk_z)` with these
/// column heights and ground level.
pub open spec fn chunk_plan(chunk_x: i32, chunk_z: i32, heights: Seq<i32>, ground_level: i32) -> Seq<
    PlannedVeinView,
> {
    chunk_plan_upto(chunk_x, chunk_z, heights, ground_level, ORE_PLACEMENT_COUNT as nat)
}

/// Planned veins as plain values.
pub open spec fn views(veins: Seq<PlannedVein>) -> Seq<PlannedVeinView> {
    veins.map_values(|v: PlannedVein| v@)
}

/// A planned vein, if any, as plain values.
pub open spec fn opt_view(r: Option<PlannedVein>) -> Option<PlannedVeinView> {
    match r {
        Some(v) => Some(v@),
        None => None,
    }
}

/// One vein attempt of entry `index` of the table, as [`attempt_of`] says.
fn plan_attempt(
    placement: &OrePlacement,
    index: usize,
    chunk_x: i32,
    chunk_z: i32,
    columns: &ChunkColumns,
    ground_level: i32,
    rng: &mut ChaCha8Rng,
) -> (r: Option<PlannedVein>)
    requires
        index < ORE_PLACEMENT_COUNT,
        *placement == ore_placement_spec(index as int),
        placement_wf(*placement),
        chunk_in_range(chunk_x as int),
        chunk_in_range(chunk_z as int),
        columns.wf(),
        columns.heights_ok(ground_level),
    ensures
        opt_view(r) == attempt_of(
            *placement,
            index as int,
            chunk_x,
            chunk_z,
            columns.heights@,
            ground_level,
            *old(rng),
        ).0,
        *final(rng) == attempt_of(
            *placement,
            index as int,
            chunk_x,
            chunk_z,
            columns.heights@,
            ground_level,
            *old(rng),
        ).1,
        r matches Some(v) ==> v.placement == index && vein_allowed(
            v,
            chunk_x as int,
            chunk_z as int,
            *columns,
            ground_level as int,
        ),
{
    let skip_if_air_exposed = if placement.air_exposure_skip > 0 {
        let word = random_word(rng);
        skip_roll_hits(word, placement.air_exposure_skip)
    } else {
        false
    };
    let local_x = random_i32_in(rng, 0, 15);
    let local_z = random_i32_in(rng, 0, 15);
    let cx = chunk_x * 16 + local_x;
    let cz = chunk_z * 16 + local_z;
    let ground_y = columns.height(local_x, local_z);
    proof {
        assert(columns.heights@[16 * local_z + local_x] == ground_y);
    }
    if let Some(min_above) = placement.min_height_above_base {
        if ground_y - ground_level < min_above {
            return None;
        }
    }
    if placement_y_range(placement, ground_y).is_none() {
        return None;
    }
    let deepslate_top = deepslate_top_y(ground_y, ground_level);
    let cy = match sample_placement_y(placement, ground_y, rng) {
        Some(cy) => cy,
        None => return None,
    };
    proof {
        law_placement_range_within_fill(*placement, ground_y as int);
    }
    let size = random_u32_in(rng, placement.size_min, placement.size_max);
    let writes = place_vein(placement, deepslate_top, cx, cy, cz, size, rng);
    Some(PlannedVein { placement: index, ground_y, x: cx, y: cy, z: cz, skip_if_air_exposed, writes })
}

/// The veins that ore generation places in chunk `(chunk_x, chunk_z)`, given
/// the ground heights of its columns: exactly [`chunk_plan`], which draws
/// everything from one stream per placement seeded from the chunk and the
/// placement's salt, so the same chunk always plans the same veins. Every vein
/// returned obeys the placement rules, the veins come grouped by placement in
/// table order, and no placement plans more than twice its spawn tries.
pub fn plan_chunk_ores(
    chunk_x: i32,
    chunk_z: i32,
    columns: &ChunkColumns,
    ground_level: i32,
) -> (veins: Vec<PlannedVein>)
    requires
        chunk_in_range(chunk_x as int),
        chunk_in_range(chunk_z as int),
        columns.wf(),
        columns.heights_ok(ground_level),
    ensures
        views(veins@) == chunk_plan(chunk_x, chunk_z, columns.heights@, ground_level),
        forall|k: int|
            0 <= k < veins.len() ==> vein_allowed(
                #[trigger] veins@[k],
                chunk_x as int,
                chunk_z as int,
                *columns,
                ground_level as int,
            ),
        forall|j: int, k: int|
            0 <= j <= k < veins.len() ==> (#[trigger] veins@[j]).placement <= (
            #[trigger] veins@[k]).placement,
        forall|i: int|
            0 <= i < ORE_PLACEMENT_COUNT ==> #[trigger] veins_of_placement(veins@, i) <= 2
                * ore_placement_spec(i).spawn_tries,
{
    let mut veins: Vec<PlannedVein> = Vec::new();
    let mut index: usize = 0;
    while index < ORE_PLACEMENT_COUNT
        invariant
            index <= ORE_PLACEMENT_COUNT,
            chunk_in_range(chunk_x as int),
            chunk_in_range(chunk_z as int),
            columns.wf(),
            columns.heights_ok(ground_level),
            views(veins@) == chunk_plan_upto(
                chunk_x,
                chunk_z,
                columns.heights@,
                ground_level,
                index as nat,
            ),
            forall|k: int|
                0 <= k < veins.len() ==> vein_allowed(
                    #[trigger] veins@[k],
                    chunk_x as int,
                    chunk_z as int,
                    *columns,
                    ground_level as int,
                ),
            forall|k: int| 0 <= k < veins.len() ==> (#[trigger] veins@[k]).placement < index,
            forall|j: int, k: int|
                0 <= j <= k < veins.len() ==> (#[trigger] veins@[j]).placement <= (
                #[trigger] veins@[k]).placement,
            forall|i: int|
                0 <= i < index ==> #[trigger] veins_of_placement(veins@, i) <= 2
                    * ore_placement_spec(i).spawn_tries,
            forall|i: int| index <= i ==> #[trigger] veins_of_placement(veins@, i) == 0,
        decreases ORE_PLACEMENT_COUNT - index,
    {
        let placement = ore_placement(index);
        proof {
            lemma_placement_table_wf(index as int);
        }
        let ghost prefix = views(veins@);
        let ghost heights = columns.heights@;
        let mut rng = coord_rng(chunk_x, chunk_z, placement.rng_salt as u64);
        let mut skipped_chunk = false;
        if let Some(one_in) = placement.rarity_one_in {
            if one_in > 1 && random_u32_in(&mut rng, 0, one_in - 1) != 0 {
                skipped_chunk = true;
            }
        }
        if !skipped_chunk {
            let max_attempts = saturating_double(placement.spawn_tries);
            let n = random_u32_in(&mut rng, 0, max_attempts);
            let ghost start = rng;
            let mut attempt: u32 = 0;
            while attempt < n
                invariant
                    attempt <= n,
                    index < ORE_PLACEMENT_COUNT,
                    placement == ore_placement_spec(index as int),
                    placement_wf(placement),
                    chunk_in_range(chunk_x as int),
                    chunk_in_range(chunk_z as int),
                    columns.wf(),
                    columns.heights_ok(ground_level),
                    heights == columns.heights@,
                    views(veins@) + attempts_of(
                        placement,
                        index as int,
                        chunk_x,
                        chunk_z,
                        heights,
                        ground_level,
                        (n - attempt) as nat,
                        rng,
                    ).0 == prefix + attempts_of(
                        placement,
                        index as int,
                        chunk_x,
                        chunk_z,
                        heights,
                        ground_level,
                        n as nat,
                        start,
                    ).0,
                    forall|k: int|
                        0 <= k < veins.len() ==> vein_allowed(
                            #[trigger] veins@[k],
                            chunk_x as int,
                            chunk_z as int,
                            *columns,
                            ground_level as int,
                        ),
                    forall|k: int| 0 <= k < veins.len() ==> (#[trigger] veins@[k]).placement <= index,
                    forall|j: int, k: int|
                        0 <= j <= k < veins.len() ==> (#[trigger] veins@[j]).placement <= (
                        #[trigger] veins@[k]).placement,
                    n <= 2 * placement.spawn_tries,
                    veins_of_placement(veins@, index as int) <= attempt,
                    forall|i: int|
                        0 <= i < index ==> #[trigger] veins_of_placement(veins@, i) <= 2
                            * ore_placement_spec(i).spawn_tries,
                    forall|i: int| index < i ==> #[trigger] veins_of_placement(veins@, i) == 0,
                decreases n - attempt,
            {
                let ghost rest = attempts_of(
                    placement,
                    index as int,
                    chunk_x,
                    chunk_z,
                    heights,
                    ground_level,
                    (n - attempt) as nat,
                    rng,
                );
                let ghost before = veins@;
                let planned = plan_attempt(
                    &placement,
                    index,
                    chunk_x,
                    chunk_z,
                    columns,
                    ground_level,
                    &mut rng,
                );
                attempt += 1;
                let ghost next = attempts_of(
                    placement,
                    index as int,
                    chunk_x,
                    chunk_z,
                    heights,
                    ground_level,
                    (n - attempt) as nat,
                    rng,
                );
                match planned {
                    Some(vein) => {
                        let ghost seen = vein@;
                        veins.push(vein);
                        proof {
                            assert(veins@.drop_last() =~= before);
                            assert forall|i: int| #![trigger veins_of_placement(veins@, i)]
                                veins_of_placement(veins@, i) == veins_of_placement(before, i) + if i
                                    == index { 1nat } else { 0nat } by {}
                            assert(views(veins@) =~= views(before).push(seen));
                            assert(rest.0 =~= seq![seen] + next.0);
                            assert(views(veins@) + next.0 =~= views(before) + rest.0);
                        }
                    },
                    None => {
                        proof {
                            assert(rest.0 =~= next.0);
                        }
                    },
                }
            }
            proof {
                assert(views(veins@) + Seq::<PlannedVeinView>::empty() =~= views(veins@));
            }
        } else {
            proof {
                assert(prefix + Seq::<PlannedVeinView>::empty() =~= prefix);
            }
        }
        index += 1;
    }
    veins
}

/// Planning is a function of the chunk, its column heights and the ground
/// level: the same chunk with the same columns always plans the same veins,
/// whatever was planned before or elsewhere.
pub proof fn law_same_chunk_same_plan(
    chunk_x: i32,
    chunk_z: i32,
    heights: Seq<i32>,
    other_heights: Seq<i32>,
    ground_level: i32,
)
    requires
        heights =~= other_heights,
    ensures
        chunk_plan(chunk_x, chunk_z, heights, ground_level) == chunk_plan(
            chunk_x,
            chunk_z,
            other_heights,
            ground_level,
        ),
{
}

/// `p` and `q` are the same placement apart from their air-exposure chance.
pub open spec fn same_but_air_skip(p: OrePlacement, q: OrePlacement) -> bool {
    &&& p.block == q.block
    &&& p.deepslate_variant == q.deepslate_variant
    &&& p.vanilla_y_min == q.vanilla_y_min
    &&& p.vanilla_y_max == q.vanilla_y_max
    &&& p.distribution == q.distribution
    &&& p.size_min == q.size_min
    &&& p.size_max == q.size_max
    &&& p.spawn_tries == q.spawn_tries
    &&& p.rarity_one_in == q.rarity_one_in
    &&& p.rng_salt == q.rng_salt
    &&& p.min_height_above_base == q.min_height_above_base
}

/// A planned vein with its air-exposure flag cleared.
pub open spec fn unflagged(v: PlannedVeinView) -> PlannedVeinView {
    PlannedVeinView {
        placement: v.placement,
        ground_y: v.ground_y,
        x: v.x,
        y: v.y,
        z: v.z,
        skip_if_air_exposed: false,
        writes: v.writes,
    }
}

/// Planned veins with their air-exposure flags cleared.
pub open spec fn all_unflagged(veins: Seq<PlannedVeinView>) -> Seq<PlannedVeinView> {
    veins.map_values(|v: PlannedVeinView| unflagged(v))
}

proof fn lemma_vein_walk_same_ores(
    p: OrePlacement,
    q: OrePlacement,
    deepslate_top: int,
    x: int,
    y: int,
    z: int,
    size: nat,
    rng: ChaCha8Rng,
)
    requires
        p.block == q.block,
        p.deepslate_variant == q.deepslate_variant,
    ensures
        vein_walk(p, deepslate_top, x, y, z, size, rng) == vein_walk(
            q,
            deepslate_top,
            x,
            y,
            z,
            size,
            rng,
        ),
    decreases size,
{
    if size > 0 {
        let (direction, after) = chacha8_i32_draw(rng, 0, 5);
        let (nx, ny, nz) = stepped(x, y, z, direction as int);
        lemma_vein_walk_same_ores(p, q, deepslate_top, nx, ny, nz, (size - 1) as nat, after);
    }
}

proof fn lemma_attempt_same_but_flag(
    p: OrePlacement,
    q: OrePlacement,
    index: int,
    chunk_x: i32,
    chunk_z: i32,
    heights: Seq<i32>,
    ground_level: i32,
    rng: ChaCha8Rng,
)
    requires
        same_but_air_skip(p, q),
        (p.air_exposure_skip > 0) == (q.air_exposure_skip > 0),
    ensures
        ({
            let a = attempt_of(p, index, chunk_x, chunk_z, heights, ground_level, rng);
            let b = attempt_of(q, index, chunk_x, chunk_z, heights, ground_level, rng);
            &&& a.1 == b.1
            &&& a.0 is Some <==> b.0 is Some
            &&& a.0 matches Some(va) ==> b.0 matches Some(vb) && unflagged(va) == unflagged(vb)
        }),
{
    let (_, after_roll) = air_skip_roll(p, rng);
    assert(air_skip_roll(q, rng).1 == after_roll);
    let (local_x, after_x) = chacha8_i32_draw(after_roll, 0, 15);
    let (local_z, after_z) = chacha8_i32_draw(after_x, 0, 15);
    let ground_y = heights[16 * local_z + local_x] as int;
    assert(vanilla_band_of(p, ground_y) == vanilla_band_of(q, ground_y));
    assert(placement_range_of(p, ground_y) == placement_range_of(q, ground_y));
    assert(placement_sample(p, ground_y, after_z) == placement_sample(q, ground_y, after_z));
    let (centre, after_centre) = placement_sample(p, ground_y, after_z);
    if let Some(y) = centre {
        let (size, after_size) = chacha8_u32_draw(after_centre, p.size_min, p.size_max);
        lemma_vein_walk_same_ores(
            p,
            q,
            deepslate_top_of(ground_y, ground_level as int),
            16 * chunk_x + local_x,
            y,
            16 * chunk_z + local_z,
            size as nat,
            after_size,
        );
    }
}

proof fn lemma_attempts_same_but_flags(
    p: OrePlacement,
    q: OrePlacement,
    index: int,
    chunk_x: i32,
    chunk_z: i32,
    heights: Seq<i32>,
    ground_level: i32,
    count: nat,
    rng: ChaCha8Rng,
)
    requires
        same_but_air_skip(p, q),
        (p.air_exposure_skip > 0) == (q.air_exposure_skip > 0),
    ensures
        ({
            let a = attempts_of(p, index, chunk_x, chunk_z, heights, ground_level, count, rng);
            let b = attempts_of(q, index, chunk_x, chunk_z, heights, ground_level, count, rng);
            a.1 == b.1 && all_unflagged(a.0) == all_unflagged(b.0)
        }),
    decreases count,
{
    if count > 0 {
        lemma_attempt_same_but_flag(p, q, index, chunk_x, chunk_z, heights, ground_level, rng);
        let (first_a, after) = attempt_of(p, index, chunk_x, chunk_z, heights, ground_level, rng);
        let first_b = attempt_of(q, index, chunk_x, chunk_z, heights, ground_level, rng).0;
        lemma_attempts_same_but_flags(
            p,
            q,
            index,
            chunk_x,
            chunk_z,
            heights,
            ground_level,
            (count - 1) as nat,
            after,
        );
        let rest_a = attempts_of(
            p,
            index,
            chunk_x,
            chunk_z,
            heights,
            ground_level,
            (count - 1) as nat,
            after,
        ).0;
        let rest_b = attempts_of(
            q,
            index,
            chunk_x,
            chunk_z,
            heights,
            ground_level,
            (count - 1) as nat,
            after,
        ).0;
        if let Some(va) = first_a {
            let vb = first_b.unwrap();
            assert(all_unflagged(seq![va] + rest_a) =~= seq![unflagged(va)] + all_unflagged(rest_a));
            assert(all_unflagged(seq![vb] + rest_b) =~= seq![unflagged(vb)] + all_unflagged(rest_b));
        }
    }
}

/// The air-exposure chance only decides which veins ask to be skipped when
/// exposed: two placements that differ in nothing but that chance, both with
/// a chance or both without one, plan the same veins at the same places with
/// the same writes. (A placement without a chance draws no roll, so its
/// stream, and with it its veins, differ from those of one with a chance.)
pub proof fn law_air_skip_chance_changes_only_flags(
    p: OrePlacement,
    q: OrePlacement,
    index: int,
    chunk_x: i32,
    chunk_z: i32,
    heights: Seq<i32>,
    ground_level: i32,
)
    requires
        same_but_air_skip(p, q),
        (p.air_exposure_skip > 0) == (q.air_exposure_skip > 0),
    ensures
        all_unflagged(placement_plan_of(p, index, chunk_x, chunk_z, heights, ground_level))
            == all_unflagged(placement_plan_of(q, index, chunk_x, chunk_z, heights, ground_level)),
{
    let rng = chacha8_seeded(coord_seed_of(chunk_x, chunk_z, p.rng_salt as u64));
    let (skip_chunk, after_rarity) = match p.rarity_one_in {
        Some(one_in) => if one_in > 1 {
            let (d, after) = chacha8_u32_draw(rng, 0, (one_in - 1) as u32);
            (d != 0, after)
        } else {
            (false, rng)
        },
        None => (false, rng),
    };
    if !skip_chunk {
        let (n, after_n) = chacha8_u32_draw(after_rarity, 0, doubled(p.spawn_tries));
        lemma_attempts_same_but_flags(
            p,
            q,
            index,
            chunk_x,
            chunk_z,
            heights,
            ground_level,
            n as nat,
            after_n,
        );
    }
}

proof fn lemma_attempts_unflagged_without_chance(
    p: OrePlacement,
    index: int,
    chunk_x: i32,
    chunk_z: i32,
    heights: Seq<i32>,
    ground_level: i32,
    count: nat,
    rng: ChaCha8Rng,
)
    requires
        p.air_exposure_skip == 0,
    ensures
        ({
            let veins = attempts_of(p, index, chunk_x, chunk_z, heights, ground_level, count, rng).0;
            forall|k: int| 0 <= k < veins.len() ==> !(#[trigger] veins[k]).skip_if_air_exposed
        }),
    decreases count,
{
    if count > 0 {
        let (first, after) = attempt_of(p, index, chunk_x, chunk_z, heights, ground_level, rng);
        lemma_attempts_unflagged_without_chance(
            p,
            index,
            chunk_x,
            chunk_z,
            heights,
            ground_level,
            (count - 1) as nat,
            after,
        );
        let rest = attempts_of(
            p,
            index,
            chunk_x,
            chunk_z,
            heights,
            ground_level,
            (count - 1) as nat,
            after,
        ).0;
        if let Some(v) = first {
            assert(!v.skip_if_air_exposed);
            let veins = seq![v] + rest;
            assert forall|k: int| 0 <= k < veins.len() implies !(#[trigger] veins[k]).skip_if_air_exposed by {
                if k > 0 {
                    assert(veins[k] == rest[k - 1]);
                }
            }
        }
    }
}

/// A placement without an air-exposure chance never asks to skip a vein, so
/// every vein it plans is placed whether or not it is exposed to air.
pub proof fn law_no_air_skip_chance_flags_nothing(
    p: OrePlacement,
    index: int,
    chunk_x: i32,
    chunk_z: i32,
    heights: Seq<i32>,
    ground_level: i32,
)
    requires
        p.air_exposure_skip == 0,
    ensures
        ({
            let veins = placement_plan_of(p, index, chunk_x, chunk_z, heights, ground_level);
            forall|k: int| 0 <= k < veins.len() ==> !(#[trigger] veins[k]).skip_if_air_exposed
        }),
{
    let rng = chacha8_seeded(coord_seed_of(chunk_x, chunk_z, p.rng_salt as u64));
    let (skip_chunk, after_rarity) = match p.rarity_one_in {
        Some(one_in) => if one_in > 1 {
            let (d, after) = chacha8_u32_draw(rng, 0, (one_in - 1) as u32);
            (d != 0, after)
        } else {
            (false, rng)
        },
        None => (false, rng),
    };
    if !skip_chunk {
        let (n, after_n) = chacha8_u32_draw(after_rarity, 0, doubled(p.spawn_tries));
        lemma_attempts_unflagged_without_chance(
            p,
            index,
            chunk_x,
            chunk_z,
            heights,
            ground_level,
            n as nat,
            after_n,
        );
    }
}

/// Whether a planned vein comes from entry `index` of the placement table.
pub open spec fn of_placement(index: int) -> spec_fn(PlannedVeinView) -> bool {
    |v: PlannedVeinView| v.placement == index
}

proof fn lemma_attempts_carry_index(
    p: OrePlacement,
    index: int,
    chunk_x: i32,
    chunk_z: i32,
    heights: Seq<i32>,
    ground_level: i32,
    count: nat,
    rng: ChaCha8Rng,
)
    ensures
        ({
            let veins = attempts_of(p, index, chunk_x, chunk_z, heights, ground_level, count, rng).0;
            forall|k: int| 0 <= k < veins.len() ==> (#[trigger] veins[k]).placement == index
        }),
    decreases count,
{
    if count > 0 {
        let (first, after) = attempt_of(p, index, chunk_x, chunk_z, heights, ground_level, rng);
        lemma_attempts_carry_index(
            p,
            index,
            chunk_x,
            chunk_z,
            heights,
            ground_level,
            (count - 1) as nat,
            after,
        );
        let rest = attempts_of(
            p,
            index,
            chunk_x,
            chunk_z,
            heights,
            ground_level,
            (count - 1) as nat,
            after,
        ).0;
        if let Some(v) = first {
            let veins = seq![v] + rest;
            assert forall|k: int| 0 <= k < veins.len() implies (#[trigger] veins[k]).placement
                == index by {
                if k > 0 {
                    assert(veins[k] == rest[k - 1]);
                }
            }
        }
    }
}

proof fn lemma_placement_plan_carries_index(
    p: OrePlacement,
    index: int,
    chunk_x: i32,
    chunk_z: i32,
    heights: Seq<i32>,
    ground_level: i32,
)
    ensures
        ({
            let veins = placement_plan_of(p, index, chunk_x, chunk_z, heights, ground_level);
            forall|k: int| 0 <= k < veins.len() ==> (#[trigger] veins[k]).placement == index
        }),
{
    let rng = chacha8_seeded(coord_seed_of(chunk_x, chunk_z, p.rng_salt as u64));
    let (skip_chunk, after_rarity) = match p.rarity_one_in {
        Some(one_in) => if one_in > 1 {
            let (d, after) = chacha8_u32_draw(rng, 0, (one_in - 1) as u32);
            (d != 0, after)
        } else {
            (false, rng)
        },
        None => (false, rng),
    };
    let (n, after_n) = chacha8_u32_draw(after_rarity, 0, doubled(p.spawn_tries));
    lemma_attempts_carry_index(p, index, chunk_x, chunk_z, heights, ground_level, n as nat, after_n);
}

proof fn lemma_filter_single_placement(veins: Seq<PlannedVeinView>, index: int, from: int)
    requires
        forall|k: int| 0 <= k < veins.len() ==> (#[trigger] veins[k]).placement == from,
    ensures
        veins.filter(of_placement(index)) == if from == index {
            veins
        } else {
            Seq::empty()
        },
    decreases veins.len(),
{
    reveal(Seq::filter);
    if veins.len() > 0 {
        let front = veins.drop_last();
        assert forall|k: int| 0 <= k < front.len() implies (#[trigger] front[k]).placement == from by {
            assert(front[k] == veins[k]);
        }
        lemma_filter_single_placement(front, index, from);
        assert(veins.last().placement == from);
        if from == index {
            assert(front.push(veins.last()) =~= veins);
        }
    }
}

proof fn lemma_plan_upto_of_placement(
    chunk_x: i32,
    chunk_z: i32,
    heights: Seq<i32>,
    ground_level: i32,
    count: nat,
    index: int,
)
    requires
        0 <= index,
    ensures
        chunk_plan_upto(chunk_x, chunk_z, heights, ground_level, count).filter(of_placement(index))
            == if index < count {
            placement_plan_of(
                ore_placement_spec(index),
                index,
                chunk_x,
                chunk_z,
                heights,
                ground_level,
            )
        } else {
            Seq::empty()
        },
    decreases count,
{
    reveal(Seq::filter);
    if count > 0 {
        let m = count - 1;
        let front = chunk_plan_upto(chunk_x, chunk_z, heights, ground_level, m as nat);
        let last = placement_plan_of(ore_placement_spec(m), m, chunk_x, chunk_z, heights, ground_level);
        lemma_plan_upto_of_placement(chunk_x, chunk_z, heights, ground_level, m as nat, index);
        Seq::filter_distributes_over_add(front, last, of_placement(index));
        lemma_placement_plan_carries_index(
            ore_placement_spec(m),
            m,
            chunk_x,
            chunk_z,
            heights,
            ground_level,
        );
        lemma_filter_single_placement(last, index, m);
        assert(Seq::<PlannedVeinView>::empty() + Seq::<PlannedVeinView>::empty() =~= Seq::empty());
        assert(front.filter(of_placement(index)) + Seq::<PlannedVeinView>::empty() =~= front.filter(
            of_placement(index),
        ));
        assert(Seq::<PlannedVeinView>::empty() + last =~= last);
    }
}

/// The veins that a chunk's plan holds of one placement follow from that
/// placement's own stream, seeded from the chunk and its salt. A placement
/// that runs on 1 in `k` chunks (`k > 1`) first draws from `0..k`: on any
/// other value than 0 the chunk holds no vein of it; on 0, and for every
/// placement without such a rarity, the next draw (from `0..=2 * spawn_tries`,
/// saturating) is the number of attempts, and the veins are those attempts
/// in order, drawn from the rest of the stream.
pub proof fn law_placement_veins_follow_stream(
    index: int,
    chunk_x: i32,
    chunk_z: i32,
    heights: Seq<i32>,
    ground_level: i32,
)
    requires
        0 <= index < ORE_PLACEMENT_COUNT,
    ensures
        ({
            let p = ore_placement_spec(index);
            let start = chacha8_seeded(coord_seed_of(chunk_x, chunk_z, p.rng_salt as u64));
            let veins = chunk_plan(chunk_x, chunk_z, heights, ground_level).filter(
                of_placement(index),
            );
            let (rarity, after_rarity) = chacha8_u32_draw(start, 0, (p.rarity_one_in->0 - 1) as u32);
            let rare = p.rarity_one_in matches Some(k) && k > 1;
            let (n, after_n) = chacha8_u32_draw(
                if rare { after_rarity } else { start },
                0,
                doubled(p.spawn_tries),
            );
            &&& rare && rarity != 0 ==> veins.len() == 0
            &&& !(rare && rarity != 0) ==> veins == attempts_of(
                p,
                index,
                chunk_x,
                chunk_z,
                heights,
                ground_level,
                n as nat,
                after_n,
            ).0
        }),
{
    lemma_plan_upto_of_placement(
        chunk_x,
        chunk_z,
        heights,
        ground_level,
        ORE_PLACEMENT_COUNT as nat,
        index,
    );
}

/// A rare placement plans nothing in a chunk whose rarity draw is not 0: with
/// `rarity_one_in == Some(k)`, `k > 1`, and the first draw of the chunk's
/// stream from `0..k` nonzero, no vein of the chunk's plan comes from it.
pub proof fn law_rare_placement_skips_chunk(
    index: int,
    chunk_x: i32,
    chunk_z: i32,
    heights: Seq<i32>,
    ground_level: i32,
    k: u32,
)
    requires
        0 <= index < ORE_PLACEMENT_COUNT,
        ore_placement_spec(index).rarity_one_in == Some(k),
        k > 1,
        chacha8_u32_draw(
            chacha8_seeded(
                coord_seed_of(chunk_x, chunk_z, ore_placement_spec(index).rng_salt as u64),
            ),
            0,
            (k - 1) as u32,
        ).0 != 0,
    ensures
        forall|j: int|
            0 <= j < chunk_plan(chunk_x, chunk_z, heights, ground_level).len() ==> (
            #[trigger] chunk_plan(chunk_x, chunk_z, heights, ground_level)[j]).placement != index,
{
    let plan = chunk_plan(chunk_x, chunk_z, heights, ground_level);
    law_placement_veins_follow_stream(index, chunk_x, chunk_z, heights, ground_level);
    assert forall|j: int| 0 <= j < plan.len() implies (#[trigger] plan[j]).placement != index by {
        if plan[j].placement == index {
            assert((of_placement(index))(plan[j]));
            plan.lemma_filter_contains(of_placement(index), j);
            assert(plan.filter(of_placement(index)).len() == 0);
        }
    }
}

/// The centre of a vein is drawn with the placement's own distribution over
/// its clamped vanilla band `vlo..=vhi`, then mapped onto the column and
/// clamped to the fill: a uniform placement maps its first draw `a`, a
/// triangle one the mean of its first two draws `a` and `b` rounded toward
/// zero, an upper-triangle one the larger of `a` and `b`; the generator is left
/// after the draws used. Without a fill or a band, nothing is drawn.
pub proof fn law_centre_follows_distribution(p: OrePlacement, ground_y: int, rng: ChaCha8Rng)
    ensures
        match (underground_of(ground_y), vanilla_band_of(p, ground_y)) {
            (Some((bottom, top)), Some((vlo, vhi))) => {
                let ceiling = anchor_ceiling_of(ground_y);
                let (a, after_a) = chacha8_i32_draw(rng, vlo as i32, vhi as i32);
                let (b, after_b) = chacha8_i32_draw(after_a, vlo as i32, vhi as i32);
                let result = placement_sample(p, ground_y, rng);
                &&& p.distribution == HeightDistribution::Uniform ==> result == (
                    Some(clamp_int(column_y_of(a as int, bottom, top, ceiling), bottom, top)),
                    after_a,
                )
                &&& p.distribution == HeightDistribution::Triangle ==> result == (
                    Some(
                        clamp_int(
                            column_y_of(half_toward_zero(a + b), bottom, top, ceiling),
                            bottom,
                            top,
                        ),
                    ),
                    after_b,
                )
                &&& p.distribution == HeightDistribution::UpperTriangle ==> result == (
                    Some(
                        clamp_int(column_y_of(max_int(a as int, b as int), bottom, top, ceiling), bottom, top),
                    ),
                    after_b,
                )
            },
            _ => placement_sample(p, ground_y, rng) == (None::<int>, rng),
        },
{
    if let (Some((bottom, top)), Some((vlo, vhi))) = (underground_of(ground_y), vanilla_band_of(p, ground_y)) {
        assert(vlo <= vhi);
        assert(ordered_band(vlo as i32, vhi as i32) == (vlo as i32, vhi as i32));
    }
}

/// A vein replaces only stone and deepslate, and never the ore that any vein
/// of the table writes, so a later vein walking through an earlier vein's ore
/// leaves it in place.
pub proof fn law_ore_replaces_only_stone_and_deepslate(b: Block, index: int)
    requires
        0 <= index < ORE_PLACEMENT_COUNT,
    ensures
        b.is_ore_substrate() <==> (b == Block::Stone || b == Block::Deepslate),
        !ore_placement_spec(index).block.is_ore_substrate(),
        !ore_placement_spec(index).deepslate_variant.is_ore_substrate(),
{
}

/// A write that lands with air on any one of its six sides makes its vein
/// exposed, and a vein none of whose landing writes has air beside it is not.
pub proof fn law_air_on_any_side_exposes(around: Seq<WriteSurroundings>, k: int, side: int)
    ensures
        0 <= k < around.len() && 0 <= side < 6 && around[k].takes_ore
            && around[k].air_beside@[side] ==> vein_exposed(around),
        (forall|j: int, d: int|
            0 <= j < around.len() && 0 <= d < 6 && #[trigger] around[j].takes_ore
                ==> !#[trigger] around[j].air_beside@[d]) ==> !vein_exposed(around),
{
    if 0 <= k < around.len() && 0 <= side < 6 && around[k].takes_ore && around[k].air_beside@[side] {
        assert(write_exposed(around[k]));
    }
}

/// One attempt of a placement, draw by draw: when the placement has an
/// air-exposure chance, one word is drawn first and the vein asks to be
/// skipped when exposed exactly when the word's top 24 bits are below the
/// chance; then the column is drawn, x before z, each from `0..=15`. The
/// attempt plans nothing when that column's ground lies below the placement's
/// minimum height above the base or the placement has no range there;
/// otherwise its vein stands on that column with the flag of the roll, is
/// centred at the sampled height, and walks as many blocks as the next draw
/// from `size_min..=size_max` says, with the draws that follow.
pub proof fn law_attempt_draws_in_order(
    p: OrePlacement,
    index: int,
    chunk_x: i32,
    chunk_z: i32,
    heights: Seq<i32>,
    ground_level: i32,
    rng: ChaCha8Rng,
)
    ensures
        ({
            let (word, after_word) = chacha8_next_u32(rng);
            let flag = p.air_exposure_skip > 0 && word / 256 < p.air_exposure_skip;
            let after_roll = if p.air_exposure_skip > 0 { after_word } else { rng };
            let (local_x, after_x) = chacha8_i32_draw(after_roll, 0, 15);
            let (local_z, after_z) = chacha8_i32_draw(after_x, 0, 15);
            let ground_y = heights[16 * local_z + local_x] as int;
            let result = attempt_of(p, index, chunk_x, chunk_z, heights, ground_level, rng);
            &&& (p.min_height_above_base matches Some(m) && ground_y - ground_level < m)
                ==> result == (None::<PlannedVeinView>, after_z)
            &&& placement_range_of(p, ground_y) is None ==> result == (None::<PlannedVeinView>, after_z)
            &&& result.0 matches Some(v) ==> {
                let (centre, after_centre) = placement_sample(p, ground_y, after_z);
                let (size, after_size) = chacha8_u32_draw(after_centre, p.size_min, p.size_max);
                let walk = vein_walk(
                    p,
                    deepslate_top_of(ground_y, ground_level as int),
                    v.x,
                    v.y,
                    v.z,
                    size as nat,
                    after_size,
                );
                &&& v.placement == index
                &&& v.x == 16 * chunk_x + local_x
                &&& v.z == 16 * chunk_z + local_z
                &&& v.ground_y == ground_y
                &&& v.skip_if_air_exposed == flag
                &&& centre == Some(v.y)
                &&& v.writes == walk.0
                &&& result.1 == walk.1
            }
        }),
{
}

} // verus!
