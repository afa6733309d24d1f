use arnis::ore_generation::{
    clamped_vanilla_band, column_deepslate_height, combine_vanilla_draws, step_in_direction, deepslate_top_y, map_vanilla_y_to_column,
    air_exposed, keep_vein, side_of, skip_roll_hits, takes_ore, ore_placement,
    WriteSurroundings, place_vein, placement_y_range, plan_chunk_ores, sample_placement_y,
    PlannedVein,
    sample_vanilla_y, underground_bounds, vanilla_anchor_ceiling, ChunkColumns,
    HeightDistribution, OreWrite, MIN_Y, ORE_PLACEMENT_COUNT, VANILLA_ANCHOR_FLOOR,
    VANILLA_ANCHOR_SURFACE,
};
use arnis::blocks::Block;
use arnis::rng::{coord_rng, coord_seed};
use rand::{Rng, RngCore, SeedableRng};
use rand_chacha::ChaCha8Rng;

const COAL_MAIN: usize = 0;
const LAPIS_TRIANGLE: usize = 7;
const GOLD_TRIANGLE: usize = 9;
const DIAMOND_TRIANGLE: usize = 11;

#[test]
fn sea_level_anchor_maps_floor_and_surface() {
    let ground_y = 64;
    let (bottom, top) = underground_bounds(ground_y).unwrap();
    let ceiling = vanilla_anchor_ceiling(ground_y);
    assert_eq!(
        map_vanilla_y_to_column(VANILLA_ANCHOR_FLOOR, bottom, top, ceiling),
        bottom
    );
    assert_eq!(
        map_vanilla_y_to_column(VANILLA_ANCHOR_SURFACE, bottom, top, ceiling),
        top
    );
    assert_eq!(
        map_vanilla_y_to_column(384, bottom, top, ceiling),
        top,
        "above-sea-level vanilla Y clamps to surface stone top"
    );
}

#[test]
fn tall_surface_spreads_ores_below_top() {
    let ground_y = 82;
    let top = ground_y - 3;
    let mut rng = ChaCha8Rng::seed_from_u64(1);
    let mut coal_sum = 0i64;
    const N: i32 = 3000;
    let coal = ore_placement(COAL_MAIN);
    for _ in 0..N {
        coal_sum += sample_placement_y(&coal, ground_y, &mut rng).unwrap() as i64;
    }
    let coal_mean = coal_sum as f64 / f64::from(N);
    assert!(
        coal_mean < f64::from(top) - 6.0,
        "coal mean {coal_mean} should stay below surface band at {top}"
    );
    assert!(
        clamped_vanilla_band(&ore_placement(3), ground_y).is_none(),
        "mountain iron blob should not run when the column is shorter than vanilla Y=80"
    );
}

#[test]
fn map_vanilla_endpoints_to_column() {
    let ground_y = 64;
    let ground_level = 0;
    let (coal_min, coal_max) = placement_y_range(&ore_placement(COAL_MAIN), ground_y).unwrap();
    let (_, diamond_max) = placement_y_range(&ore_placement(DIAMOND_TRIANGLE), ground_y).unwrap();
    let (_, gold_max) = placement_y_range(&ore_placement(GOLD_TRIANGLE), ground_y).unwrap();
    let (_, lapis_max) = placement_y_range(&ore_placement(LAPIS_TRIANGLE), ground_y).unwrap();
    let underground_top = ground_y - 3;
    let ds_top = deepslate_top_y(ground_y, ground_level);

    assert!(coal_min >= MIN_Y + 1);
    assert!(coal_max >= underground_top - 15, "coal should reach upper stone");
    assert!(coal_max <= underground_top);
    assert!(coal_max > diamond_max);
    assert!(
        diamond_max < underground_top - 25,
        "diamond stays well below surface stone"
    );
    assert!(gold_max > ds_top, "gold reaches stone above deepslate");
    assert!(lapis_max > ds_top, "lapis reaches stone above deepslate");
}

#[test]
fn triangle_samples_near_vanilla_band_center() {
    let ground_y = 64;
    let diamond = ore_placement(DIAMOND_TRIANGLE);
    let (bottom, top) = underground_bounds(ground_y).unwrap();
    let ceiling = vanilla_anchor_ceiling(ground_y);
    let vanilla_mid = (diamond.vanilla_y_min + diamond.vanilla_y_max) / 2;
    let expected = map_vanilla_y_to_column(vanilla_mid, bottom, top, ceiling);
    let mut rng = ChaCha8Rng::seed_from_u64(42);
    let mut sum = 0i64;
    const N: i32 = 2000;
    for _ in 0..N {
        sum += sample_placement_y(&diamond, ground_y, &mut rng).unwrap() as i64;
    }
    let mean = sum as f64 / f64::from(N);
    assert!(
        (mean - f64::from(expected)).abs() < 8.0,
        "triangle mean {mean} should be near vanilla-centre map {expected}"
    );
}

#[test]
fn copper_triangle_peaks_mid_column_not_bottom() {
    let copper = ore_placement(4);
    let ground_y = 64;
    let (bottom, top) = underground_bounds(ground_y).unwrap();
    let (v_lo, v_hi) = clamped_vanilla_band(&copper, ground_y).unwrap();
    let vanilla_peak = (v_lo + v_hi) / 2;
    let ceiling = vanilla_anchor_ceiling(ground_y);
    let expected_peak = map_vanilla_y_to_column(vanilla_peak, bottom, top, ceiling);
    let mut rng = ChaCha8Rng::seed_from_u64(7);
    let mut sum = 0i64;
    const N: i32 = 2000;
    for _ in 0..N {
        sum += sample_placement_y(&copper, ground_y, &mut rng).unwrap() as i64;
    }
    let mean = sum as f64 / f64::from(N);
    let column_mid = (bottom + top) as f64 / 2.0;
    assert!(
        mean > column_mid,
        "copper mean {mean} should sit above column mid {column_mid} (vanilla peak ~Y48)"
    );
    assert!(
        (mean - f64::from(expected_peak)).abs() < 10.0,
        "copper mean {mean} should be near mapped vanilla peak {expected_peak}"
    );
}

#[test]
fn shallow_column_still_has_valid_band() {
    let ground_y = -55;
    let (y_min, y_max) = placement_y_range(&ore_placement(DIAMOND_TRIANGLE), ground_y).unwrap();
    assert!(y_max - y_min >= 0);
    assert!(y_max <= ground_y - 3);
}

#[test]
fn tall_column_spans_deep_and_shallow_blobs() {
    let ground_y = 200;
    let (_coal_min, coal_max) = placement_y_range(&ore_placement(COAL_MAIN), ground_y).unwrap();
    let (_, diamond_max) = placement_y_range(&ore_placement(DIAMOND_TRIANGLE), ground_y).unwrap();
    let underground_top = ground_y - 3;
    assert!(coal_max > diamond_max);
    assert!(coal_max >= underground_top - 20);
    assert!(diamond_max < coal_max);
}

#[test]
fn deepslate_band_follows_ground_level() {
    // no band at or below the default ground level
    assert_eq!(column_deepslate_height(64, -62), 0);
    assert_eq!(deepslate_top_y(64, -62), i32::MIN);
    // half the underground height: (64 - 3 + 64) / 2 = 62
    assert_eq!(column_deepslate_height(64, 0), 62);
    assert_eq!(deepslate_top_y(64, 0), -2);
    // capped at 64 blocks for tall columns
    assert_eq!(column_deepslate_height(200, 0), 64);
    assert_eq!(deepslate_top_y(200, 0), 0);
    // rounds toward zero on a negative underground height
    assert_eq!(column_deepslate_height(-64, 0), -1);
}

#[test]
fn underground_needs_room_above_bedrock() {
    assert_eq!(underground_bounds(-60), None);
    assert_eq!(underground_bounds(-59), Some((-63, -62)));
    assert_eq!(underground_bounds(64), Some((-63, 61)));
}

#[test]
fn anchor_ceiling_rises_with_tall_columns() {
    assert_eq!(vanilla_anchor_ceiling(-100), VANILLA_ANCHOR_SURFACE);
    assert_eq!(vanilla_anchor_ceiling(64), VANILLA_ANCHOR_SURFACE);
    // column span 197 - (-63) = 260 exceeds the sea-level span of 128
    assert_eq!(vanilla_anchor_ceiling(200), -64 + 260);
}

#[test]
fn map_rounds_to_nearest_column_height() {
    // span 124 over 128 vanilla steps: vanilla 0 is 64 steps up, 64 * 124 / 128 = 62
    assert_eq!(map_vanilla_y_to_column(0, -63, 61, 64), -1);
    // 1 * 124 / 128 = 0.97 rounds up to 1
    assert_eq!(map_vanilla_y_to_column(-63, -63, 61, 64), -62);
    // half steps round up: 1 * 3 / 2 = 1.5
    assert_eq!(map_vanilla_y_to_column(-63, 0, 3, -62), 2);
    // below the floor clamps to the bottom
    assert_eq!(map_vanilla_y_to_column(-500, -63, 61, 64), -63);
}

#[test]
fn map_is_monotone_over_the_band() {
    let (bottom, top) = underground_bounds(150).unwrap();
    let ceiling = vanilla_anchor_ceiling(150);
    let mut last = i32::MIN;
    for v in -100..400 {
        let y = map_vanilla_y_to_column(v, bottom, top, ceiling);
        assert!(y >= last);
        assert!(bottom <= y && y <= top);
        last = y;
    }
}

#[test]
fn placement_range_none_without_band() {
    // emerald spans vanilla -16..480; a column below -59 has no fill
    assert_eq!(placement_y_range(&ore_placement(15), -70), None);
    // mountain iron needs vanilla 80, above a sea-level column's ceiling
    assert_eq!(placement_y_range(&ore_placement(3), 64), None);
    assert_eq!(clamped_vanilla_band(&ore_placement(3), 200), Some((80, 196)));
}

#[test]
fn vanilla_draws_stay_in_band() {
    let mut rng = ChaCha8Rng::seed_from_u64(5);
    let mut seen_low = false;
    let mut seen_high = false;
    for _ in 0..2000 {
        let u = sample_vanilla_y(HeightDistribution::Uniform, 10, -10, &mut rng);
        assert!((-10..=10).contains(&u));
        seen_low |= u < 0;
        seen_high |= u > 0;
        let t = sample_vanilla_y(HeightDistribution::Triangle, -10, 10, &mut rng);
        assert!((-10..=10).contains(&t));
        let m = sample_vanilla_y(HeightDistribution::UpperTriangle, -10, 10, &mut rng);
        assert!((-10..=10).contains(&m));
    }
    assert!(seen_low && seen_high);
}

#[test]
fn vein_walks_one_block_at_a_time() {
    let coal = ore_placement(COAL_MAIN);
    let mut rng = ChaCha8Rng::seed_from_u64(9);
    let writes: Vec<OreWrite> = place_vein(&coal, 0, 10, 0, 20, 12, &mut rng);
    assert_eq!(writes.len(), 12);
    assert_eq!((writes[0].x, writes[0].y, writes[0].z), (10, 0, 20));
    for pair in writes.windows(2) {
        let d = (pair[1].x - pair[0].x).abs() + (pair[1].y - pair[0].y).abs()
            + (pair[1].z - pair[0].z).abs();
        assert_eq!(d, 1);
    }
    for w in &writes {
        let expected = if w.y < 0 { Block::DeepslateCoalOre } else { Block::CoalOre };
        assert_eq!(w.block, expected);
    }
}

#[test]
fn chunk_plan_obeys_placement_rules() {
    let columns = ChunkColumns { heights: (0..256).map(|k| 40 + (k % 50)).collect() };
    let ground_level = 0;
    let veins = plan_chunk_ores(3, -2, &columns, ground_level);
    assert!(!veins.is_empty());
    let mut last_placement = 0;
    for v in &veins {
        assert!(v.placement < ORE_PLACEMENT_COUNT);
        assert!(v.placement >= last_placement);
        last_placement = v.placement;
        let p = ore_placement(v.placement);
        assert!((48..64).contains(&v.x));
        assert!((-32..-16).contains(&v.z));
        let lx = (v.x - 48) as usize;
        let lz = (v.z + 32) as usize;
        assert_eq!(v.ground_y, columns.heights[16 * lz + lx]);
        let (lo, hi) = placement_y_range(&p, v.ground_y).unwrap();
        assert!(lo <= v.y && v.y <= hi);
        assert!(p.size_min as usize <= v.writes.len() && v.writes.len() <= p.size_max as usize);
        if let Some(min_above) = p.min_height_above_base {
            assert!(v.ground_y - ground_level >= min_above);
        }
    }
    // the same chunk always plans the same veins
    let again = plan_chunk_ores(3, -2, &columns, ground_level);
    assert_eq!(again.len(), veins.len());
    for (a, b) in veins.iter().zip(again.iter()) {
        assert_eq!(a.writes, b.writes);
    }
}

#[test]
fn coord_seed_packs_chunk_and_salt() {
    assert_eq!(coord_seed(0, 0, 0), 0);
    assert_eq!(coord_seed(1, 2, 0), (1u64 << 32) | 2);
    assert_eq!(coord_seed(-1, 0, 0), 0xFFFF_FFFF_0000_0000);
    assert_eq!(coord_seed(0, 0, 1), 0x9E37_79B9_7F4A_7C15);
    // different chunks get different streams
    let a: u64 = coord_rng(0, 0, 7).random();
    let b: u64 = coord_rng(0, 1, 7).random();
    assert_ne!(a, b);
}

#[test]
fn draws_combine_by_distribution() {
    assert_eq!(combine_vanilla_draws(HeightDistribution::Uniform, 7, -3), 7);
    assert_eq!(combine_vanilla_draws(HeightDistribution::Triangle, 7, -2), 2);
    assert_eq!(combine_vanilla_draws(HeightDistribution::Triangle, -7, 2), -2);
    assert_eq!(combine_vanilla_draws(HeightDistribution::UpperTriangle, -7, 2), 2);
}

#[test]
fn vein_steps_follow_direction() {
    assert_eq!(step_in_direction(0, 0, 0, 0), (1, 0, 0));
    assert_eq!(step_in_direction(0, 0, 0, 1), (-1, 0, 0));
    assert_eq!(step_in_direction(0, 0, 0, 2), (0, 1, 0));
    assert_eq!(step_in_direction(0, 0, 0, 3), (0, -1, 0));
    assert_eq!(step_in_direction(0, 0, 0, 4), (0, 0, 1));
    assert_eq!(step_in_direction(0, 0, 0, 5), (0, 0, -1));
}

#[test]
fn coord_rng_is_seeded_from_coord_seed() {
    let mut from_chunk = coord_rng(5, -7, 0x1A91_0002);
    let mut direct = ChaCha8Rng::seed_from_u64(coord_seed(5, -7, 0x1A91_0002));
    for _ in 0..8 {
        let a: u64 = from_chunk.random();
        let b: u64 = direct.random();
        assert_eq!(a, b);
    }
}

#[test]
fn vanilla_sample_takes_draws_by_distribution() {
    for seed in 0..50u64 {
        let mut rng = ChaCha8Rng::seed_from_u64(seed);
        let mut copy = rng.clone();
        let u = sample_vanilla_y(HeightDistribution::Uniform, 30, -20, &mut rng);
        assert_eq!(u, copy.random_range(-20..=30));
        assert_eq!(rng.next_u64(), copy.next_u64());

        let mut rng = ChaCha8Rng::seed_from_u64(seed);
        let mut copy = rng.clone();
        let t = sample_vanilla_y(HeightDistribution::Triangle, -20, 30, &mut rng);
        let (a, b): (i32, i32) = (copy.random_range(-20..=30), copy.random_range(-20..=30));
        assert_eq!(t, (a + b) / 2);
        assert_eq!(rng.next_u64(), copy.next_u64());

        let mut rng = ChaCha8Rng::seed_from_u64(seed);
        let mut copy = rng.clone();
        let m = sample_vanilla_y(HeightDistribution::UpperTriangle, -20, 30, &mut rng);
        let (a, b): (i32, i32) = (copy.random_range(-20..=30), copy.random_range(-20..=30));
        assert_eq!(m, a.max(b));
        assert_eq!(rng.next_u64(), copy.next_u64());
    }
}

#[test]
fn vein_walk_follows_direction_draws() {
    let coal = ore_placement(COAL_MAIN);
    let mut rng = ChaCha8Rng::seed_from_u64(21);
    let mut copy = rng.clone();
    let writes = place_vein(&coal, 4, 100, 2, -50, 15, &mut rng);
    let (mut x, mut y, mut z) = (100, 2, -50);
    for w in &writes {
        assert_eq!((w.x, w.y, w.z), (x, y, z));
        match copy.random_range(0..6) {
            0 => x += 1,
            1 => x -= 1,
            2 => y += 1,
            3 => y -= 1,
            4 => z += 1,
            _ => z -= 1,
        }
    }
    assert_eq!(writes.len(), 15);
    assert_eq!(rng.next_u64(), copy.next_u64());
}

#[test]
fn placement_sample_without_range_leaves_stream() {
    let mountain_iron = ore_placement(3);
    let mut rng = ChaCha8Rng::seed_from_u64(4);
    let mut copy = rng.clone();
    assert_eq!(sample_placement_y(&mountain_iron, 64, &mut rng), None);
    assert_eq!(rng.next_u64(), copy.next_u64());
}

#[test]
fn air_skip_thresholds_match_f32_chances() {
    let chances: [f32; 16] = [
        0.55, 0.15, 0.25, 0.55, 0.0, 0.0, 0.0, 0.0, 0.0, 0.35, 0.5, 0.5, 0.0, 0.0, 0.5, 0.0,
    ];
    for (i, chance) in chances.iter().enumerate() {
        let scaled = (*chance as f64) * 16_777_216.0;
        assert_eq!(ore_placement(i).air_exposure_skip as f64, scaled.ceil(), "entry {i}");
    }
    assert!(skip_roll_hits(0, 1));
    assert!(skip_roll_hits(255, 1));
    assert!(!skip_roll_hits(256, 1));
    assert!(!skip_roll_hits(0, 0));
    assert!(skip_roll_hits(u32::MAX, 16_777_216));
    assert!(!skip_roll_hits(9_227_469 * 256, 9_227_469));
    // the word test is the f32 test of rand, draw for draw
    let mut rng = ChaCha8Rng::seed_from_u64(77);
    let mut copy = rng.clone();
    for _ in 0..5000 {
        let f: f32 = copy.random();
        let word = rng.next_u32();
        assert_eq!(f < 0.55, word / 256 < 9_227_469);
    }
}

#[test]
fn exposed_flagged_veins_are_dropped() {
    let vein = |flag: bool| PlannedVein {
        placement: 0,
        ground_y: 64,
        x: 0,
        y: 0,
        z: 0,
        skip_if_air_exposed: flag,
        writes: vec![
            OreWrite { block: Block::CoalOre, x: 0, y: 0, z: 0 },
            OreWrite { block: Block::CoalOre, x: 1, y: 0, z: 0 },
        ],
    };
    let sealed = WriteSurroundings { takes_ore: true, air_beside: [false; 6] };
    let open = WriteSurroundings { takes_ore: true, air_beside: [false, false, true, false, false, false] };
    let open_but_left = WriteSurroundings { takes_ore: false, air_beside: [true; 6] };
    assert!(!air_exposed(&vec![sealed, sealed]));
    assert!(air_exposed(&vec![sealed, open]));
    assert!(!air_exposed(&vec![open_but_left, sealed]));
    assert!(!air_exposed(&Vec::new()));
    assert!(keep_vein(&vein(false), &vec![sealed, sealed]));
    assert!(keep_vein(&vein(false), &vec![sealed, open]));
    assert!(keep_vein(&vein(true), &vec![sealed, sealed]));
    assert!(keep_vein(&vein(true), &vec![open_but_left, sealed]));
    assert!(!keep_vein(&vein(true), &vec![open, sealed]));
}

#[test]
fn write_sides_and_landing() {
    assert_eq!(side_of(0, 0, 0, 0), Some((1, 0, 0)));
    assert_eq!(side_of(0, 0, 0, 3), Some((0, -1, 0)));
    assert_eq!(side_of(0, 0, 0, 5), Some((0, 0, -1)));
    assert_eq!(side_of(i32::MAX, 0, 0, 0), None);
    assert_eq!(side_of(i32::MAX, 0, 0, 1), Some((i32::MAX - 1, 0, 0)));
    assert_eq!(side_of(0, 0, i32::MIN, 5), None);
    assert!(takes_ore(Some(Block::Stone)));
    assert!(takes_ore(Some(Block::Deepslate)));
    assert!(!takes_ore(Some(Block::CoalOre)));
    assert!(!takes_ore(None));
}

#[test]
fn placements_without_chance_never_flag() {
    let columns = ChunkColumns { heights: (0..256).map(|k| 30 + (k % 70)).collect() };
    for (cx, cz) in [(0, 0), (5, -3), (-8, 12)] {
        for v in plan_chunk_ores(cx, cz, &columns, 0) {
            if ore_placement(v.placement).air_exposure_skip == 0 {
                assert!(!v.skip_if_air_exposed);
            }
        }
    }
}

#[test]
fn coal_plan_follows_its_stream() {
    let columns = ChunkColumns { heights: (0..256).map(|k| 40 + (k % 50)).collect() };
    let ground_level = 0;
    let coal = ore_placement(COAL_MAIN);
    let mut total = 0;
    for (chunk_x, chunk_z) in [(3, -2), (0, 0), (7, 7), (-4, 9)] {
        let mut rng = coord_rng(chunk_x, chunk_z, coal.rng_salt as u64);
        let n = rng.random_range(0..=2 * coal.spawn_tries);
        let mut expected = Vec::new();
        for _ in 0..n {
            let flag = rng.random::<f32>() < 0.55;
            let lx: i32 = rng.random_range(0..16);
            let lz: i32 = rng.random_range(0..16);
            let ground_y = columns.heights[(16 * lz + lx) as usize];
            if placement_y_range(&coal, ground_y).is_none() {
                continue;
            }
            let top = deepslate_top_y(ground_y, ground_level);
            let Some(cy) = sample_placement_y(&coal, ground_y, &mut rng) else { continue };
            let size = rng.random_range(coal.size_min..=coal.size_max);
            let (cx, cz) = (chunk_x * 16 + lx, chunk_z * 16 + lz);
            let writes = place_vein(&coal, top, cx, cy, cz, size, &mut rng);
            expected.push((cx, cy, cz, flag, writes));
        }
        let planned: Vec<_> = plan_chunk_ores(chunk_x, chunk_z, &columns, ground_level)
            .into_iter()
            .filter(|v| v.placement == COAL_MAIN)
            .map(|v| (v.x, v.y, v.z, v.skip_if_air_exposed, v.writes))
            .collect();
        total += planned.len();
        assert_eq!(planned, expected);
    }
    assert!(total > 0);
}

#[test]
fn very_tall_columns_still_plan() {
    let coal = ore_placement(COAL_MAIN);
    let ground_y = 1_500_000_000;
    let mut rng = ChaCha8Rng::seed_from_u64(3);
    let (lo, hi) = placement_y_range(&coal, ground_y).unwrap();
    let cy = sample_placement_y(&coal, ground_y, &mut rng).unwrap();
    assert!(lo <= cy && cy <= hi);
    let columns = ChunkColumns { heights: vec![ground_y; 256] };
    for v in plan_chunk_ores(1, 1, &columns, 0) {
        assert_eq!(v.ground_y, ground_y);
    }
}
