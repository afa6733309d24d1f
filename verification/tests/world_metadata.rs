use arnis::coordinate_system::XZBBox;
use arnis::world_metadata::{append_setting_warnings, WorldGenerationSettings};

fn settings() -> WorldGenerationSettings {
    WorldGenerationSettings {
        terrain: false,
        fillground: false,
        land_cover: true,
        ground_level: -62,
        auto_ground_level: false,
        disable_height_limit: false,
        use_3d: false,
        rotation_bits: 0f64.to_bits(),
        interior: true,
        roof: true,
        aws_only_elevation: false,
        bake_lighting: false,
        arnis_version: "2.4.0".to_string(),
    }
}

#[test]
fn matching_settings_give_no_warnings() {
    let mut requested = settings();
    requested.roof = false;
    requested.interior = false;
    requested.rotation_bits = 30f64.to_bits();
    assert!(append_setting_warnings(&settings(), &requested).is_empty());
}

#[test]
fn each_differing_setting_warns_once_in_order() {
    let mut requested = settings();
    requested.terrain = true;
    requested.auto_ground_level = true;
    requested.use_3d = true;
    let warnings = append_setting_warnings(&settings(), &requested);
    assert_eq!(warnings, vec![
        "Terrain setting differs from the existing world.".to_string(),
        "Ground level settings differ from the existing world.".to_string(),
        "3D models setting differs from the existing world.".to_string(),
    ]);
    let mut all = settings();
    all.terrain = true;
    all.fillground = true;
    all.land_cover = false;
    all.ground_level = 5;
    all.disable_height_limit = true;
    all.use_3d = true;
    let warnings = append_setting_warnings(&settings(), &all);
    assert_eq!(warnings.len(), 6);
    assert_eq!(warnings[1], "Fill ground setting differs from the existing world.");
    assert_eq!(warnings[2], "Land cover setting differs from the existing world.");
    assert_eq!(warnings[4], "Extend build height setting differs from the existing world.");
}

#[test]
fn union_expands_minecraft_bounds() {
    let first = XZBBox { min_x: 0, max_x: 100, min_z: -50, max_z: 20 };
    let second = XZBBox { min_x: 80, max_x: 300, min_z: -120, max_z: 0 };
    let u = first.union_with(&second);
    assert_eq!((u.min_x, u.max_x, u.min_z, u.max_z), (0, 300, -120, 20));
}

#[test]
fn chunk_range_rounds_down() {
    let b = XZBBox { min_x: -17, max_x: 31, min_z: -1, max_z: 16 };
    assert_eq!(b.chunk_range(), (-2, 1, -1, 1));
}
