//! Generation settings stored with a world, and what an append run is warned
//! of when its settings differ from them.

use vstd::prelude::*;

verus! {

/// Generation flags stored with the world so append runs can be validated.
/// The map rotation is held as the bit pattern of its `f64` value.
pub struct WorldGenerationSettings {
    pub terrain: bool,
    pub fillground: bool,
    pub land_cover: bool,
    pub ground_level: i32,
    pub auto_ground_level: bool,
    pub disable_height_limit: bool,
    pub use_3d: bool,
    pub rotation_bits: u64,
    pub interior: bool,
    pub roof: bool,
    pub aws_only_elevation: bool,
    pub bake_lighting: bool,
    pub arnis_version: String,
}

pub const TERRAIN_DIFFERS: &'static str = "Terrain setting differs from the existing world.";
pub const FILLGROUND_DIFFERS: &'static str = "Fill ground setting differs from the existing world.";
pub const LAND_COVER_DIFFERS: &'static str = "Land cover setting differs from the existing world.";
pub const GROUND_LEVEL_DIFFERS: &'static str =
    "Ground level settings differ from the existing world.";
pub const HEIGHT_LIMIT_DIFFERS: &'static str =
    "Extend build height setting differs from the existing world.";
pub const MODELS_3D_DIFFER: &'static str = "3D models setting differs from the existing world.";

/// `message` when `differs`, nothing otherwise.
pub open spec fn warning_if(differs: bool, message: Seq<char>) -> Seq<Seq<char>> {
    if differs {
        seq![message]
    } else {
        Seq::empty()
    }
}

/// One warning for each setting group that differs, in this order: terrain,
/// fill ground, land cover, ground level (level or automatic choice), build
/// height extension, 3D models.
pub open spec fn setting_warnings(
    stored: WorldGenerationSettings,
    requested: WorldGenerationSettings,
) -> Seq<Seq<char>> {
    warning_if(stored.terrain != requested.terrain, TERRAIN_DIFFERS@) + warning_if(
        stored.fillground != requested.fillground,
        FILLGROUND_DIFFERS@,
    ) + warning_if(stored.land_cover != requested.land_cover, LAND_COVER_DIFFERS@) + warning_if(
        stored.ground_level != requested.ground_level || stored.auto_ground_level
            != requested.auto_ground_level,
        GROUND_LEVEL_DIFFERS@,
    ) + warning_if(
        stored.disable_height_limit != requested.disable_height_limit,
        HEIGHT_LIMIT_DIFFERS@,
    ) + warning_if(stored.use_3d != requested.use_3d, MODELS_3D_DIFFER@)
}

pub open spec fn texts(strings: Seq<String>) -> Seq<Seq<char>> {
    strings.map_values(|s: String| s@)
}

fn push_warning(warnings: &mut Vec<String>, differs: bool, message: &'static str)
    ensures
        texts(final(warnings)@) == texts(old(warnings)@) + warning_if(differs, message@),
{
    if differs {
        warnings.push(message.to_owned());
        assert(texts(warnings@) =~= texts(old(warnings)@) + warning_if(differs, message@));
    } else {
        assert(texts(warnings@) =~= texts(old(warnings)@) + warning_if(differs, message@));
    }
}

/// Soft warnings when append settings differ (coordinate-safe but visually
/// inconsistent).
pub fn append_setting_warnings(
    stored: &WorldGenerationSettings,
    requested: &WorldGenerationSettings,
) -> (warnings: Vec<String>)
    ensures
        texts(warnings@) == setting_warnings(*stored, *requested),
{
    let mut warnings: Vec<String> = Vec::new();
    assert(texts(warnings@) =~= Seq::empty());
    push_warning(&mut warnings, stored.terrain != requested.terrain, TERRAIN_DIFFERS);
    push_warning(&mut warnings, stored.fillground != requested.fillground, FILLGROUND_DIFFERS);
    push_warning(&mut warnings, stored.land_cover != requested.land_cover, LAND_COVER_DIFFERS);
    push_warning(
        &mut warnings,
        stored.ground_level != requested.ground_level || stored.auto_ground_level
            != requested.auto_ground_level,
        GROUND_LEVEL_DIFFERS,
    );
    push_warning(
        &mut warnings,
        stored.disable_height_limit != requested.disable_height_limit,
        HEIGHT_LIMIT_DIFFERS,
    );
    push_warning(&mut warnings, stored.use_3d != requested.use_3d, MODELS_3D_DIFFER);
    assert(texts(warnings@) =~= setting_warnings(*stored, *requested));
    warnings
}

/// Settings that agree on every checked group give no warning.
pub proof fn law_matching_settings_warn_nothing(
    stored: WorldGenerationSettings,
    requested: WorldGenerationSettings,
)
    requires
        stored.terrain == requested.terrain,
        stored.fillground == requested.fillground,
        stored.land_cover == requested.land_cover,
        stored.ground_level == requested.ground_level,
        stored.auto_ground_level == requested.auto_ground_level,
        stored.disable_height_limit == requested.disable_height_limit,
        stored.use_3d == requested.use_3d,
    ensures
        setting_warnings(stored, requested).len() == 0,
{
}

/// Each setting group warns exactly when it differs: terrain, fill ground,
/// land cover, ground level (when the level or its automatic choice differs,
/// either or both), build height extension and 3D models each give their own
/// message when and only when their settings differ, whatever the others do.
pub proof fn law_each_differing_group_warns(
    stored: WorldGenerationSettings,
    requested: WorldGenerationSettings,
)
    ensures
        setting_warnings(stored, requested).contains(TERRAIN_DIFFERS@) <==> stored.terrain
            != requested.terrain,
        setting_warnings(stored, requested).contains(FILLGROUND_DIFFERS@) <==> stored.fillground
            != requested.fillground,
        setting_warnings(stored, requested).contains(LAND_COVER_DIFFERS@) <==> stored.land_cover
            != requested.land_cover,
        setting_warnings(stored, requested).contains(GROUND_LEVEL_DIFFERS@) <==> (
        stored.ground_level != requested.ground_level || stored.auto_ground_level
            != requested.auto_ground_level),
        setting_warnings(stored, requested).contains(HEIGHT_LIMIT_DIFFERS@) <==> stored.disable_height_limit
            != requested.disable_height_limit,
        setting_warnings(stored, requested).contains(MODELS_3D_DIFFER@) <==> stored.use_3d
            != requested.use_3d,
{
    reveal_strlit("Terrain setting differs from the existing world.");
    reveal_strlit("Fill ground setting differs from the existing world.");
    reveal_strlit("Land cover setting differs from the existing world.");
    reveal_strlit("Ground level settings differ from the existing world.");
    reveal_strlit("Extend build height setting differs from the existing world.");
    reveal_strlit("3D models setting differs from the existing world.");
    assert(TERRAIN_DIFFERS@[0] == 'T' && FILLGROUND_DIFFERS@[0] == 'F' && LAND_COVER_DIFFERS@[0]
        == 'L' && GROUND_LEVEL_DIFFERS@[0] == 'G' && HEIGHT_LIMIT_DIFFERS@[0] == 'E'
        && MODELS_3D_DIFFER@[0] == '3');
    let p0 = warning_if(stored.terrain != requested.terrain, TERRAIN_DIFFERS@);
    let p1 = warning_if(stored.fillground != requested.fillground, FILLGROUND_DIFFERS@);
    let p2 = warning_if(stored.land_cover != requested.land_cover, LAND_COVER_DIFFERS@);
    let p3 = warning_if(
        stored.ground_level != requested.ground_level || stored.auto_ground_level
            != requested.auto_ground_level,
        GROUND_LEVEL_DIFFERS@,
    );
    let p4 = warning_if(stored.disable_height_limit != requested.disable_height_limit, HEIGHT_LIMIT_DIFFERS@);
    let p5 = warning_if(stored.use_3d != requested.use_3d, MODELS_3D_DIFFER@);
    let messages = seq![
        TERRAIN_DIFFERS@,
        FILLGROUND_DIFFERS@,
        LAND_COVER_DIFFERS@,
        GROUND_LEVEL_DIFFERS@,
        HEIGHT_LIMIT_DIFFERS@,
        MODELS_3D_DIFFER@,
    ];
    assert forall|i: int| 0 <= i < 6 implies {
        &&& p0.contains(#[trigger] messages[i]) <==> (i == 0 && p0.len() == 1)
        &&& p1.contains(messages[i]) <==> (i == 1 && p1.len() == 1)
        &&& p2.contains(messages[i]) <==> (i == 2 && p2.len() == 1)
        &&& p3.contains(messages[i]) <==> (i == 3 && p3.len() == 1)
        &&& p4.contains(messages[i]) <==> (i == 4 && p4.len() == 1)
        &&& p5.contains(messages[i]) <==> (i == 5 && p5.len() == 1)
    } by {
        lemma_warning_contains(stored.terrain != requested.terrain, TERRAIN_DIFFERS@, messages[i]);
        lemma_warning_contains(stored.fillground != requested.fillground, FILLGROUND_DIFFERS@, messages[i]);
        lemma_warning_contains(stored.land_cover != requested.land_cover, LAND_COVER_DIFFERS@, messages[i]);
        lemma_warning_contains(
            stored.ground_level != requested.ground_level || stored.auto_ground_level
                != requested.auto_ground_level,
            GROUND_LEVEL_DIFFERS@,
            messages[i],
        );
        lemma_warning_contains(
            stored.disable_height_limit != requested.disable_height_limit,
            HEIGHT_LIMIT_DIFFERS@,
            messages[i],
        );
        lemma_warning_contains(stored.use_3d != requested.use_3d, MODELS_3D_DIFFER@, messages[i]);
        assert(messages[i][0] == messages[0][0] ==> i == 0);
    }
    let w = setting_warnings(stored, requested);
    assert forall|i: int| 0 <= i < 6 implies (w.contains(#[trigger] messages[i]) <==> (
    p0.contains(messages[i]) || p1.contains(messages[i]) || p2.contains(messages[i])
        || p3.contains(messages[i]) || p4.contains(messages[i]) || p5.contains(messages[i]))) by {
        let m = messages[i];
        lemma_contains_concat(p0, p1, m);
        lemma_contains_concat(p0 + p1, p2, m);
        lemma_contains_concat(p0 + p1 + p2, p3, m);
        lemma_contains_concat(p0 + p1 + p2 + p3, p4, m);
        lemma_contains_concat(p0 + p1 + p2 + p3 + p4, p5, m);
    }
    assert(messages[0] == TERRAIN_DIFFERS@);
    assert(messages[1] == FILLGROUND_DIFFERS@);
    assert(messages[2] == LAND_COVER_DIFFERS@);
    assert(messages[3] == GROUND_LEVEL_DIFFERS@);
    assert(messages[4] == HEIGHT_LIMIT_DIFFERS@);
    assert(messages[5] == MODELS_3D_DIFFER@);
}

proof fn lemma_warning_contains(differs: bool, message: Seq<char>, m: Seq<char>)
    ensures
        warning_if(differs, message).contains(m) <==> (differs && m == message),
        warning_if(differs, message).len() == 1 <==> differs,
{
    if differs {
        assert(warning_if(differs, message)[0] == message);
    }
}

proof fn lemma_contains_concat(a: Seq<Seq<char>>, b: Seq<Seq<char>>, x: Seq<char>)
    ensures
        (a + b).contains(x) <==> a.contains(x) || b.contains(x),
{
    if a.contains(x) {
        let i = choose|i: int| 0 <= i < a.len() && a[i] == x;
        assert((a + b)[i] == x);
    }
    if b.contains(x) {
        let j = choose|j: int| 0 <= j < b.len() && b[j] == x;
        assert((a + b)[a.len() + j] == x);
    }
    if (a + b).contains(x) {
        let k = choose|k: int| 0 <= k < (a + b).len() && (a + b)[k] == x;
        if k < a.len() {
            assert(a[k] == x);
        } else {
            assert(b[k - a.len()] == x);
        }
    }
}

} // verus!
