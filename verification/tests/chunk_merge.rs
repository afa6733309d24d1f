use arnis::world_editor::chunk_merge::{
    bits_per_block, decode_section_cells, encode_section_from_cells, merge_chunks, merge_tags,
    overlay_cells, AIR,
};
use arnis::world_editor::common::{BlockProperties, Blockstates, Cell, Chunk, PaletteItem, Section};
use fastnbt::Value;

fn cell(name: &str) -> Cell {
    PaletteItem { name: name.to_string(), properties: None }
}

fn cell_with(name: &str, prop: &str) -> Cell {
    let mut map = std::collections::HashMap::new();
    map.insert("facing".to_string(), Value::String(prop.to_string()));
    PaletteItem { name: name.to_string(), properties: Some(BlockProperties::new(Value::Compound(map))) }
}

/// Index of the block at local (x, y, z) within a section.
fn cell_index(x: usize, y: usize, z: usize) -> usize {
    x + 16 * z + 256 * y
}

/// A section at height `y` that is air but for the given blocks.
fn section_with(y: i8, blocks: &[(usize, &str)]) -> Section {
    let mut cells: Vec<Cell> = (0..4096).map(|_| cell(AIR)).collect();
    for (idx, name) in blocks {
        cells[*idx] = cell(name);
    }
    encode_section_from_cells(&cells, y)
}

fn chunk_of(sections: Vec<Section>) -> Chunk {
    Chunk { sections, x_pos: 0, z_pos: 0, is_light_on: 0, other: Vec::new() }
}

fn same(a: &Cell, b: &Cell) -> bool {
    a.name == b.name
        && a.properties.as_ref().map(|p| p.key.clone()) == b.properties.as_ref().map(|p| p.key.clone())
}

#[test]
fn overlay_new_non_air_overwrites_existing() {
    // block (1, 64, 1) lies in section y = 4 at local (1, 0, 1)
    let idx = cell_index(1, 0, 1);
    let existing_chunk = chunk_of(vec![section_with(4, &[(idx, "minecraft:stone")])]);
    let new_chunk = chunk_of(vec![section_with(4, &[(idx, "minecraft:grass_block")])]);
    let merged = merge_chunks(&existing_chunk, &new_chunk);
    assert!(!merged.sections.is_empty());
    let section = merged.sections.iter().find(|s| s.y == 4).expect("y=64 section");
    let cells = decode_section_cells(section);
    let idx = 1 + 16 * 1 + 256 * 0;
    assert_ne!(cells[idx].name, "minecraft:stone");
    assert_ne!(cells[idx].name, AIR);
}

#[test]
fn overlay_preserves_existing_where_new_is_air() {
    let existing_chunk = chunk_of(vec![section_with(4, &[(cell_index(0, 0, 0), "minecraft:stone")])]);
    let new_chunk = chunk_of(vec![]);
    let merged = merge_chunks(&existing_chunk, &new_chunk);
    assert!(!merged.sections.is_empty());
    let cells = decode_section_cells(&merged.sections[0]);
    assert_eq!(cells[0].name, "minecraft:stone");
}

#[test]
fn bits_per_block_grows_with_palette() {
    assert_eq!(bits_per_block(0), 4);
    assert_eq!(bits_per_block(2), 4);
    assert_eq!(bits_per_block(16), 4);
    assert_eq!(bits_per_block(17), 5);
    assert_eq!(bits_per_block(32), 5);
    assert_eq!(bits_per_block(33), 6);
    assert_eq!(bits_per_block(4096), 12);
}

#[test]
fn encode_then_decode_gives_cells_back() {
    let names = ["minecraft:stone", "minecraft:dirt", AIR, "minecraft:grass_block", "minecraft:oak_log"];
    let cells: Vec<Cell> = (0..4096).map(|i| cell(names[(i * 7 + i / 13) % names.len()])).collect();
    let section = encode_section_from_cells(&cells, -3);
    assert_eq!(section.y, -3);
    assert_eq!(section.block_states.palette.len(), names.len());
    // five entries take four bits: sixteen indices per word, 256 words
    assert_eq!(section.block_states.data.as_ref().unwrap().len(), 256);
    let decoded = decode_section_cells(&section);
    assert_eq!(decoded.len(), 4096);
    for i in 0..4096 {
        assert!(same(&decoded[i], &cells[i]));
    }
}

#[test]
fn wide_palette_roundtrips() {
    // 40 names need six bits: ten indices per word, 410 words
    let cells: Vec<Cell> = (0..4096).map(|i| cell(&format!("minecraft:block_{}", i % 40))).collect();
    let section = encode_section_from_cells(&cells, 0);
    assert_eq!(section.block_states.palette.len(), 40);
    assert_eq!(section.block_states.data.as_ref().unwrap().len(), 410);
    let decoded = decode_section_cells(&section);
    for i in 0..4096 {
        assert_eq!(decoded[i].name, cells[i].name);
    }
}

#[test]
fn properties_tell_cells_apart() {
    let mut cells: Vec<Cell> = (0..4096).map(|_| cell_with("minecraft:oak_stairs", "north")).collect();
    cells[5] = cell_with("minecraft:oak_stairs", "south");
    let section = encode_section_from_cells(&cells, 1);
    assert_eq!(section.block_states.palette.len(), 2);
    let decoded = decode_section_cells(&section);
    assert!(same(&decoded[5], &cells[5]));
    assert!(same(&decoded[6], &cells[6]));
    assert!(!same(&decoded[5], &decoded[6]));
}

#[test]
fn uniform_section_has_no_data() {
    let cells: Vec<Cell> = (0..4096).map(|_| cell("minecraft:stone")).collect();
    let section = encode_section_from_cells(&cells, 2);
    assert_eq!(section.block_states.palette.len(), 1);
    assert!(section.block_states.data.is_none());
    let decoded = decode_section_cells(&section);
    assert!(decoded.iter().all(|c| c.name == "minecraft:stone"));
}

#[test]
fn empty_palette_decodes_to_air() {
    let section = Section {
        block_states: Blockstates { palette: Vec::new(), data: None, other: Vec::new() },
        y: 0,
        other: Vec::new(),
    };
    let cells = decode_section_cells(&section);
    assert_eq!(cells.len(), 4096);
    assert!(cells.iter().all(|c| c.name == AIR && c.properties.is_none()));
}

#[test]
fn single_air_entry_drops_properties() {
    let section = Section {
        block_states: Blockstates { palette: vec![cell_with(AIR, "up")], data: None, other: Vec::new() },
        y: 0,
        other: Vec::new(),
    };
    let cells = decode_section_cells(&section);
    assert!(cells.iter().all(|c| c.name == AIR && c.properties.is_none()));
}

#[test]
fn index_past_palette_reads_as_air() {
    // two entries, four bits each; the first word holds index 3 in slot 0
    let section = Section {
        block_states: Blockstates {
            palette: vec![cell("minecraft:stone"), cell("minecraft:dirt")],
            data: Some(vec![0x13]),
            other: Vec::new(),
        },
        y: 0,
        other: Vec::new(),
    };
    let cells = decode_section_cells(&section);
    assert_eq!(cells[0].name, AIR);
    assert_eq!(cells[1].name, "minecraft:dirt");
    assert_eq!(cells[2].name, "minecraft:stone");
    // cells past the one word read as air
    assert_eq!(cells[16].name, AIR);
}

#[test]
fn overlay_keeps_base_under_air() {
    let mut base: Vec<Cell> = vec![cell("minecraft:stone"), cell("minecraft:dirt"), cell(AIR)];
    let overlay: Vec<Cell> = vec![cell(AIR), cell("minecraft:sand"), cell("minecraft:glass")];
    overlay_cells(&mut base, &overlay);
    assert_eq!(base[0].name, "minecraft:stone");
    assert_eq!(base[1].name, "minecraft:sand");
    assert_eq!(base[2].name, "minecraft:glass");
}

#[test]
fn merge_orders_sections_and_takes_new_position() {
    let existing = Chunk {
        sections: vec![section_with(3, &[(0, "minecraft:stone")]), section_with(-2, &[(1, "minecraft:dirt")])],
        x_pos: 1,
        z_pos: 1,
        is_light_on: 0,
        other: vec![
            ("Status".to_string(), Value::String("full".to_string())),
            ("DataVersion".to_string(), Value::Int(3000)),
        ],
    };
    let new = Chunk {
        sections: vec![section_with(3, &[(5, "minecraft:glass")]), section_with(7, &[(2, "minecraft:sand")])],
        x_pos: 4,
        z_pos: -9,
        is_light_on: 1,
        other: vec![("DataVersion".to_string(), Value::Int(3700))],
    };
    let merged = merge_chunks(&existing, &new);
    let ys: Vec<i8> = merged.sections.iter().map(|s| s.y).collect();
    assert_eq!(ys, vec![-2, 3, 7]);
    assert_eq!((merged.x_pos, merged.z_pos, merged.is_light_on), (4, -9, 1));
    let both = decode_section_cells(&merged.sections[1]);
    assert_eq!(both[0].name, "minecraft:stone");
    assert_eq!(both[5].name, "minecraft:glass");
    assert_eq!(both[6].name, AIR);
    let mut tags: Vec<(String, Value)> = merged.other.clone();
    tags.sort_by(|a, b| a.0.cmp(&b.0));
    assert_eq!(tags, vec![
        ("DataVersion".to_string(), Value::Int(3700)),
        ("Status".to_string(), Value::String("full".to_string())),
    ]);
}

#[test]
fn merge_tags_new_wins() {
    let existing = vec![("a".to_string(), Value::Int(1)), ("b".to_string(), Value::Int(2))];
    let new = vec![("b".to_string(), Value::Int(20)), ("c".to_string(), Value::Int(30))];
    let merged = merge_tags(&existing, &new);
    assert_eq!(merged, vec![
        ("a".to_string(), Value::Int(1)),
        ("b".to_string(), Value::Int(20)),
        ("c".to_string(), Value::Int(30)),
    ]);
}
