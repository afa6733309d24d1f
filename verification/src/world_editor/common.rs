//! The chunk layout of a Java world as the merge logic sees it.

use vstd::prelude::*;
use fastnbt::Value;
use crate::nbt::debug_text;

verus! {

/// The `Properties` of a palette entry, together with the text by which equal
/// properties are recognised.
pub struct BlockProperties {
    pub value: Value,
    pub key: String,
}

pub struct PropertiesView {
    pub value: Value,
    pub key: Seq<char>,
}

impl View for BlockProperties {
    type V = PropertiesView;

    open spec fn view(&self) -> PropertiesView {
        PropertiesView { value: self.value, key: self.key@ }
    }
}

impl BlockProperties {
    /// Properties holding `value`, keyed by its `Debug` text.
    pub fn new(value: Value) -> (p: BlockProperties)
        ensures
            p.value == value,
    {
        let key = debug_text(&value);
        BlockProperties { value, key }
    }

    pub fn duplicate(&self) -> (copy: BlockProperties)
        ensures
            copy@ == self@,
    {
        BlockProperties { value: self.value.clone(), key: self.key.clone() }
    }
}

/// A palette entry, and the content of one block cell of a section.
pub struct PaletteItem {
    pub name: String,
    pub properties: Option<BlockProperties>,
}

/// One block cell of a section: a block name with optional properties.
pub type Cell = PaletteItem;

pub struct CellView {
    pub name: Seq<char>,
    pub properties: Option<PropertiesView>,
}

impl View for PaletteItem {
    type V = CellView;

    open spec fn view(&self) -> CellView {
        CellView {
            name: self.name@,
            properties: match self.properties {
                Some(p) => Some(p@),
                None => None,
            },
        }
    }
}

impl PaletteItem {
    pub fn duplicate(&self) -> (copy: PaletteItem)
        ensures
            copy@ == self@,
    {
        let properties = match &self.properties {
            Some(p) => Some(p.duplicate()),
            None => None,
        };
        PaletteItem { name: self.name.clone(), properties }
    }
}

/// Views of a sequence of cells.
pub open spec fn cells_view(cells: Seq<PaletteItem>) -> Seq<CellView> {
    cells.map_values(|c: PaletteItem| c@)
}

/// Views of the unnamed tags of a compound, in order.
pub open spec fn entries_view(entries: Seq<(String, Value)>) -> Seq<(Seq<char>, Value)> {
    entries.map_values(|e: (String, Value)| (e.0@, e.1))
}

pub fn duplicate_entries(entries: &Vec<(String, Value)>) -> (copy: Vec<(String, Value)>)
    ensures
        entries_view(copy@) == entries_view(entries@),
{
    let mut copy: Vec<(String, Value)> = Vec::new();
    let mut i: usize = 0;
    while i < entries.len()
        invariant
            i <= entries.len(),
            copy.len() == i,
            forall|j: int|
                0 <= j < i ==> (#[trigger] copy@[j]).0@ == entries@[j].0@ && copy@[j].1
                    == entries@[j].1,
        decreases entries.len() - i,
    {
        let entry = (entries[i].0.clone(), entries[i].1.clone());
        copy.push(entry);
        i += 1;
    }
    assert(entries_view(copy@) =~= entries_view(entries@));
    copy
}

pub fn duplicate_cells(cells: &Vec<PaletteItem>) -> (copy: Vec<PaletteItem>)
    ensures
        cells_view(copy@) == cells_view(cells@),
{
    let mut copy: Vec<PaletteItem> = Vec::new();
    let mut i: usize = 0;
    while i < cells.len()
        invariant
            i <= cells.len(),
            copy.len() == i,
            forall|j: int| 0 <= j < i ==> (#[trigger] copy@[j])@ == cells@[j]@,
        decreases cells.len() - i,
    {
        copy.push(cells[i].duplicate());
        i += 1;
    }
    assert(cells_view(copy@) =~= cells_view(cells@));
    copy
}

/// The block states of a section: its palette and the packed palette indices
/// of its 4096 cells.
pub struct Blockstates {
    pub palette: Vec<PaletteItem>,
    pub data: Option<Vec<i64>>,
    pub other: Vec<(String, Value)>,
}

pub struct BlockstatesView {
    pub palette: Seq<CellView>,
    pub data: Option<Seq<i64>>,
    pub other: Seq<(Seq<char>, Value)>,
}

impl View for Blockstates {
    type V = BlockstatesView;

    open spec fn view(&self) -> BlockstatesView {
        BlockstatesView {
            palette: cells_view(self.palette@),
            data: match self.data {
                Some(d) => Some(d@),
                None => None,
            },
            other: entries_view(self.other@),
        }
    }
}

/// A 16 x 16 x 16 section of a chunk at section height `y`.
pub struct Section {
    pub block_states: Blockstates,
    pub y: i8,
    pub other: Vec<(String, Value)>,
}

pub struct SectionView {
    pub block_states: BlockstatesView,
    pub y: i8,
    pub other: Seq<(Seq<char>, Value)>,
}

impl View for Section {
    type V = SectionView;

    open spec fn view(&self) -> SectionView {
        SectionView { block_states: self.block_states@, y: self.y, other: entries_view(self.other@) }
    }
}

impl Section {
    pub fn duplicate(&self) -> (copy: Section)
        ensures
            copy@ == self@,
    {
        let data = match &self.block_states.data {
            Some(d) => Some(d.clone()),
            None => None,
        };
        let block_states = Blockstates {
            palette: duplicate_cells(&self.block_states.palette),
            data,
            other: duplicate_entries(&self.block_states.other),
        };
        Section { block_states, y: self.y, other: duplicate_entries(&self.other) }
    }
}

/// A chunk: its sections, position and the rest of its tags.
pub struct Chunk {
    pub sections: Vec<Section>,
    pub x_pos: i32,
    pub z_pos: i32,
    pub is_light_on: u8,
    pub other: Vec<(String, Value)>,
}

pub struct ChunkView {
    pub sections: Seq<SectionView>,
    pub x_pos: i32,
    pub z_pos: i32,
    pub is_light_on: u8,
    pub other: Seq<(Seq<char>, Value)>,
}

impl View for Chunk {
    type V = ChunkView;

    open spec fn view(&self) -> ChunkView {
        ChunkView {
            sections: self.sections@.map_values(|s: Section| s@),
            x_pos: self.x_pos,
            z_pos: self.z_pos,
            is_light_on: self.is_light_on,
            other: entries_view(self.other@),
        }
    }
}

} // verus!
