//! Decode / merge / re-encode Minecraft chunk sections for append-mode saves.

use vstd::prelude::*;
use vstd::slice::SliceAdditionalExecFns;
use vstd::arithmetic::power2::{pow2, lemma_pow2_pos, lemma_pow2_strictly_increases, lemma2_to64};
use vstd::bits::{lemma_u64_shl_is_mul, lemma_u64_pow2_no_overflow};
use crate::world_editor::common::{
    Blockstates, BlockstatesView, Cell, CellView, Chunk, PaletteItem, Section, SectionView,
    cells_view, entries_view,
};
use crate::world_editor::packing::{
    fit_in_bits, lemma_or_shifted_is_add, lemma_packed_word_bound, lemma_packed_word_extract,
    lemma_shift_mask_is_div_mod, lemma_word_roundtrip, min_nat, pack_indices, packed_word,
    per_word,
};
use vstd::arithmetic::div_mod::lemma_div_multiples_vanish_fancy;
use fastnbt::Value;

verus! {

/// Name of the empty block.
pub const AIR: &'static str = "minecraft:air";

/// An air cell without properties.
pub open spec fn air_cell() -> CellView {
    CellView { name: AIR@, properties: None }
}

/// Number of cells in a section.
pub const SECTION_CELLS: usize = 4096;

/// The fewest bits, and at least four, that can tell `len` palette entries
/// apart, searching upward from `bits`.
pub open spec fn bits_from(len: int, bits: nat) -> nat
    decreases 64 - bits,
{
    if bits >= 64 || pow2(bits) >= len {
        bits
    } else {
        bits_from(len, bits + 1)
    }
}

/// Bits per packed palette index for a palette of `len` entries.
pub open spec fn bits_for(len: int) -> nat {
    bits_from(len, 4)
}

/// The smallest width of at least four bits whose values cover `palette_len`
/// entries.
pub fn bits_per_block(palette_len: usize) -> (bits: usize)
    requires
        palette_len <= 0x8000_0000_0000_0000u64,
    ensures
        bits == bits_for(palette_len as int),
        4 <= bits < 64,
        pow2(bits as nat) >= palette_len,
        bits == 4 || pow2((bits - 1) as nat) < palette_len,
{
    let mut bits: usize = 4;
    proof {
        lemma2_to64();
        lemma_u64_pow2_no_overflow(4);
        lemma_u64_shl_is_mul(1, 4);
    }
    while (1u64 << (bits as u64)) < palette_len as u64
        invariant
            4 <= bits < 64,
            (1u64 << (bits as u64)) == pow2(bits as nat),
            palette_len <= 0x8000_0000_0000_0000u64,
            bits_from(palette_len as int, bits as nat) == bits_for(palette_len as int),
            bits == 4 || pow2((bits - 1) as nat) < palette_len,
        decreases 64 - bits,
    {
        proof {
            if bits == 63 {
                lemma_u64_pow2_no_overflow(63);
                assert(pow2(63) == 0x8000_0000_0000_0000u64) by {
                    vstd::arithmetic::power2::lemma2_to64_rest();
                }
            }
        }
        bits += 1;
        proof {
            lemma_u64_pow2_no_overflow(bits as nat);
            lemma_u64_shl_is_mul(1, bits as u64);
        }
    }
    bits
}

/// A fresh air cell without properties.
pub fn air() -> (cell: Cell)
    ensures
        cell@ == air_cell(),
{
    PaletteItem { name: AIR.to_owned(), properties: None }
}

/// Whether `name` is the name of air.
pub fn is_air_name(name: &String) -> (r: bool)
    ensures
        r == (name@ == AIR@),
{
    let air_name = AIR.to_owned();
    *name == air_name
}

/// The content of cell `i` of a section with these block states: the palette
/// entry that its packed index selects; air when the palette is empty, when
/// the index lies past the data or the palette; with a single palette entry or
/// no data, the first entry (air, dropping properties, when it is air).
pub open spec fn decoded_cell(bs: BlockstatesView, i: int) -> CellView {
    let palette = bs.palette;
    if palette.len() == 0 {
        air_cell()
    } else if palette.len() == 1 || bs.data is None {
        if palette[0].name != AIR@ {
            palette[0]
        } else {
            air_cell()
        }
    } else {
        let data = bs.data->0;
        let bits = bits_for(palette.len() as int);
        let per = per_word(bits) as int;
        let w = i / per;
        let off = ((i % per) * bits) as nat;
        if w < data.len() {
            let pi = ((data[w] as u64) as int / pow2(off) as int) % pow2(bits) as int;
            if pi < palette.len() {
                palette[pi]
            } else {
                air_cell()
            }
        } else {
            air_cell()
        }
    }
}

/// The 4096 cells of a section with these block states.
pub open spec fn decoded_cells(bs: BlockstatesView) -> Seq<CellView> {
    Seq::new(SECTION_CELLS as nat, |i: int| decoded_cell(bs, i))
}

/// Facts on the word layout for `bits` bits per index.
proof fn lemma_word_layout(bits: nat)
    requires
        4 <= bits < 64,
    ensures
        1 <= per_word(bits) <= 16,
        per_word(bits) * bits <= 64 < (per_word(bits) + 1) * bits,
{
    let per = per_word(bits) as int;
    assert(per == 64int / (bits as int));
    assert(per * bits <= 64 < (per + 1) * bits) by (nonlinear_arith)
        requires per == 64int / (bits as int), bits >= 1;
    assert(1 <= per <= 16) by (nonlinear_arith)
        requires per == 64int / (bits as int), 4 <= bits < 64;
}

pub fn decode_section_cells(section: &Section) -> (cells: Vec<Cell>)
    requires
        section.block_states.palette.len() <= 0x8000_0000_0000_0000u64,
    ensures
        cells_view(cells@) == decoded_cells(section@.block_states),
{
    let palette = &section.block_states.palette;
    let ghost bs = section@.block_states;
    let mut cells: Vec<Cell> = Vec::new();
    if palette.len() == 0 {
        let mut i: usize = 0;
        while i < SECTION_CELLS
            invariant
                i <= SECTION_CELLS,
                cells.len() == i,
                bs == section@.block_states,
                bs.palette.len() == 0,
                forall|j: int| 0 <= j < i ==> (#[trigger] cells@[j])@ == decoded_cell(bs, j),
            decreases SECTION_CELLS - i,
        {
            cells.push(air());
            i += 1;
        }
        assert(cells_view(cells@) =~= decoded_cells(bs));
        return cells;
    }
    if palette.len() == 1 || section.block_states.data.is_none() {
        let first_is_air = is_air_name(&palette[0].name);
        let mut i: usize = 0;
        while i < SECTION_CELLS
            invariant
                i <= SECTION_CELLS,
                cells.len() == i,
                bs == section@.block_states,
                bs.palette == cells_view(palette@),
                palette.len() >= 1,
                bs.palette.len() == 1 || bs.data is None,
                first_is_air == (palette@[0].name@ == AIR@),
                forall|j: int| 0 <= j < i ==> (#[trigger] cells@[j])@ == decoded_cell(bs, j),
            decreases SECTION_CELLS - i,
        {
            if first_is_air {
                cells.push(air());
            } else {
                cells.push(palette[0].duplicate());
            }
            i += 1;
        }
        assert(cells_view(cells@) =~= decoded_cells(bs));
        return cells;
    }
    let data = match &section.block_states.data {
        Some(data) => data,
        None => return cells,
    };
    let bits = bits_per_block(palette.len());
    proof {
        lemma_word_layout(bits as nat);
    }
    let vals_per_long = 64 / bits;
    let mut i: usize = 0;
    while i < SECTION_CELLS
        invariant
            i <= SECTION_CELLS,
            cells.len() == i,
            bs == section@.block_states,
            bs.palette == cells_view(palette@),
            palette.len() >= 2,
            bs.data == Some(data@),
            bits == bits_for(palette.len() as int),
            4 <= bits < 64,
            vals_per_long == per_word(bits as nat),
            1 <= per_word(bits as nat) <= 16,
            per_word(bits as nat) * bits <= 64,
            forall|j: int| 0 <= j < i ==> (#[trigger] cells@[j])@ == decoded_cell(bs, j),
        decreases SECTION_CELLS - i,
    {
        let long_idx = i / vals_per_long;
        let slot = i % vals_per_long;
        proof {
            assert(slot * bits <= (vals_per_long - 1) * bits) by (nonlinear_arith)
                requires slot < vals_per_long, bits >= 0;
            assert((vals_per_long - 1) * bits == vals_per_long * bits - bits) by (nonlinear_arith);
        }
        let bit_offset = slot * bits;
        if long_idx < data.len() {
            let word = data[long_idx] as u64;
            proof {
                lemma_shift_mask_is_div_mod(word, bit_offset as u64, bits as u64);
                lemma_pow2_pos(bits as nat);
            }
            let mask = (1u64 << (bits as u64)) - 1;
            let pi = (word >> (bit_offset as u64)) & mask;
            proof {
                assert(long_idx as int == i as int / per_word(bits as nat) as int);
                assert(bit_offset as int == ((i as int % per_word(bits as nat) as int) * bits) as nat);
                assert(pi as int == ((data@[long_idx as int] as u64) as int / pow2(bit_offset as nat) as int) % pow2(bits as nat) as int);
            }
            if pi < palette.len() as u64 {
                cells.push(palette[pi as usize].duplicate());
                assert(cells@[i as int]@ == decoded_cell(bs, i as int));
            } else {
                cells.push(air());
                assert(cells@[i as int]@ == decoded_cell(bs, i as int));
            }
        } else {
            cells.push(air());
            assert(cells@[i as int]@ == decoded_cell(bs, i as int));
        }
        i += 1;
    }
    assert(cells_view(cells@) =~= decoded_cells(bs));
    cells
}

/// What tells two cells apart: the block name and the text of the properties.
pub open spec fn cell_key(c: CellView) -> (Seq<char>, Option<Seq<char>>) {
    (
        c.name,
        match c.properties {
            Some(p) => Some(p.key),
            None => None,
        },
    )
}

pub open spec fn has_key(palette: Seq<CellView>, key: (Seq<char>, Option<Seq<char>>)) -> bool {
    exists|j: int| 0 <= j < palette.len() && cell_key(palette[j]) == key
}

/// No two entries of the palette share a key.
pub open spec fn keys_distinct(palette: Seq<CellView>) -> bool {
    forall|a: int, b: int|
        0 <= a < b < palette.len() ==> cell_key(#[trigger] palette[a]) != cell_key(
            #[trigger] palette[b],
        )
}

/// The palette of a run of cells: each distinct cell in order of first
/// occurrence.
pub open spec fn palette_of(cells: Seq<CellView>) -> Seq<CellView>
    decreases cells.len(),
{
    if cells.len() == 0 {
        Seq::empty()
    } else {
        let prev = palette_of(cells.drop_last());
        if has_key(prev, cell_key(cells.last())) {
            prev
        } else {
            prev.push(cells.last())
        }
    }
}

/// Position in the palette of the entry with this key.
pub open spec fn key_index(palette: Seq<CellView>, key: (Seq<char>, Option<Seq<char>>)) -> int {
    choose|j: int| 0 <= j < palette.len() && cell_key(palette[j]) == key
}

/// Palette index of every cell.
pub open spec fn palette_indices(cells: Seq<CellView>) -> Seq<int> {
    let palette = palette_of(cells);
    Seq::new(cells.len(), |i: int| key_index(palette, cell_key(cells[i])))
}

/// The section that holds `cells` at height `y`: their palette and, when it
/// has more than one entry, their palette indices packed `bits_for` bits each;
/// no other tags.
pub open spec fn encoded_section(cells: Seq<CellView>, y: i8) -> SectionView {
    let palette = palette_of(cells);
    SectionView {
        block_states: BlockstatesView {
            palette,
            data: if palette.len() <= 1 {
                None
            } else {
                Some(
                    pack_indices(palette_indices(cells), bits_for(palette.len() as int)).map_values(
                        |w: u64| w as i64,
                    ),
                )
            },
            other: Seq::empty(),
        },
        y,
        other: Seq::empty(),
    }
}

/// With distinct keys, the entry found by key is the one that has it.
pub proof fn lemma_key_index_unique(palette: Seq<CellView>, j: int)
    requires
        keys_distinct(palette),
        0 <= j < palette.len(),
    ensures
        key_index(palette, cell_key(palette[j])) == j,
{
    let k = key_index(palette, cell_key(palette[j]));
    assert(0 <= k < palette.len() && cell_key(palette[k]) == cell_key(palette[j]));
    if k < j {
        assert(cell_key(palette[k]) != cell_key(palette[j]));
    } else if k > j {
        assert(cell_key(palette[j]) != cell_key(palette[k]));
    }
}

/// Whether the two cells have the same key.
pub fn same_cell_key(a: &Cell, b: &Cell) -> (r: bool)
    ensures
        r == (cell_key(a@) == cell_key(b@)),
{
    if a.name != b.name {
        return false;
    }
    match (&a.properties, &b.properties) {
        (Some(p), Some(q)) => p.key == q.key,
        (None, None) => true,
        _ => false,
    }
}

/// Position of the palette entry with the same key as `cell`, if any.
pub fn find_in_palette(palette: &Vec<PaletteItem>, cell: &Cell) -> (r: Option<usize>)
    ensures
        r matches Some(j) ==> j < palette.len() && cell_key(palette@[j as int]@) == cell_key(
            cell@,
        ),
        r is None ==> !has_key(cells_view(palette@), cell_key(cell@)),
{
    let mut j: usize = 0;
    while j < palette.len()
        invariant
            j <= palette.len(),
            forall|k: int| 0 <= k < j ==> cell_key((#[trigger] palette@[k])@) != cell_key(cell@),
        decreases palette.len() - j,
    {
        if same_cell_key(&palette[j], cell) {
            return Some(j);
        }
        j += 1;
    }
    proof {
        if has_key(cells_view(palette@), cell_key(cell@)) {
            let k = choose|k: int|
                0 <= k < cells_view(palette@).len() && cell_key(cells_view(palette@)[k])
                    == cell_key(cell@);
            assert(cell_key(palette@[k]@) != cell_key(cell@));
        }
    }
    None
}

pub fn encode_section_from_cells(cells: &[Cell], section_y: i8) -> (section: Section)
    requires
        cells.len() == SECTION_CELLS,
    ensures
        section@ == encoded_section(cells_view(cells@), section_y),
{
    let ghost cv = cells_view(cells@);
    let mut unique: Vec<PaletteItem> = Vec::new();
    let mut indices: Vec<usize> = Vec::new();
    let mut i: usize = 0;
    while i < cells.len()
        invariant
            i <= cells.len(),
            cells.len() == SECTION_CELLS,
            cv == cells_view(cells@),
            cells_view(unique@) == palette_of(cv.take(i as int)),
            keys_distinct(cells_view(unique@)),
            unique.len() <= i,
            indices.len() == i,
            forall|j: int|
                0 <= j < i ==> (#[trigger] indices@[j]) < unique.len() && cell_key(
                    cells_view(unique@)[indices@[j] as int],
                ) == cell_key(cv[j]),
        decreases cells.len() - i,
    {
        let ghost before = cells_view(unique@);
        assert(cv.take(i + 1).drop_last() =~= cv.take(i as int));
        assert(cv.take(i + 1).last() == cells@[i as int]@);
        match find_in_palette(&unique, &cells[i]) {
            Some(j) => {
                indices.push(j);
                assert(before[j as int] == unique@[j as int]@);
                assert(has_key(before, cell_key(cells@[i as int]@)));
            },
            None => {
                indices.push(unique.len());
                unique.push(cells[i].duplicate());
                assert(cells_view(unique@) =~= before.push(cells@[i as int]@));
            },
        }
        i += 1;
    }
    let ghost palette = cells_view(unique@);
    assert(cv.take(SECTION_CELLS as int) =~= cv);
    let ghost idx = palette_indices(cv);
    assert forall|j: int| 0 <= j < SECTION_CELLS implies idx[j] == indices@[j] as int by {
        lemma_key_index_unique(palette, indices@[j] as int);
    }
    if unique.len() <= 1 {
        let state_tags: Vec<(String, Value)> = Vec::new();
        let section_tags: Vec<(String, Value)> = Vec::new();
        assert(entries_view(state_tags@) =~= Seq::empty());
        assert(entries_view(section_tags@) =~= Seq::empty());
        let section = Section {
            block_states: Blockstates { palette: unique, data: None, other: state_tags },
            y: section_y,
            other: section_tags,
        };
        return section;
    }
    let bits = bits_per_block(unique.len());
    proof {
        lemma_word_layout(bits as nat);
        assert(fit_in_bits(idx, 0, SECTION_CELLS as nat, bits as nat)) by {
            assert forall|j: int| 0 <= j < SECTION_CELLS implies 0 <= #[trigger] idx[0 + j] < pow2(bits as nat) by {
                assert(idx[0 + j] == indices@[j] as int);
            }
        }
    }
    let ghost per = per_word(bits as nat) as int;
    let mut data: Vec<i64> = Vec::new();
    let mut cur: u64 = 0;
    let mut cur_idx: usize = 0;
    let ghost mut count: int = 0;
    let mut i: usize = 0;
    assert(data.len() * per + count == i) by (nonlinear_arith)
        requires data.len() == 0, count == 0, i == 0;
    while i < SECTION_CELLS
        invariant
            i <= SECTION_CELLS,
            indices.len() == SECTION_CELLS,
            forall|j: int| 0 <= j < SECTION_CELLS ==> idx[j] == indices@[j] as int,
            fit_in_bits(idx, 0, SECTION_CELLS as nat, bits as nat),
            4 <= bits < 64,
            per == per_word(bits as nat),
            1 <= per <= 16,
            per * bits <= 64 < (per + 1) * bits,
            data.len() * per + count == i,
            0 <= count <= per,
            i > 0 ==> count >= 1,
            cur == packed_word(idx, data.len() * per, count as nat, bits as nat),
            cur_idx == count * bits,
            cur_idx <= 64,
            forall|k: int|
                0 <= k < data.len() ==> #[trigger] data@[k] == (packed_word(
                    idx,
                    k * per,
                    per as nat,
                    bits as nat,
                ) as u64) as i64,
        decreases SECTION_CELLS - i,
    {
        let p = indices[i] as u64;
        if cur_idx + bits > 64 {
            let ghost old_len = data.len() as int;
            proof {
                assert((count + 1) * bits == count * bits + bits) by (nonlinear_arith);
                if count < per {
                    assert((count + 1) * bits <= per * bits) by (nonlinear_arith)
                        requires count + 1 <= per, bits >= 0;
                }
                assert(count == per);
            }
            data.push(cur as i64);
            cur = 0;
            cur_idx = 0;
            proof {
                count = 0;
                assert(data.len() * per == old_len * per + per) by (nonlinear_arith)
                    requires data.len() == old_len + 1;
                assert(data@[old_len] == (packed_word(idx, old_len * per, per as nat, bits as nat) as u64) as i64);
            }
        } else {
            proof {
                if count == per {
                    assert((per + 1) * bits == per * bits + bits) by (nonlinear_arith);
                }
            }
        }
        proof {
            let start = data.len() * per;
            assert(count < per);
            assert(fit_in_bits(idx, start, count as nat, bits as nat)) by {
                assert forall|j: int| 0 <= j < count implies 0 <= #[trigger] idx[start + j] < pow2(bits as nat) by {
                    assert(idx[0 + (start + j)] == idx[start + j]);
                }
            }
            lemma_packed_word_bound(idx, start, count as nat, bits as nat);
            assert(count * bits + bits <= 64) by (nonlinear_arith)
                requires count + 1 <= per, per * bits <= 64;
            assert(idx[0 + i] == p);
            let low = (count * bits) as nat;
            let high = (count * bits + bits) as nat;
            assert(low + (bits as nat) == high);
            vstd::arithmetic::power2::lemma_pow2_adds(low, bits as nat);
            lemma_pow2_pos(low);
            let pl = pow2(low) as int;
            let pb = pow2(bits as nat) as int;
            assert(p * pl < pl * pb) by (nonlinear_arith)
                requires p < pb, pl > 0;
            if high < 64 {
                lemma_pow2_strictly_increases(high, 64);
            }
            lemma2_to64();
            assert(p * pl < 0x1_0000_0000_0000_0000);
            assert(cur_idx as u64 == low);
            lemma_or_shifted_is_add(cur, p, cur_idx as u64);
            assert(start + (count + 1) - 1 == i);
        }
        cur = cur | (p << (cur_idx as u64));
        cur_idx += bits;
        proof {
            count = count + 1;
            assert(cur_idx == count * bits) by (nonlinear_arith)
                requires cur_idx == (count - 1) * bits + bits;
        }
        i += 1;
    }
    assert(cur_idx > 0) by (nonlinear_arith)
        requires cur_idx == count * bits, count >= 1, bits >= 4;
    if cur_idx > 0 {
        data.push(cur as i64);
    }
    proof {
        assert(count >= 1);
        let w = data.len() - 1;
        assert(w * per + count == SECTION_CELLS);
        lemma_div_multiples_vanish_fancy(w + 1, count - 1, per);
        assert((SECTION_CELLS + per - 1) / per == w + 1) by {
            assert(SECTION_CELLS + per - 1 == per * (w + 1) + (count - 1)) by (nonlinear_arith)
                requires w * per + count == SECTION_CELLS;
        }
        let packed = pack_indices(idx, bits as nat).map_values(|v: u64| v as i64);
        assert forall|k: int| 0 <= k < data.len() implies #[trigger] data@[k] == packed[k] by {
            if k < w {
                assert(SECTION_CELLS - k * per >= per) by (nonlinear_arith)
                    requires k < w, w * per + count == SECTION_CELLS, count >= 1, per >= 1;
                assert(min_nat(per, SECTION_CELLS - k * per) == per);
            } else {
                assert(k == w);
                assert(min_nat(per, SECTION_CELLS - k * per) == count);
            }
        }
        assert(data@ =~= packed);
    }
    let state_tags: Vec<(String, Value)> = Vec::new();
    let section_tags: Vec<(String, Value)> = Vec::new();
    assert(entries_view(state_tags@) =~= Seq::empty());
    assert(entries_view(section_tags@) =~= Seq::empty());
    Section {
        block_states: Blockstates { palette: unique, data: Some(data), other: state_tags },
        y: section_y,
        other: section_tags,
    }
}

/// `j` is the first position of `cells` holding a cell with `key`.
pub open spec fn first_with_key(cells: Seq<CellView>, key: (Seq<char>, Option<Seq<char>>), j: int) -> bool {
    &&& 0 <= j < cells.len()
    &&& cell_key(cells[j]) == key
    &&& forall|k: int| 0 <= k < j ==> cell_key(#[trigger] cells[k]) != key
}

/// The palette of a run of cells has distinct keys, holds the key of every
/// cell, and each entry is the first cell with its key.
pub proof fn lemma_palette_of(cells: Seq<CellView>)
    ensures
        keys_distinct(palette_of(cells)),
        palette_of(cells).len() <= cells.len(),
        forall|i: int| 0 <= i < cells.len() ==> has_key(palette_of(cells), cell_key(#[trigger] cells[i])),
        forall|m: int|
            0 <= m < palette_of(cells).len() ==> exists|j: int|
                first_with_key(cells, cell_key(#[trigger] palette_of(cells)[m]), j) && cells[j]
                    == palette_of(cells)[m],
    decreases cells.len(),
{
    if cells.len() > 0 {
        let prefix = cells.drop_last();
        lemma_palette_of(prefix);
        let prev = palette_of(prefix);
        let last = cells.last();
        let pal = palette_of(cells);
        assert forall|i: int| 0 <= i < cells.len() implies has_key(pal, cell_key(#[trigger] cells[i])) by {
            if i < cells.len() - 1 {
                assert(cells[i] == prefix[i]);
                assert(has_key(prev, cell_key(prefix[i])));
                let j = choose|j: int| 0 <= j < prev.len() && cell_key(prev[j]) == cell_key(prefix[i]);
                assert(pal[j] == prev[j]);
            } else {
                if !has_key(prev, cell_key(last)) {
                    assert(pal[prev.len() as int] == last);
                }
            }
        }
        assert forall|m: int| 0 <= m < pal.len() implies exists|j: int|
            first_with_key(cells, cell_key(#[trigger] pal[m]), j) && cells[j] == pal[m] by {
            if m < prev.len() {
                assert(pal[m] == prev[m]);
                let j = choose|j: int| first_with_key(prefix, cell_key(prev[m]), j) && prefix[j] == prev[m];
                assert(first_with_key(cells, cell_key(pal[m]), j) && cells[j] == pal[m]) by {
                    assert forall|k: int| 0 <= k < j implies cell_key(#[trigger] cells[k]) != cell_key(pal[m]) by {
                        assert(cells[k] == prefix[k]);
                    }
                }
            } else {
                let j = cells.len() - 1;
                assert(!has_key(prev, cell_key(last)));
                assert(pal[m] == last);
                assert forall|k: int| 0 <= k < j implies cell_key(#[trigger] cells[k]) != cell_key(last) by {
                    assert(cells[k] == prefix[k]);
                    assert(has_key(prev, cell_key(prefix[k])));
                }
                assert(first_with_key(cells, cell_key(pal[m]), j));
            }
        }
        if !has_key(prev, cell_key(last)) {
            assert forall|a: int, b: int| 0 <= a < b < pal.len() implies cell_key(#[trigger] pal[a]) != cell_key(#[trigger] pal[b]) by {
                if b == prev.len() {
                    assert(pal[a] == prev[a]);
                } else {
                    assert(pal[a] == prev[a] && pal[b] == prev[b]);
                }
            }
        }
    }
}

/// The cells all share one key, and it is air carrying properties: the one
/// case in which a single-entry palette does not decode back to its entry.
pub open spec fn uniform_air_with_properties(cells: Seq<CellView>) -> bool {
    &&& cells.len() > 0
    &&& cells[0].name == AIR@
    &&& cells[0].properties is Some
    &&& forall|i: int| 0 <= i < cells.len() ==> cell_key(#[trigger] cells[i]) == cell_key(cells[0])
}

/// Decoding an encoded section gives back every cell's block name; and,
/// unless all cells are one air cell with properties, every cell's key, the
/// cell decoded being the first cell with that key.
pub proof fn law_decode_encoded_section(cells: Seq<CellView>, y: i8)
    requires
        cells.len() == SECTION_CELLS,
    ensures
        ({
            let decoded = decoded_cells(encoded_section(cells, y).block_states);
            &&& forall|i: int| 0 <= i < SECTION_CELLS ==> (#[trigger] decoded[i]).name == cells[i].name
            &&& !uniform_air_with_properties(cells) ==> forall|i: int|
                0 <= i < SECTION_CELLS ==> cell_key(#[trigger] decoded[i]) == cell_key(cells[i])
                    && exists|j: int|
                    first_with_key(cells, cell_key(cells[i]), j) && decoded[i] == cells[j]
        }),
{
    lemma_palette_of(cells);
    let pal = palette_of(cells);
    let bs = encoded_section(cells, y).block_states;
    let decoded = decoded_cells(bs);
    let idx = palette_indices(cells);
    assert forall|i: int| 0 <= i < SECTION_CELLS implies 0 <= #[trigger] idx[i] < pal.len() && cell_key(pal[idx[i]]) == cell_key(cells[i]) by {
        assert(has_key(pal, cell_key(cells[i])));
    }
    // each palette entry is the first cell with its key
    assert forall|i: int| 0 <= i < SECTION_CELLS implies exists|j: int|
        first_with_key(cells, cell_key(cells[i]), j) && #[trigger] pal[idx[i]] == cells[j] by {
        let m = idx[i];
        let j = choose|j: int| first_with_key(cells, cell_key(pal[m]), j) && cells[j] == pal[m];
        assert(first_with_key(cells, cell_key(cells[i]), j));
    }
    if pal.len() == 1 {
        assert forall|i: int| 0 <= i < SECTION_CELLS implies (#[trigger] decoded[i]).name == cells[i].name && (!uniform_air_with_properties(cells) ==> decoded[i] == pal[idx[i]]) by {
            assert(idx[i] == 0);
            if !uniform_air_with_properties(cells) && pal[0].name == AIR@ {
                assert(pal[0].properties is None) by {
                    if pal[0].properties is Some {
                        assert forall|k: int| 0 <= k < cells.len() implies cell_key(#[trigger] cells[k]) == cell_key(cells[0]) by {
                            assert(idx[k] == 0);
                            assert(idx[0] == 0);
                        }
                        assert(cells[0].name == pal[0].name);
                    }
                }
            }
        }
    } else {
        let bits = bits_for(pal.len() as int);
        let per = per_word(bits) as int;
        lemma_palette_bits(pal.len() as int);
        lemma_word_layout(bits);
        assert(fit_in_bits(idx, 0, SECTION_CELLS as nat, bits)) by {
            assert forall|j: int| 0 <= j < SECTION_CELLS implies 0 <= #[trigger] idx[0 + j] < pow2(bits) by {
                assert(idx[0 + j] == idx[j]);
            }
        }
        let words = pack_indices(idx, bits);
        let data = words.map_values(|w: u64| w as i64);
        assert(bs.data == Some(data));
        assert forall|i: int| 0 <= i < SECTION_CELLS implies #[trigger] decoded[i] == pal[idx[i]] by {
            let w = i / per;
            let k = i % per;
            assert(i == w * per + k) by {
                vstd::arithmetic::div_mod::lemma_fundamental_div_mod(i, per);
                assert(i == per * w + k);
                assert(per * w == w * per) by (nonlinear_arith);
            }
            assert(0 <= k < per) by {
                vstd::arithmetic::div_mod::lemma_mod_bound(i, per);
            }
            assert(w >= 0) by {
                vstd::arithmetic::div_mod::lemma_div_pos_is_pos(i, per);
            }
            assert(w < words.len()) by {
                assert(w * per <= i);
                assert(words.len() == (SECTION_CELLS + per - 1) / per);
                assert((SECTION_CELLS + per - 1) / per >= w + 1) by {
                    assert(per * (w + 1) <= SECTION_CELLS + per - 1) by (nonlinear_arith)
                        requires w * per <= i, i < SECTION_CELLS;
                    vstd::arithmetic::div_mod::lemma_div_is_ordered(per * (w + 1), SECTION_CELLS + per - 1, per);
                    vstd::arithmetic::div_mod::lemma_div_multiples_vanish(w + 1, per);
                }
            }
            let count = min_nat(per, SECTION_CELLS - w * per);
            assert(k < count);
            assert(fit_in_bits(idx, w * per, count, bits)) by {
                assert forall|j: int| 0 <= j < count implies 0 <= #[trigger] idx[w * per + j] < pow2(bits) by {
                    assert(idx[0 + (w * per + j)] == idx[w * per + j]);
                }
            }
            lemma_packed_word_bound(idx, w * per, count, bits);
            assert(count * bits <= 64) by (nonlinear_arith)
                requires count <= per, per * bits <= 64;
            if count * bits < 64 {
                lemma_pow2_strictly_increases(count * bits, 64);
            }
            lemma2_to64();
            let word = packed_word(idx, w * per, count, bits);
            assert(words[w] == word as u64);
            assert(data[w] == words[w] as i64);
            assert(0 <= word < 0x1_0000_0000_0000_0000);
            assert((word as u64) as int == word);
            lemma_word_roundtrip(word as u64);
            assert(data[w] as u64 == word);
            lemma_packed_word_extract(idx, w * per, count, bits, k);
            assert(idx[w * per + k] == idx[i]);
        }
    }
}

/// A palette of at least two entries takes at most 63 bits per index.
proof fn lemma_palette_bits(len: int)
    requires
        2 <= len <= 0x8000_0000_0000_0000,
    ensures
        4 <= bits_for(len) < 64,
        pow2(bits_for(len)) >= len,
    decreases 0int,
{
    lemma_bits_from(len, 4);
}

proof fn lemma_bits_from(len: int, bits: nat)
    requires
        len <= 0x8000_0000_0000_0000,
        4 <= bits < 64,
        bits == 4 || pow2((bits - 1) as nat) < len,
    ensures
        bits <= bits_from(len, bits) < 64,
        pow2(bits_from(len, bits)) >= len,
    decreases 64 - bits,
{
    lemma2_to64();
    vstd::arithmetic::power2::lemma2_to64_rest();
    if pow2(bits) < len {
        if bits == 63 {
            assert(pow2(63) == 0x8000_0000_0000_0000);
        }
        lemma_bits_from(len, bits + 1);
    }
}

/// `overlay` laid over `base`: each cell of `overlay` that is not air replaces
/// the cell of `base` at the same position.
pub open spec fn overlaid(base: Seq<CellView>, overlay: Seq<CellView>) -> Seq<CellView> {
    Seq::new(
        base.len(),
        |i: int|
            if i < overlay.len() && overlay[i].name != AIR@ {
                overlay[i]
            } else {
                base[i]
            },
    )
}

pub fn overlay_cells(base: &mut [Cell], overlay: &[Cell])
    requires
        old(base).len() >= overlay.len(),
    ensures
        cells_view(final(base)@) == overlaid(cells_view(old(base)@), cells_view(overlay@)),
{
    let ghost start = cells_view(base@);
    let mut i: usize = 0;
    while i < overlay.len()
        invariant
            i <= overlay.len() <= base.len(),
            base.len() == start.len(),
            forall|j: int|
                0 <= j < base.len() ==> (#[trigger] base@[j])@ == if j < i && overlay@[j]@.name
                    != AIR@ {
                    overlay@[j]@
                } else {
                    start[j]
                },
        decreases overlay.len() - i,
    {
        if !is_air_name(&overlay[i].name) {
            let cell = overlay[i].duplicate();
            base[i] = cell;
        }
        i += 1;
    }
    assert(cells_view(base@) =~= overlaid(start, cells_view(overlay@)));
}

/// Views of a sequence of sections.
pub open spec fn sections_view(sections: Seq<Section>) -> Seq<SectionView> {
    sections.map_values(|s: Section| s@)
}

/// `j` is the first of the sections at height `y`.
pub open spec fn first_at_y(sections: Seq<SectionView>, y: i8, j: int) -> bool {
    &&& 0 <= j < sections.len()
    &&& sections[j].y == y
    &&& forall|k: int| 0 <= k < j ==> (#[trigger] sections[k]).y != y
}

/// The first section at height `y`, if any.
pub open spec fn section_at(sections: Seq<SectionView>, y: i8) -> Option<SectionView> {
    if exists|j: int| 0 <= j < sections.len() && sections[j].y == y {
        Some(sections[choose|j: int| first_at_y(sections, y, j)])
    } else {
        None
    }
}

/// A first section exists whenever some section is at height `y`, and it is
/// the one found from the front.
pub proof fn lemma_section_at(sections: Seq<SectionView>, y: i8, j: int)
    requires
        first_at_y(sections, y, j),
    ensures
        section_at(sections, y) == Some(sections[j]),
{
    assert(exists|j: int| first_at_y(sections, y, j));
    let c = choose|c: int| first_at_y(sections, y, c);
    if c < j {
        assert(sections[c].y != y);
    } else if c > j {
        assert(sections[j].y != y);
    }
}

/// Position of the first section at height `y`, if any.
pub fn find_section(sections: &Vec<Section>, y: i8) -> (r: Option<usize>)
    ensures
        r matches Some(j) ==> first_at_y(sections_view(sections@), y, j as int),
        r is None ==> section_at(sections_view(sections@), y) is None,
{
    let ghost view = sections_view(sections@);
    let mut j: usize = 0;
    while j < sections.len()
        invariant
            j <= sections.len(),
            view == sections_view(sections@),
            forall|k: int| 0 <= k < j ==> (#[trigger] view[k]).y != y,
        decreases sections.len() - j,
    {
        if sections[j].y == y {
            assert(view[j as int].y == y);
            return Some(j);
        }
        assert(view[j as int].y != y);
        j += 1;
    }
    None
}

/// The section at height `y` of two chunks merged: the cells of the new one
/// laid over those of the existing one and re-encoded where both have it,
/// otherwise whichever has it.
pub open spec fn merged_at(existing: Seq<SectionView>, new: Seq<SectionView>, y: i8) -> Option<
    SectionView,
> {
    match (section_at(existing, y), section_at(new, y)) {
        (Some(e), Some(n)) => Some(
            encoded_section(
                overlaid(decoded_cells(e.block_states), decoded_cells(n.block_states)),
                y,
            ),
        ),
        (Some(e), None) => Some(e),
        (None, Some(n)) => Some(n),
        (None, None) => None,
    }
}

/// The merged sections at heights below `top`, in increasing height.
pub open spec fn merged_sections_below(
    existing: Seq<SectionView>,
    new: Seq<SectionView>,
    top: int,
) -> Seq<SectionView>
    decreases top + 128,
{
    if top <= -128 {
        Seq::empty()
    } else {
        let prev = merged_sections_below(existing, new, top - 1);
        match merged_at(existing, new, (top - 1) as i8) {
            Some(s) => prev.push(s),
            None => prev,
        }
    }
}

/// All merged sections, in increasing height.
pub open spec fn merged_sections(existing: Seq<SectionView>, new: Seq<SectionView>) -> Seq<
    SectionView,
> {
    merged_sections_below(existing, new, 128)
}

/// Every palette of these sections can be decoded.
pub open spec fn palettes_decodable(sections: Seq<SectionView>) -> bool {
    forall|k: int|
        0 <= k < sections.len() ==> (#[trigger] sections[k]).block_states.palette.len()
            <= 0x8000_0000_0000_0000u64
}

pub fn merge_sections(existing: &Vec<Section>, new: &Vec<Section>) -> (merged: Vec<Section>)
    requires
        palettes_decodable(sections_view(existing@)),
        palettes_decodable(sections_view(new@)),
    ensures
        sections_view(merged@) == merged_sections(sections_view(existing@), sections_view(new@)),
{
    let ghost ev = sections_view(existing@);
    let ghost nv = sections_view(new@);
    let mut merged: Vec<Section> = Vec::new();
    let mut y: i16 = -128;
    while y <= 127
        invariant
            -128 <= y <= 128,
            ev == sections_view(existing@),
            nv == sections_view(new@),
            palettes_decodable(ev),
            palettes_decodable(nv),
            sections_view(merged@) == merged_sections_below(ev, nv, y as int),
        decreases 128 - y,
    {
        let level = y as i8;
        let ghost before = sections_view(merged@);
        let found_existing = find_section(existing, level);
        let found_new = find_section(new, level);
        proof {
            if let Some(a) = found_existing {
                lemma_section_at(ev, level, a as int);
            }
            if let Some(b) = found_new {
                lemma_section_at(nv, level, b as int);
            }
        }
        match (found_existing, found_new) {
            (Some(a), Some(b)) => {
                assert(ev[a as int] == existing@[a as int]@);
                assert(nv[b as int] == new@[b as int]@);
                let mut cells = decode_section_cells(&existing[a]);
                let overlay = decode_section_cells(&new[b]);
                overlay_cells(cells.as_mut_slice(), overlay.as_slice());
                let section = encode_section_from_cells(cells.as_slice(), level);
                merged.push(section);
                assert(sections_view(merged@) =~= before.push(section@));
            },
            (Some(a), None) => {
                assert(ev[a as int] == existing@[a as int]@);
                let section = existing[a].duplicate();
                merged.push(section);
                assert(sections_view(merged@) =~= before.push(section@));
            },
            (None, Some(b)) => {
                assert(nv[b as int] == new@[b as int]@);
                let section = new[b].duplicate();
                merged.push(section);
                assert(sections_view(merged@) =~= before.push(section@));
            },
            (None, None) => {},
        }
        assert(level as int == (y + 1) - 1);
        y += 1;
    }
    merged
}

/// The tags of a compound as a map, later entries winning over earlier ones
/// with the same name.
pub open spec fn tags_map(entries: Seq<(Seq<char>, Value)>) -> Map<Seq<char>, Value>
    decreases entries.len(),
{
    if entries.len() == 0 {
        Map::empty()
    } else {
        tags_map(entries.drop_last()).insert(entries.last().0, entries.last().1)
    }
}

/// A tag name is in the map exactly when some entry has it.
pub proof fn lemma_tags_map_domain(entries: Seq<(Seq<char>, Value)>, name: Seq<char>)
    ensures
        tags_map(entries).dom().contains(name) <==> exists|j: int|
            0 <= j < entries.len() && (#[trigger] entries[j]).0 == name,
    decreases entries.len(),
{
    if entries.len() > 0 {
        let prefix = entries.drop_last();
        lemma_tags_map_domain(prefix, name);
        if tags_map(entries).dom().contains(name) && entries.last().0 != name {
            let j = choose|j: int| 0 <= j < prefix.len() && (#[trigger] prefix[j]).0 == name;
            assert(entries[j] == prefix[j]);
        }
        if exists|j: int| 0 <= j < entries.len() && (#[trigger] entries[j]).0 == name {
            let j = choose|j: int| 0 <= j < entries.len() && (#[trigger] entries[j]).0 == name;
            if j < entries.len() - 1 {
                assert(prefix[j] == entries[j]);
            }
        }
    }
}

/// Whether some tag in `entries` is named `name`.
pub fn has_tag(entries: &Vec<(String, Value)>, name: &String) -> (r: bool)
    ensures
        r == tags_map(entries_view(entries@)).dom().contains(name@),
{
    proof {
        lemma_tags_map_domain(entries_view(entries@), name@);
    }
    let mut j: usize = 0;
    while j < entries.len()
        invariant
            j <= entries.len(),
            forall|k: int| 0 <= k < j ==> (#[trigger] entries@[k]).0@ != name@,
        decreases entries.len() - j,
    {
        let same = entries[j].0 == *name;
        if same {
            let ghost view = entries_view(entries@);
            assert(entries@[j as int].0@ == name@);
            assert(view[j as int] == (entries@[j as int].0@, entries@[j as int].1));
            assert(view[j as int].0 == name@);
            assert(exists|k: int| 0 <= k < view.len() && (#[trigger] view[k]).0 == name@);
            proof {
                lemma_tags_map_domain(view, name@);
            }
            return true;
        }
        j += 1;
    }
    proof {
        if exists|k: int| 0 <= k < entries@.len() && (#[trigger] entries_view(entries@)[k]).0 == name@ {
            let k = choose|k: int| 0 <= k < entries@.len() && (#[trigger] entries_view(entries@)[k]).0 == name@;
            assert(entries@[k].0@ != name@);
        }
    }
    false
}

/// No two entries carry the same tag name.
pub open spec fn names_distinct(entries: Seq<(Seq<char>, Value)>) -> bool {
    forall|i: int, j: int| 0 <= i < j < entries.len() ==> (#[trigger] entries[i]).0 != (
    #[trigger] entries[j]).0
}

/// The tags of `existing` that `new` does not name, then all of `new`: as a
/// map, `existing` updated by `new`; and when neither list repeats a name,
/// neither does the merged one.
pub fn merge_tags(existing: &Vec<(String, Value)>, new: &Vec<(String, Value)>) -> (merged: Vec<
    (String, Value),
>)
    ensures
        tags_map(entries_view(merged@)) == tags_map(entries_view(existing@)).union_prefer_right(
            tags_map(entries_view(new@)),
        ),
        names_distinct(entries_view(existing@)) && names_distinct(entries_view(new@))
            ==> names_distinct(entries_view(merged@)),
{
    let ghost ev = entries_view(existing@);
    let ghost nv = entries_view(new@);
    let ghost new_names = tags_map(nv).dom();
    let mut merged: Vec<(String, Value)> = Vec::new();
    let ghost mut origin: Seq<int> = Seq::empty();
    let mut i: usize = 0;
    while i < existing.len()
        invariant
            i <= existing.len(),
            ev == entries_view(existing@),
            nv == entries_view(new@),
            new_names == tags_map(nv).dom(),
            tags_map(entries_view(merged@)) == tags_map(ev.take(i as int)).remove_keys(new_names),
            origin.len() == merged.len(),
            forall|m: int|
                0 <= m < merged.len() ==> {
                    &&& 0 <= #[trigger] origin[m] < i
                    &&& entries_view(merged@)[m].0 == ev[origin[m]].0
                    &&& !new_names.contains(entries_view(merged@)[m].0)
                },
            names_distinct(ev) ==> names_distinct(entries_view(merged@)),
        decreases existing.len() - i,
    {
        let ghost before = entries_view(merged@);
        assert(ev.take(i + 1).drop_last() =~= ev.take(i as int));
        assert(ev.take(i + 1).last() == ev[i as int]);
        if !has_tag(new, &existing[i].0) {
            merged.push((existing[i].0.clone(), existing[i].1.clone()));
            proof {
                origin = origin.push(i as int);
            }
            assert(entries_view(merged@).drop_last() =~= before);
            assert(tags_map(entries_view(merged@)) =~= tags_map(ev.take(i + 1)).remove_keys(new_names));
            proof {
                let mv = entries_view(merged@);
                assert(mv[before.len() as int].0 == ev[i as int].0);
                assert forall|m: int| 0 <= m < merged.len() implies {
                    &&& 0 <= #[trigger] origin[m] < i + 1
                    &&& entries_view(merged@)[m].0 == ev[origin[m]].0
                    &&& !new_names.contains(entries_view(merged@)[m].0)
                } by {
                    if m < before.len() {
                        assert(mv[m] == before[m]);
                    }
                }
                if names_distinct(ev) {
                    assert forall|a: int, b: int| 0 <= a < b < mv.len() implies (#[trigger] mv[a]).0
                        != (#[trigger] mv[b]).0 by {
                        assert(mv[a] == before[a]);
                        if b < before.len() {
                            assert(mv[b] == before[b]);
                        } else {
                            assert(origin[a] < i);
                            assert(ev[origin[a]].0 != ev[i as int].0);
                        }
                    }
                }
            }
        } else {
            assert(tags_map(before) =~= tags_map(ev.take(i + 1)).remove_keys(new_names));
        }
        i += 1;
    }
    assert(ev.take(existing.len() as int) =~= ev);
    let ghost kept = tags_map(ev).remove_keys(new_names);
    let ghost kept_len = merged.len() as int;
    assert forall|m: int| 0 <= m < kept_len implies !new_names.contains(
        #[trigger] entries_view(merged@)[m].0,
    ) by {
        assert(0 <= origin[m]);
    }
    let mut j: usize = 0;
    while j < new.len()
        invariant
            j <= new.len(),
            nv == entries_view(new@),
            new_names == tags_map(nv).dom(),
            kept == tags_map(ev).remove_keys(new_names),
            tags_map(entries_view(merged@)) == kept.union_prefer_right(tags_map(nv.take(j as int))),
            0 <= kept_len,
            merged.len() == kept_len + j,
            forall|m: int|
                0 <= m < kept_len ==> !new_names.contains(#[trigger] entries_view(merged@)[m].0),
            forall|m: int|
                kept_len <= m < merged.len() ==> #[trigger] entries_view(merged@)[m].0 == nv[m
                    - kept_len].0,
            names_distinct(ev) && names_distinct(nv) ==> names_distinct(entries_view(merged@)),
        decreases new.len() - j,
    {
        let ghost before = entries_view(merged@);
        assert(nv.take(j + 1).drop_last() =~= nv.take(j as int));
        assert(nv.take(j + 1).last() == nv[j as int]);
        merged.push((new[j].0.clone(), new[j].1.clone()));
        assert(entries_view(merged@).drop_last() =~= before);
        assert(tags_map(entries_view(merged@)) =~= kept.union_prefer_right(tags_map(nv.take(j + 1))));
        proof {
            let mv = entries_view(merged@);
            let last = before.len() as int;
            assert(mv.drop_last() == before);
            assert forall|m: int| 0 <= m < last implies mv[m] == before[m] by {
                assert(mv.drop_last()[m] == mv[m]);
            }
            assert(mv[last].0 == nv[j as int].0);
            lemma_tags_map_domain(nv, nv[j as int].0);
            assert(new_names.contains(nv[j as int].0));
            assert forall|m: int| 0 <= m < kept_len implies !new_names.contains(
                #[trigger] entries_view(merged@)[m].0,
            ) by {
                assert(mv[m] == before[m]);
            }
            assert forall|m: int| kept_len <= m < merged.len() implies #[trigger] entries_view(
                merged@,
            )[m].0 == nv[m - kept_len].0 by {
                if m < last {
                    assert(mv[m] == before[m]);
                }
            }
            if names_distinct(ev) && names_distinct(nv) {
                assert forall|a: int, b: int| 0 <= a < b < mv.len() implies (#[trigger] mv[a]).0
                    != (#[trigger] mv[b]).0 by {
                    assert(mv[a] == before[a]);
                    if b < last {
                        assert(mv[b] == before[b]);
                    } else if a >= kept_len {
                        assert(nv[a - kept_len].0 != nv[j as int].0);
                    }
                }
            }
        }
        j += 1;
    }
    assert(nv.take(new.len() as int) =~= nv);
    assert(tags_map(entries_view(merged@)) =~= tags_map(ev).union_prefer_right(tags_map(nv)));
    merged
}

pub fn merge_chunks(existing: &Chunk, new_chunk: &Chunk) -> (merged: Chunk)
    requires
        palettes_decodable(existing@.sections),
        palettes_decodable(new_chunk@.sections),
    ensures
        merged@.sections == merged_sections(existing@.sections, new_chunk@.sections),
        merged.x_pos == new_chunk.x_pos,
        merged.z_pos == new_chunk.z_pos,
        merged.is_light_on == new_chunk.is_light_on,
        tags_map(merged@.other) == tags_map(existing@.other).union_prefer_right(
            tags_map(new_chunk@.other),
        ),
        names_distinct(existing@.other) && names_distinct(new_chunk@.other) ==> names_distinct(
            merged@.other,
        ),
{
    let sections = merge_sections(&existing.sections, &new_chunk.sections);
    let other = merge_tags(&existing.other, &new_chunk.other);
    Chunk {
        sections,
        x_pos: new_chunk.x_pos,
        z_pos: new_chunk.z_pos,
        is_light_on: new_chunk.is_light_on,
        other,
    }
}

/// The section found at a height is at that height.
proof fn lemma_section_at_height(sections: Seq<SectionView>, y: i8)
    ensures
        section_at(sections, y) matches Some(s) ==> s.y == y,
        section_at(sections, y) is Some <==> exists|j: int| 0 <= j < sections.len() && (#[trigger] sections[j]).y == y,
{
    if exists|j: int| 0 <= j < sections.len() && (#[trigger] sections[j]).y == y {
        let j = choose|j: int| 0 <= j < sections.len() && (#[trigger] sections[j]).y == y;
        lemma_first_at_y_exists(sections, y, j);
        let c = choose|c: int| first_at_y(sections, y, c);
        assert(first_at_y(sections, y, c));
    }
}

proof fn lemma_first_at_y_exists(sections: Seq<SectionView>, y: i8, j: int)
    requires
        0 <= j < sections.len(),
        sections[j].y == y,
    ensures
        exists|c: int| first_at_y(sections, y, c),
    decreases j,
{
    if exists|k: int| 0 <= k < j && (#[trigger] sections[k]).y == y {
        let k = choose|k: int| 0 <= k < j && (#[trigger] sections[k]).y == y;
        lemma_first_at_y_exists(sections, y, k);
    } else {
        assert(first_at_y(sections, y, j));
    }
}

/// The merged sections come in strictly increasing height, one for each
/// height that either chunk has, each the merge of the two chunks at its
/// height.
pub proof fn law_merged_sections_cover(existing: Seq<SectionView>, new: Seq<SectionView>)
    ensures
        ({
            let merged = merged_sections(existing, new);
            &&& forall|a: int, b: int| 0 <= a < b < merged.len() ==> (#[trigger] merged[a]).y < (#[trigger] merged[b]).y
            &&& forall|k: int| 0 <= k < merged.len() ==> merged_at(existing, new, (#[trigger] merged[k]).y) == Some(merged[k])
            &&& forall|y: i8| (section_at(existing, y) is Some || section_at(new, y) is Some) <==> exists|k: int|
                0 <= k < merged.len() && (#[trigger] merged[k]).y == y
        }),
{
    lemma_merged_below(existing, new, 128);
    assert forall|y: i8| (section_at(existing, y) is Some || section_at(new, y) is Some) <==> exists|k: int|
        0 <= k < merged_sections(existing, new).len() && (#[trigger] merged_sections(existing, new)[k]).y == y by {
        assert((y as int) < 128);
    }
}

proof fn lemma_merged_at_height(existing: Seq<SectionView>, new: Seq<SectionView>, y: i8)
    ensures
        merged_at(existing, new, y) matches Some(s) ==> s.y == y,
        merged_at(existing, new, y) is Some <==> (section_at(existing, y) is Some || section_at(new, y) is Some),
{
    lemma_section_at_height(existing, y);
    lemma_section_at_height(new, y);
}

proof fn lemma_merged_below(existing: Seq<SectionView>, new: Seq<SectionView>, top: int)
    requires
        -128 <= top <= 128,
    ensures
        ({
            let merged = merged_sections_below(existing, new, top);
            &&& forall|a: int, b: int| 0 <= a < b < merged.len() ==> (#[trigger] merged[a]).y < (#[trigger] merged[b]).y
            &&& forall|k: int| 0 <= k < merged.len() ==> (#[trigger] merged[k]).y < top
            &&& forall|k: int| 0 <= k < merged.len() ==> merged_at(existing, new, (#[trigger] merged[k]).y) == Some(merged[k])
            &&& forall|y: i8| (y < top && (section_at(existing, y) is Some || section_at(new, y) is Some)) <==> exists|k: int|
                0 <= k < merged.len() && (#[trigger] merged[k]).y == y
        }),
    decreases top + 128,
{
    if top > -128 {
        lemma_merged_below(existing, new, top - 1);
        let prev = merged_sections_below(existing, new, top - 1);
        let merged = merged_sections_below(existing, new, top);
        let level = (top - 1) as i8;
        lemma_merged_at_height(existing, new, level);
        assert forall|y: i8| (y < top && (section_at(existing, y) is Some || section_at(new, y) is Some)) implies exists|k: int|
            0 <= k < merged.len() && (#[trigger] merged[k]).y == y by {
            if y < top - 1 {
                let k = choose|k: int| 0 <= k < prev.len() && (#[trigger] prev[k]).y == y;
                assert(merged[k] == prev[k]);
            } else {
                assert(y == level);
                assert(merged[merged.len() - 1].y == y);
            }
        }
        assert forall|y: i8| (exists|k: int| 0 <= k < merged.len() && (#[trigger] merged[k]).y == y) implies (y < top && (section_at(existing, y) is Some || section_at(new, y) is Some)) by {
            let k = choose|k: int| 0 <= k < merged.len() && (#[trigger] merged[k]).y == y;
            if k < prev.len() {
                assert(merged[k] == prev[k]);
            } else {
                lemma_merged_at_height(existing, new, y);
            }
        }
    }
}

/// Where both chunks have a section, the merged section holds, cell by
/// cell, the block of the new chunk unless that block is air, and the block
/// of the existing chunk otherwise: by name always, and with its properties'
/// key unless the result is uniformly air with properties.
pub proof fn law_merge_new_wins(existing: Seq<SectionView>, new: Seq<SectionView>, y: i8)
    requires
        section_at(existing, y) is Some,
        section_at(new, y) is Some,
    ensures
        ({
            let old_cells = decoded_cells(section_at(existing, y)->0.block_states);
            let new_cells = decoded_cells(section_at(new, y)->0.block_states);
            let wanted = overlaid(old_cells, new_cells);
            let merged_cells = decoded_cells(merged_at(existing, new, y)->0.block_states);
            &&& forall|i: int|
                0 <= i < SECTION_CELLS ==> wanted[i] == if new_cells[i].name != AIR@ {
                    new_cells[i]
                } else {
                    old_cells[i]
                }
            &&& forall|i: int|
                0 <= i < SECTION_CELLS ==> (#[trigger] merged_cells[i]).name == wanted[i].name
            &&& !uniform_air_with_properties(wanted) ==> forall|i: int|
                0 <= i < SECTION_CELLS ==> cell_key(#[trigger] merged_cells[i]) == cell_key(
                    wanted[i],
                )
        }),
{
    let old_cells = decoded_cells(section_at(existing, y)->0.block_states);
    let new_cells = decoded_cells(section_at(new, y)->0.block_states);
    let wanted = overlaid(old_cells, new_cells);
    law_decode_encoded_section(wanted, y);
}

/// Where only one chunk has a section, the merged chunk keeps it unchanged.
pub proof fn law_merge_keeps_lone_sections(existing: Seq<SectionView>, new: Seq<SectionView>, y: i8)
    ensures
        section_at(new, y) is None ==> merged_at(existing, new, y) == section_at(existing, y),
        section_at(existing, y) is None ==> merged_at(existing, new, y) == section_at(new, y),
{
}

} // verus!
