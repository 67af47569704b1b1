//! Placement of NPCs on a square grid of the ground plane.

use vstd::prelude::*;

verus! {

/// The grid cell that an NPC stands in: `column` runs along X, `row` along Z.
#[derive(Clone, Copy, Debug, PartialEq, Eq, Structural)]
pub struct GridCell {
    pub column: usize,
    pub row: usize,
}

/// The cell of the NPC with the given index when `columns` NPCs fill each row.
pub open spec fn cell_of(index: nat, columns: nat) -> GridCell
    recommends
        columns > 0,
{
    GridCell { column: (index % columns) as usize, row: (index / columns) as usize }
}

/// Cell of NPC number `index` in a grid with `columns` NPCs per row:
/// column `index % columns`, row `index / columns`.
pub fn grid_cell(index: usize, columns: usize) -> (cell: GridCell)
    requires
        columns > 0,
    ensures
        cell == cell_of(index as nat, columns as nat),
{
    GridCell { column: index % columns, row: index / columns }
}

/// The cells of NPCs `0 .. npc_count`, in NPC order.
pub open spec fn cells_of(npc_count: nat, columns: nat) -> Seq<GridCell> {
    Seq::new(npc_count, |i: int| cell_of(i as nat, columns))
}

/// The cell of every NPC of a crowd of `npc_count`, in NPC order.
pub fn grid_cells(npc_count: usize, columns: usize) -> (cells: Vec<GridCell>)
    requires
        columns > 0,
    ensures
        cells@ == cells_of(npc_count as nat, columns as nat),
{
    let mut cells: Vec<GridCell> = Vec::with_capacity(npc_count);
    let mut i: usize = 0;
    while i < npc_count
        invariant
            i <= npc_count,
            columns > 0,
            cells@ == cells_of(i as nat, columns as nat),
        decreases npc_count - i,
    {
        cells.push(grid_cell(i, columns));
        assert(cells@ =~= cells_of((i + 1) as nat, columns as nat));
        i = i + 1;
    }
    cells
}

/// Law: an NPC's cell lies inside the grid's width, and the NPC's index is
/// read back from its cell as `row * columns + column`.
pub proof fn cell_recovers_index(index: nat, columns: nat)
    requires
        columns > 0,
        index <= usize::MAX,
    ensures
        cell_of(index, columns).column < columns,
        cell_of(index, columns).row * columns + cell_of(index, columns).column == index,
{
    vstd::arithmetic::div_mod::lemma_fundamental_div_mod(index as int, columns as int);
    vstd::arithmetic::div_mod::lemma_mod_bound(index as int, columns as int);
    vstd::arithmetic::div_mod::lemma_div_pos_is_pos(index as int, columns as int);
    let q = index as int / columns as int;
    let r = index as int % columns as int;
    assert(q <= index) by (nonlinear_arith)
        requires
            index == columns * q + r,
            0 <= r,
            0 <= q,
            columns >= 1,
    ;
    assert(cell_of(index, columns).row == q);
    assert(cell_of(index, columns).column == r);
    assert(q * columns == columns * q) by (nonlinear_arith);
}

/// Law: the crowd's cell list has one cell per NPC, NPC `i`'s cell at
/// position `i`, in column `i % columns` of row `i / columns`.
pub proof fn cells_of_entries(npc_count: nat, columns: nat, i: int)
    requires
        columns > 0,
        0 <= i < npc_count,
        npc_count <= usize::MAX + 1,
    ensures
        cells_of(npc_count, columns).len() == npc_count,
        cells_of(npc_count, columns)[i].column == i % columns as int,
        cells_of(npc_count, columns)[i].row == i / columns as int,
{
    cell_recovers_index(i as nat, columns);
    vstd::arithmetic::div_mod::lemma_fundamental_div_mod(i, columns as int);
    vstd::arithmetic::div_mod::lemma_mod_bound(i, columns as int);
    vstd::arithmetic::div_mod::lemma_div_pos_is_pos(i, columns as int);
    assert(i / columns as int <= i) by (nonlinear_arith)
        requires
            i == columns * (i / columns as int) + i % columns as int,
            0 <= i % columns as int,
            0 <= i / columns as int,
            columns >= 1,
    ;
}

/// Law: no two NPCs stand in the same cell.
pub proof fn cells_distinct(a: nat, b: nat, columns: nat)
    requires
        columns > 0,
        a != b,
        a <= usize::MAX,
        b <= usize::MAX,
    ensures
        cell_of(a, columns) != cell_of(b, columns),
{
    cell_recovers_index(a, columns);
    cell_recovers_index(b, columns);
}

} // verus!
