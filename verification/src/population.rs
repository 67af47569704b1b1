//! The integer side of filling the physics buffers for a crowd: where each
//! NPC stands, the crowd's constraint buffer and its indirect draw command.
//!
//! NPC `i` owns particles `i * nodes_count .. (i + 1) * nodes_count` of the
//! particle buffer, which the caller fills with the template's particles
//! moved to NPC `i`'s cell.

use vstd::prelude::*;
use crate::constraint::{DistanceConstraints, replicated, shifts_fit, replicate_constraints};
use crate::gpu_buffers::DrawIndexedIndirectArgs;
use crate::grid::{GridCell, cells_of, grid_cells};

verus! {

/// NPCs in the crowd.
pub const NPC_COUNT: usize = 50000;

/// NPCs per row of the crowd's grid.
pub const GRID_COLUMNS: usize = 223;

/// A planned crowd.
pub struct NpcPopulation {
    /// Particles of the whole crowd: NPCs times template particles.
    pub particle_count: usize,
    /// The grid cell of each NPC, in NPC order.
    pub cells: Vec<GridCell>,
    /// The crowd's constraints, NPC after NPC.
    pub constraints: Vec<DistanceConstraints>,
    /// The command that draws every NPC with the template mesh.
    pub indirect: DrawIndexedIndirectArgs,
}

/// Plans a crowd of `npc_count` copies of a template with `nodes_count`
/// particles, the given constraints and `index_count` mesh indices, standing
/// `columns` to a row.
pub fn plan_population(
    template_constraints: &Vec<DistanceConstraints>,
    nodes_count: usize,
    index_count: u32,
    npc_count: usize,
    columns: usize,
) -> (crowd: NpcPopulation)
    requires
        columns > 0,
        npc_count * nodes_count <= usize::MAX,
        npc_count * template_constraints.len() <= usize::MAX,
        shifts_fit(template_constraints@, nodes_count as nat, npc_count as nat),
    ensures
        crowd.particle_count == npc_count * nodes_count,
        crowd.cells@ == cells_of(npc_count as nat, columns as nat),
        crowd.constraints@ == replicated(
            template_constraints@,
            nodes_count as nat,
            npc_count as nat,
        ),
        crowd.indirect == (DrawIndexedIndirectArgs {
            index_count: index_count,
            instance_count: npc_count as u32,
            first_index: 0,
            base_vertex: 0,
            first_instance: 0,
        }),
{
    let particle_count = npc_count * nodes_count;
    let cells = grid_cells(npc_count, columns);
    let constraints = replicate_constraints(template_constraints, nodes_count, npc_count);
    let indirect = DrawIndexedIndirectArgs::for_population(index_count, npc_count);
    NpcPopulation { particle_count, cells, constraints, indirect }
}

} // verus!
