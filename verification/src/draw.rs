//! The indirect draw of the crowd in the render pass.

use vstd::prelude::*;

verus! {

/// Bind group slot of the particle buffer in the draw shader.
pub const PARTICLE_BIND_GROUP: u32 = 2;

/// What the draw command does in a frame.
#[derive(Clone, Copy, Debug, PartialEq, Eq, Structural)]
pub enum NpcDraw {
    /// A buffer is not on the GPU yet: the command reports failure.
    Failure,
    /// Bind the particle buffer at `bind_group` and draw indirectly with the
    /// command at byte `indirect_offset` of the indirect buffer.
    Draw { bind_group: u32, indirect_offset: u64 },
}

/// The draw command's decision: draw only when both the indirect command
/// buffer and the particle buffer are on the GPU.
pub fn plan_npc_draw(indirect_ready: bool, particles_ready: bool) -> (draw: NpcDraw)
    ensures
        draw == (if indirect_ready && particles_ready {
            NpcDraw::Draw { bind_group: PARTICLE_BIND_GROUP, indirect_offset: 0 }
        } else {
            NpcDraw::Failure
        }),
{
    if !indirect_ready {
        return NpcDraw::Failure;
    }
    if !particles_ready {
        return NpcDraw::Failure;
    }
    NpcDraw::Draw { bind_group: PARTICLE_BIND_GROUP, indirect_offset: 0 }
}

} // verus!
