//! How many compute workgroups a physics pass dispatches, and which passes a
//! frame runs.
//!
//! The workgroup count is the original's `((count as f32) / 64.0).ceil() as u32`
//! on a `u64` item count, computed here exactly on integers: the count is
//! rounded to the nearest `f32` (24 significant bits, ties to even), divided
//! by 64 and rounded up, and the result saturates at `u32::MAX`.

use vstd::prelude::*;

verus! {

/// Threads per workgroup of the physics shaders.
pub const WORKGROUP_SIZE: u64 = 64;

/// Bytes per particle in the particle storage buffer.
pub const PARTICLE_STRIDE: u64 = 64;

/// Bytes per constraint in the constraint storage buffer.
pub const CONSTRAINT_STRIDE: u64 = 16;

/// Solver passes per frame.
pub const SOLVER_ITERATIONS: usize = 4;

/// Spacing of the `f32` values around `n`: 1 below 2^24, doubling with each
/// further binary digit.
pub open spec fn f32_spacing(n: nat) -> nat
    decreases n,
{
    if n < 0x100_0000 {
        1
    } else {
        2 * f32_spacing(n / 2)
    }
}

/// `n` rounded to the nearest `f32`, ties to the even neighbour.
pub open spec fn nearest_f32(n: nat) -> nat {
    let u = f32_spacing(n);
    let q = n / u;
    let r = n % u;
    if 2 * r > u || (2 * r == u && q % 2 == 1) {
        (q + 1) * u
    } else {
        q * u
    }
}

/// Workgroups of 64 that cover `items` items, as the `f32` computation gives
/// them: `nearest_f32(items) / 64` rounded up, saturated at `u32::MAX`.
pub open spec fn workgroups_for(items: nat) -> nat {
    let groups = (nearest_f32(items) + 63) / 64;
    if groups > u32::MAX {
        u32::MAX as nat
    } else {
        groups
    }
}

/// Workgroups of 64 threads for `items` items, as `((items as f32) / 64.0).ceil() as u32`.
pub fn workgroup_count(items: u64) -> (groups: u32)
    ensures
        groups == workgroups_for(items as nat),
{
    let mut spacing: u64 = 1;
    let mut m: u64 = items;
    while m >= 0x100_0000
        invariant
            spacing >= 1,
            m == items as nat / spacing as nat,
            spacing * m <= items,
            f32_spacing(items as nat) == spacing * f32_spacing(m as nat),
        decreases m,
    {
        proof {
            assert(spacing * 2 <= spacing * m) by (nonlinear_arith)
                requires
                    m >= 2,
                    spacing >= 1,
            ;
            vstd::arithmetic::div_mod::lemma_div_denominator(
                items as int,
                spacing as int,
                2,
            );
            assert(f32_spacing(m as nat) == 2 * f32_spacing((m / 2) as nat));
            assert(spacing * (2 * f32_spacing((m / 2) as nat)) == (spacing * 2) * f32_spacing(
                (m / 2) as nat,
            )) by (nonlinear_arith);
            vstd::arithmetic::div_mod::lemma_fundamental_div_mod(
                items as int,
                (spacing * 2) as int,
            );
            vstd::arithmetic::div_mod::lemma_mod_bound(items as int, (spacing * 2) as int);
        }
        spacing = spacing * 2;
        m = m / 2;
    }
    assert(f32_spacing(m as nat) == 1);
    assert(f32_spacing(items as nat) == spacing) by (nonlinear_arith)
        requires
            f32_spacing(m as nat) == 1,
            f32_spacing(items as nat) == spacing * f32_spacing(m as nat),
    ;
    let r: u64 = items % spacing;
    let q: u64 = m;
    let value: u128 = if 2 * (r as u128) > spacing as u128 || (2 * (r as u128) == spacing as u128
        && q % 2 == 1) {
        proof {
            assert((q + 1) * spacing <= 0x100_0000 * 0x1_0000_0000_0000_0000) by (nonlinear_arith)
                requires
                    q < 0x100_0000,
                    spacing < 0x1_0000_0000_0000_0000,
            ;
        }
        ((q as u128) + 1) * (spacing as u128)
    } else {
        proof {
            assert(q * spacing <= 0x100_0000 * 0x1_0000_0000_0000_0000) by (nonlinear_arith)
                requires
                    q < 0x100_0000,
                    spacing < 0x1_0000_0000_0000_0000,
            ;
        }
        (q as u128) * (spacing as u128)
    };
    assert(value == nearest_f32(items as nat));
    let groups: u128 = (value + 63) / 64;
    if groups > u32::MAX as u128 {
        u32::MAX
    } else {
        groups as u32
    }
}

/// The two compute stages of a physics frame.
#[derive(Clone, Copy, Debug, PartialEq, Eq, Structural)]
pub enum PhysicsStage {
    /// Integrates particle motion; one thread per particle.
    Integration,
    /// Solves the distance constraints; one thread per constraint.
    Solver,
}

/// One compute pass to record: its stage and its workgroup count.
#[derive(Clone, Copy, Debug, PartialEq, Eq, Structural)]
pub struct ComputePass {
    pub stage: PhysicsStage,
    pub workgroups: u32,
}

/// What the render world offers the physics node in a frame.
#[derive(Clone, Copy, Debug, PartialEq, Eq, Structural)]
pub struct PhysicsFrame {
    /// The particle and constraint buffers exist on the GPU.
    pub buffers_ready: bool,
    /// Size in bytes of the particle buffer.
    pub particle_buffer_bytes: u64,
    /// Size in bytes of the constraint buffer.
    pub constraint_buffer_bytes: u64,
    /// The integration pipeline is queued and compiled.
    pub integration_ready: bool,
    /// The solver pipeline is queued and compiled.
    pub solver_ready: bool,
}

/// The passes of a frame: none until the buffers exist; then one integration
/// pass over all particles if its pipeline is ready, followed by
/// `SOLVER_ITERATIONS` solver passes over all constraints if its pipeline is
/// ready.
pub open spec fn frame_passes(frame: PhysicsFrame) -> Seq<ComputePass> {
    if !frame.buffers_ready {
        Seq::empty()
    } else {
        let integration = ComputePass {
            stage: PhysicsStage::Integration,
            workgroups: workgroups_for((frame.particle_buffer_bytes / PARTICLE_STRIDE) as nat) as u32,
        };
        let solver = ComputePass {
            stage: PhysicsStage::Solver,
            workgroups: workgroups_for(
                (frame.constraint_buffer_bytes / CONSTRAINT_STRIDE) as nat,
            ) as u32,
        };
        (if frame.integration_ready {
            seq![integration]
        } else {
            Seq::empty()
        }) + (if frame.solver_ready {
            Seq::new(SOLVER_ITERATIONS as nat, |i: int| solver)
        } else {
            Seq::empty()
        })
    }
}

/// The compute passes the physics node records in a frame, in order.
pub fn plan_physics_frame(frame: &PhysicsFrame) -> (passes: Vec<ComputePass>)
    ensures
        passes@ == frame_passes(*frame),
        !frame.buffers_ready ==> passes@.len() == 0,
        frame.buffers_ready ==> passes@.len() == (if frame.integration_ready {
            1int
        } else {
            0int
        }) + (if frame.solver_ready {
            SOLVER_ITERATIONS as int
        } else {
            0int
        }),
        frame.buffers_ready && frame.integration_ready ==> passes@[0].stage
            == PhysicsStage::Integration,
        forall|i: int|
            0 <= i < passes@.len() && (#[trigger] passes@[i]).stage == PhysicsStage::Integration
                ==> i == 0 && frame.integration_ready && passes@[i].workgroups == workgroups_for(
                (frame.particle_buffer_bytes / 64) as nat,
            ),
        forall|i: int|
            0 <= i < passes@.len() && (#[trigger] passes@[i]).stage == PhysicsStage::Solver
                ==> frame.solver_ready && passes@[i].workgroups == workgroups_for(
                (frame.constraint_buffer_bytes / 16) as nat,
            ),
{
    let mut passes: Vec<ComputePass> = Vec::new();
    if !frame.buffers_ready {
        return passes;
    }
    let particle_groups = workgroup_count(frame.particle_buffer_bytes / PARTICLE_STRIDE);
    let constraint_groups = workgroup_count(frame.constraint_buffer_bytes / CONSTRAINT_STRIDE);
    if frame.integration_ready {
        passes.push(ComputePass { stage: PhysicsStage::Integration, workgroups: particle_groups });
    }
    let ghost head = passes@;
    if frame.solver_ready {
        let solver = ComputePass { stage: PhysicsStage::Solver, workgroups: constraint_groups };
        let mut i: usize = 0;
        while i < SOLVER_ITERATIONS
            invariant
                i <= SOLVER_ITERATIONS,
                passes@ == head + Seq::new(i as nat, |k: int| solver),
            decreases SOLVER_ITERATIONS - i,
        {
            passes.push(solver);
            assert(passes@ =~= head + Seq::new((i + 1) as nat, |k: int| solver));
            i = i + 1;
        }
    }
    assert(passes@ =~= frame_passes(*frame));
    proof {
        frame_passes_by_stage(*frame);
    }
    passes
}

/// Law: a frame records nothing before its buffers exist; afterwards it
/// records the integration pass first when that pipeline is ready, followed
/// by `SOLVER_ITERATIONS` solver passes when that pipeline is ready. The
/// integration pass covers the particle buffer (64 bytes a particle), every
/// solver pass covers the constraint buffer (16 bytes a constraint),
/// whatever the other pipeline's state.
pub proof fn frame_passes_by_stage(frame: PhysicsFrame)
    ensures
        ({
            let passes = frame_passes(frame);
            &&& !frame.buffers_ready ==> passes.len() == 0
            &&& frame.buffers_ready ==> passes.len() == (if frame.integration_ready {
                1int
            } else {
                0int
            }) + (if frame.solver_ready {
                SOLVER_ITERATIONS as int
            } else {
                0int
            })
            &&& frame.buffers_ready && frame.integration_ready ==> passes[0].stage
                == PhysicsStage::Integration
            &&& forall|i: int|
                0 <= i < passes.len() && (#[trigger] passes[i]).stage == PhysicsStage::Integration
                        ==> i == 0 && frame.integration_ready && passes[i].workgroups == workgroups_for(
                        (frame.particle_buffer_bytes / 64) as nat,
                )
            &&& forall|i: int|
                0 <= i < passes.len() && (#[trigger] passes[i]).stage == PhysicsStage::Solver
                        ==> frame.solver_ready && passes[i].workgroups == workgroups_for(
                        (frame.constraint_buffer_bytes / 16) as nat,
                )
        }),
{
    let passes = frame_passes(frame);
    if frame.buffers_ready {
        let n = if frame.integration_ready { 1int } else { 0int };
        assert forall|i: int| 0 <= i < passes.len() && (#[trigger] passes[i]).stage == PhysicsStage::Solver
            implies frame.solver_ready && passes[i].workgroups == workgroups_for(
            (frame.constraint_buffer_bytes / 16) as nat,
        ) by {
            if i >= n {
                assert(passes[i] == Seq::new(SOLVER_ITERATIONS as nat, |k: int| ComputePass {
                    stage: PhysicsStage::Solver,
                    workgroups: workgroups_for((frame.constraint_buffer_bytes / CONSTRAINT_STRIDE) as nat) as u32,
                })[i - n]);
            }
        }
        assert forall|i: int| 0 <= i < passes.len() && (#[trigger] passes[i]).stage == PhysicsStage::Integration
            implies i == 0 && frame.integration_ready && passes[i].workgroups == workgroups_for(
            (frame.particle_buffer_bytes / 64) as nat,
        ) by {
            if i >= n {
                assert(passes[i] == Seq::new(SOLVER_ITERATIONS as nat, |k: int| ComputePass {
                    stage: PhysicsStage::Solver,
                    workgroups: workgroups_for((frame.constraint_buffer_bytes / CONSTRAINT_STRIDE) as nat) as u32,
                })[i - n]);
            }
        }
    }
}

/// Law: below 2^24 items the `f32` rounding is exact, and the workgroups
/// cover all items with fewer than one workgroup to spare.
pub proof fn workgroups_cover_items(items: nat)
    requires
        items < 0x100_0000,
    ensures
        workgroups_for(items) * 64 >= items,
        workgroups_for(items) * 64 < items + 64,
{
    assert(f32_spacing(items) == 1);
    assert(items / 1 == items && items % 1 == 0);
    assert(nearest_f32(items) == items);
}

/// Law: unless the count saturates `u32`, the workgroups cover the item
/// count as the `f32` rounding sees it, with fewer than one workgroup to
/// spare. (Above 2^24 that rounded count can fall below the true count.)
pub proof fn workgroups_cover_rounded_items(items: nat)
    requires
        (nearest_f32(items) + 63) / 64 <= u32::MAX,
    ensures
        workgroups_for(items) * 64 >= nearest_f32(items),
        workgroups_for(items) * 64 < nearest_f32(items) + 64,
{
    let x = nearest_f32(items);
    vstd::arithmetic::div_mod::lemma_fundamental_div_mod((x + 63) as int, 64);
    vstd::arithmetic::div_mod::lemma_mod_bound((x + 63) as int, 64);
}

/// Law: the workgroup count never exceeds `u32::MAX`, and is `u32::MAX`
/// exactly when the rounded count needs at least that many workgroups.
pub proof fn workgroups_saturate(items: nat)
    ensures
        workgroups_for(items) <= u32::MAX,
        workgroups_for(items) == u32::MAX <==> (nearest_f32(items) + 63) / 64 >= u32::MAX,
        workgroups_for(items) < u32::MAX ==> workgroups_for(items) == (nearest_f32(items) + 63)
            / 64,
{
}

/// Law: the spacing around `n` is the power of two `2^e` that leaves `n`
/// 24 significant binary digits: 1 below 2^24, and otherwise
/// `2^23 * spacing <= n < 2^24 * spacing`.
pub proof fn f32_spacing_bounds(n: nat) -> (e: nat)
    ensures
        f32_spacing(n) == vstd::arithmetic::power2::pow2(e),
        n < 0x100_0000 ==> f32_spacing(n) == 1,
        n >= 0x100_0000 ==> 0x80_0000 * f32_spacing(n) <= n < 0x100_0000 * f32_spacing(n),
    decreases n,
{
    if n < 0x100_0000 {
        vstd::arithmetic::power2::lemma2_to64();
        0
    } else {
        let m = n / 2;
        let em = f32_spacing_bounds(m);
        vstd::arithmetic::power2::lemma_pow2_unfold(em + 1);
        let sm = f32_spacing(m);
        assert(f32_spacing(n) == 2 * sm);
        if m < 0x100_0000 {
            assert(sm == 1);
        } else {
            assert(0x80_0000 * (2 * sm) <= n < 0x100_0000 * (2 * sm)) by (nonlinear_arith)
                requires
                    0x80_0000 * sm <= m,
                    m < 0x100_0000 * sm,
                    m == n / 2,
            ;
        }
        em + 1
    }
}

/// Law: `nearest_f32(n)` is a multiple of the spacing around `n` at most
/// half a spacing away from `n`, and at exactly half a spacing it is the
/// even multiple (round to nearest, ties to even).
pub proof fn nearest_f32_rounds_to_nearest(n: nat)
    ensures
        nearest_f32(n) % f32_spacing(n) == 0,
        2 * (nearest_f32(n) - n) <= f32_spacing(n),
        2 * (n - nearest_f32(n)) <= f32_spacing(n),
        2 * (nearest_f32(n) - n) == f32_spacing(n) || 2 * (n - nearest_f32(n)) == f32_spacing(n)
            ==> (nearest_f32(n) / f32_spacing(n)) % 2 == 0,
{
    let e = f32_spacing_bounds(n);
    vstd::arithmetic::power2::lemma_pow2_pos(e);
    let u = f32_spacing(n);
    let q = n / u;
    let r = n % u;
    vstd::arithmetic::div_mod::lemma_fundamental_div_mod(n as int, u as int);
    vstd::arithmetic::div_mod::lemma_mod_bound(n as int, u as int);
    let x = nearest_f32(n);
    if 2 * r > u || (2 * r == u && q % 2 == 1) {
        assert(x == (q + 1) * u);
        vstd::arithmetic::div_mod::lemma_mod_multiples_basic((q + 1) as int, u as int);
        vstd::arithmetic::div_mod::lemma_div_multiples_vanish((q + 1) as int, u as int);
        assert((q + 1) * u == u * (q + 1)) by (nonlinear_arith);
        assert(x - n == u - r) by (nonlinear_arith)
            requires
                x == (q + 1) * u,
                n == u * q + r,
        ;
    } else {
        assert(x == q * u);
        vstd::arithmetic::div_mod::lemma_mod_multiples_basic(q as int, u as int);
        vstd::arithmetic::div_mod::lemma_div_multiples_vanish(q as int, u as int);
        assert(q * u == u * q) by (nonlinear_arith);
    }
}

} // verus!
