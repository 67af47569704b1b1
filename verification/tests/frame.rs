use npc_physics::skeleton::index_total_fits;
use npc_physics::camera::{fly_intent, FlyIntent, FlyKeys};
use npc_physics::dispatch::{
    plan_physics_frame, workgroup_count, ComputePass, PhysicsFrame, PhysicsStage,
};
use npc_physics::draw::{plan_npc_draw, NpcDraw, PARTICLE_BIND_GROUP};
use npc_physics::pipeline::PhysicsPipelineKey;
use npc_physics::skeleton::{joint_position, link_constraints, skeleton_links, total_index_count, JointLink};

fn f32_groups(items: u64) -> u32 {
    ((items as f32) / 64.0).ceil() as u32
}

#[test]
fn workgroups_round_up_to_whole_groups() {
    assert_eq!(workgroup_count(0), 0);
    assert_eq!(workgroup_count(1), 1);
    assert_eq!(workgroup_count(64), 1);
    assert_eq!(workgroup_count(65), 2);
    assert_eq!(workgroup_count(128), 2);
    assert_eq!(workgroup_count(3_150_000), 49_219);
}

#[test]
fn workgroups_match_the_float_computation() {
    let samples: [u64; 16] = [
        0,
        1,
        63,
        64,
        65,
        1_000_000,
        (1 << 24) - 1,
        1 << 24,
        (1 << 24) + 1,
        (1 << 24) + 3,
        (1 << 25) + 3,
        (1 << 25) + 6,
        123_456_789_123,
        1 << 40,
        u64::MAX - 5,
        u64::MAX,
    ];
    for n in samples {
        assert_eq!(workgroup_count(n), f32_groups(n), "items {}", n);
    }
    let mut n: u64 = 0;
    while n < 70_000_000 {
        assert_eq!(workgroup_count(n), f32_groups(n), "items {}", n);
        n += 9_973;
    }
}

#[test]
fn workgroups_saturate_at_u32_max() {
    assert_eq!(workgroup_count(u64::MAX), u32::MAX);
    assert_eq!(workgroup_count(1 << 40), u32::MAX);
    assert_eq!(workgroup_count(64 * (u32::MAX as u64)), u32::MAX);
    assert_eq!(workgroup_count(64 * 1000), 1000);
}

#[test]
fn float_rounding_leaves_an_item_uncovered_above_two_to_the_24() {
    // 2^24 + 1 rounds down to 2^24 as an f32: 2^18 groups cover 2^24 items only.
    assert_eq!(workgroup_count((1 << 24) + 1), 1 << 18);
}

fn frame(buffers: bool, integration: bool, solver: bool) -> PhysicsFrame {
    PhysicsFrame {
        buffers_ready: buffers,
        particle_buffer_bytes: 64 * 1000,
        constraint_buffer_bytes: 16 * 130,
        integration_ready: integration,
        solver_ready: solver,
    }
}

#[test]
fn no_passes_before_the_buffers_exist() {
    assert!(plan_physics_frame(&frame(false, true, true)).is_empty());
}

#[test]
fn integration_then_four_solver_passes() {
    let passes = plan_physics_frame(&frame(true, true, true));
    let integrate = ComputePass { stage: PhysicsStage::Integration, workgroups: 16 };
    let solve = ComputePass { stage: PhysicsStage::Solver, workgroups: 3 };
    assert_eq!(passes, vec![integrate, solve, solve, solve, solve]);
}

#[test]
fn passes_wait_for_their_pipelines() {
    assert_eq!(
        plan_physics_frame(&frame(true, true, false)),
        vec![ComputePass { stage: PhysicsStage::Integration, workgroups: 16 }]
    );
    assert_eq!(plan_physics_frame(&frame(true, false, true)).len(), 4);
    assert!(plan_physics_frame(&frame(true, false, false)).is_empty());
}

#[test]
fn empty_buffers_dispatch_no_workgroups() {
    let f = PhysicsFrame {
        buffers_ready: true,
        particle_buffer_bytes: 0,
        constraint_buffer_bytes: 15,
        integration_ready: true,
        solver_ready: true,
    };
    let passes = plan_physics_frame(&f);
    assert!(passes.iter().all(|p| p.workgroups == 0));
    assert_eq!(passes.len(), 5);
}

#[test]
fn draw_needs_both_buffers() {
    assert_eq!(
        plan_npc_draw(true, true),
        NpcDraw::Draw { bind_group: PARTICLE_BIND_GROUP, indirect_offset: 0 }
    );
    assert_eq!(PARTICLE_BIND_GROUP, 2);
    assert_eq!(plan_npc_draw(false, true), NpcDraw::Failure);
    assert_eq!(plan_npc_draw(true, false), NpcDraw::Failure);
    assert_eq!(plan_npc_draw(false, false), NpcDraw::Failure);
}

fn keys() -> FlyKeys {
    FlyKeys {
        forward: false,
        back: false,
        left: false,
        right: false,
        up: false,
        down: false,
        turn_left: false,
        turn_right: false,
        pitch_up: false,
        pitch_down: false,
    }
}

#[test]
fn no_keys_no_motion() {
    assert_eq!(fly_intent(&keys()), FlyIntent { forward: 0, right: 0, up: 0, yaw: 0, pitch: 0 });
}

#[test]
fn each_key_drives_its_axis() {
    assert_eq!(fly_intent(&FlyKeys { forward: true, ..keys() }).forward, 1);
    assert_eq!(fly_intent(&FlyKeys { back: true, ..keys() }).forward, -1);
    assert_eq!(fly_intent(&FlyKeys { right: true, ..keys() }).right, 1);
    assert_eq!(fly_intent(&FlyKeys { left: true, ..keys() }).right, -1);
    assert_eq!(fly_intent(&FlyKeys { up: true, ..keys() }).up, 1);
    assert_eq!(fly_intent(&FlyKeys { down: true, ..keys() }).up, -1);
    assert_eq!(fly_intent(&FlyKeys { turn_left: true, ..keys() }).yaw, 1);
    assert_eq!(fly_intent(&FlyKeys { turn_right: true, ..keys() }).yaw, -1);
    assert_eq!(fly_intent(&FlyKeys { pitch_up: true, ..keys() }).pitch, 1);
    assert_eq!(fly_intent(&FlyKeys { pitch_down: true, ..keys() }).pitch, -1);
}

#[test]
fn opposite_keys_cancel() {
    let all = FlyKeys {
        forward: true,
        back: true,
        left: true,
        right: true,
        up: true,
        down: true,
        turn_left: true,
        turn_right: true,
        pitch_up: true,
        pitch_down: true,
    };
    assert_eq!(fly_intent(&all), FlyIntent { forward: 0, right: 0, up: 0, yaw: 0, pitch: 0 });
}

#[test]
fn pipeline_keys_and_labels() {
    let integrate = PhysicsStage::Integration.pipeline_key();
    let solve = PhysicsStage::Solver.pipeline_key();
    assert_eq!(integrate.entry_point, "integrate");
    assert_eq!(solve.entry_point, "solve_constraints");
    assert_eq!(integrate.label(), "Physics_integrate");
    assert_eq!(solve.label(), "Physics_solve_constraints");
    assert_eq!(PhysicsPipelineKey { entry_point: "" }.label(), "Physics_");
}

#[test]
fn joint_position_finds_the_first_match() {
    let joints = vec![7, 3, 9, 3];
    assert_eq!(joint_position(&joints, 3), Some(1));
    assert_eq!(joint_position(&joints, 7), Some(0));
    assert_eq!(joint_position(&joints, 4), None);
    assert_eq!(joint_position(&Vec::new(), 0), None);
}

#[test]
fn skeleton_links_follow_the_hierarchy() {
    // joints are nodes 10 (root), 11, 12, 13; node 99 is a child that is not a joint.
    let joints = vec![10, 11, 12, 13];
    let children = vec![vec![11, 99, 13], vec![12], vec![], vec![]];
    let links = skeleton_links(&joints, &children);
    assert_eq!(
        links,
        vec![
            JointLink { node_a: 0, node_b: 1 },
            JointLink { node_a: 0, node_b: 3 },
            JointLink { node_a: 1, node_b: 2 }
        ]
    );
    assert!(skeleton_links(&Vec::new(), &Vec::new()).is_empty());
}

#[test]
fn skeleton_links_name_only_joints() {
    let joints = vec![5, 6, 7];
    let children = vec![vec![6, 7, 8], vec![5], vec![1, 2]];
    for l in skeleton_links(&joints, &children) {
        assert!((l.node_a as usize) < joints.len());
        assert!((l.node_b as usize) < joints.len());
        assert!(children[l.node_a as usize].contains(&joints[l.node_b as usize]));
    }
}

#[test]
fn link_constraints_carry_rest_lengths() {
    let links = vec![JointLink { node_a: 0, node_b: 1 }, JointLink { node_a: 1, node_b: 2 }];
    let rests = vec![0.5f32.to_bits(), 2.0f32.to_bits()];
    let cs = link_constraints(&links, &rests, 1.0f32.to_bits());
    assert_eq!(cs.len(), 2);
    assert_eq!((cs[1].node_a, cs[1].node_b), (1, 2));
    assert_eq!(f32::from_bits(cs[1].rest_length_bits), 2.0);
    assert_eq!(f32::from_bits(cs[0].stiffness_bits), 1.0);
}

#[test]
fn index_counts_add_up() {
    assert_eq!(total_index_count(&vec![1500, 606]), 2106);
    assert_eq!(total_index_count(&Vec::new()), 0);
    assert_eq!(total_index_count(&vec![(1usize << 32) + 4, 6]), 10);
}

#[test]
fn index_total_fits_u32() {
    assert!(index_total_fits(&vec![u32::MAX as usize]));
    assert!(!index_total_fits(&vec![u32::MAX as usize, 1]));
    assert!(index_total_fits(&Vec::new()));
    assert_eq!(total_index_count(&vec![u32::MAX as usize - 1, 1]), u32::MAX);
}

#[test]
fn rounded_count_is_covered_above_two_to_the_24() {
    // 2^24 + 3 rounds up to 2^24 + 4: 2^18 + 1 groups.
    assert_eq!(workgroup_count((1 << 24) + 3), (1 << 18) + 1);
}
