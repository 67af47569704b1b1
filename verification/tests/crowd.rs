use npc_physics::constraint::replication_fits;
use npc_physics::constraint::{replicate_constraints, DistanceConstraints};
use npc_physics::gpu_buffers::{
    constraint_buffer_bytes, constraints_to_words, indirect_buffer_bytes, DrawIndexedIndirectArgs,
};
use npc_physics::grid::{grid_cell, grid_cells, GridCell};
use npc_physics::population::{plan_population, GRID_COLUMNS, NPC_COUNT};

fn link(a: u32, b: u32, rest: f32) -> DistanceConstraints {
    DistanceConstraints {
        node_a: a,
        node_b: b,
        rest_length_bits: rest.to_bits(),
        stiffness_bits: 1.0f32.to_bits(),
    }
}

#[test]
fn grid_cell_splits_index_by_columns() {
    assert_eq!(grid_cell(0, 223), GridCell { column: 0, row: 0 });
    assert_eq!(grid_cell(222, 223), GridCell { column: 222, row: 0 });
    assert_eq!(grid_cell(223, 223), GridCell { column: 0, row: 1 });
    assert_eq!(grid_cell(49999, 223), GridCell { column: 49999 % 223, row: 49999 / 223 });
    assert_eq!(grid_cell(49999, 223), GridCell { column: 47, row: 224 });
    assert_eq!(grid_cell(317, 316), GridCell { column: 1, row: 1 });
}

#[test]
fn grid_cells_are_distinct_and_in_order() {
    let cells = grid_cells(7, 3);
    assert_eq!(cells.len(), 7);
    for (i, c) in cells.iter().enumerate() {
        assert!(c.column < 3);
        assert_eq!(c.row * 3 + c.column, i);
    }
    for i in 0..cells.len() {
        for j in 0..cells.len() {
            if i != j {
                assert_ne!(cells[i], cells[j]);
            }
        }
    }
    assert!(grid_cells(0, 5).is_empty());
}

#[test]
fn shift_moves_both_indices_only() {
    let c = link(1, 2, 0.5);
    let m = c.shift(10);
    assert_eq!(m, DistanceConstraints { node_a: 11, node_b: 12, ..c });
    assert_eq!(f32::from_bits(m.rest_length_bits), 0.5);
}

#[test]
fn replication_gives_each_npc_its_own_particles() {
    let template = vec![link(0, 1, 1.0), link(1, 2, 2.0)];
    let all = replicate_constraints(&template, 3, 3);
    assert_eq!(all.len(), 6);
    let pairs: Vec<(u32, u32)> = all.iter().map(|c| (c.node_a, c.node_b)).collect();
    assert_eq!(pairs, vec![(0, 1), (1, 2), (3, 4), (4, 5), (6, 7), (7, 8)]);
    for (k, c) in all.iter().enumerate() {
        let npc = (k / template.len()) as u32;
        assert!(npc * 3 <= c.node_a && c.node_a < npc * 3 + 3);
        assert!(npc * 3 <= c.node_b && c.node_b < npc * 3 + 3);
        assert_eq!(c.rest_length_bits, template[k % 2].rest_length_bits);
        assert_eq!(c.stiffness_bits, template[k % 2].stiffness_bits);
    }
}

#[test]
fn replication_edge_cases() {
    let template = vec![link(0, 1, 1.0)];
    assert!(replicate_constraints(&template, 2, 0).is_empty());
    assert!(replicate_constraints(&Vec::new(), 5, 4).is_empty());
    let one = replicate_constraints(&template, 2, 1);
    assert_eq!(one, template);
}

#[test]
fn replication_reaches_the_top_of_the_index_space() {
    // two NPCs of 2^31 particles: the second NPC's offset is 2^31
    let template = vec![link(0, 0x7fff_ffff, 1.0)];
    let all = replicate_constraints(&template, 0x8000_0000, 2);
    assert_eq!(all[1].node_a, 0x8000_0000);
    assert_eq!(all[1].node_b, u32::MAX);
}

#[test]
fn constraint_words_follow_field_order() {
    let cs = vec![link(1, 2, 0.25), link(3, 4, 1.5)];
    let words = constraints_to_words(&cs);
    assert_eq!(
        words,
        vec![
            1,
            2,
            0.25f32.to_bits(),
            1.0f32.to_bits(),
            3,
            4,
            1.5f32.to_bits(),
            1.0f32.to_bits()
        ]
    );
}

#[test]
fn constraint_bytes_are_native_words() {
    let cs = vec![link(0x0102_0304, 5, 2.0)];
    let bytes = constraint_buffer_bytes(&cs);
    assert_eq!(bytes.len(), 16);
    let mut expected = Vec::new();
    for w in [0x0102_0304u32, 5, 2.0f32.to_bits(), 1.0f32.to_bits()] {
        expected.extend_from_slice(&w.to_ne_bytes());
    }
    assert_eq!(bytes, expected);
    assert!(constraint_buffer_bytes(&Vec::new()).is_empty());
}

#[test]
fn indirect_command_for_the_crowd() {
    let args = DrawIndexedIndirectArgs::for_population(2106, 50000);
    assert_eq!(
        args,
        DrawIndexedIndirectArgs {
            index_count: 2106,
            instance_count: 50000,
            first_index: 0,
            base_vertex: 0,
            first_instance: 0
        }
    );
    assert_eq!(args.to_words(), vec![2106, 50000, 0, 0, 0]);
    let bytes = indirect_buffer_bytes(&args);
    assert_eq!(bytes.len(), 20);
    assert_eq!(&bytes[0..4], &2106u32.to_ne_bytes());
    assert_eq!(&bytes[4..8], &50000u32.to_ne_bytes());
    assert!(bytes[8..].iter().all(|b| *b == 0));
}

#[test]
fn indirect_command_truncates_instance_count_like_a_u32_cast() {
    let args = DrawIndexedIndirectArgs::for_population(6, (1usize << 32) + 7);
    assert_eq!(args.instance_count, 7);
}

#[test]
fn negative_base_vertex_is_twos_complement() {
    let args = DrawIndexedIndirectArgs { base_vertex: -1, ..DrawIndexedIndirectArgs::default() };
    assert_eq!(args.to_words(), vec![0, 0, 0, u32::MAX, 0]);
    assert_eq!(
        DrawIndexedIndirectArgs::default(),
        DrawIndexedIndirectArgs {
            index_count: 0,
            instance_count: 0,
            first_index: 0,
            base_vertex: 0,
            first_instance: 0
        }
    );
}

#[test]
fn population_plan_for_a_small_crowd() {
    let template = vec![link(0, 1, 1.0), link(0, 2, 1.0)];
    let crowd = plan_population(&template, 3, 36, 5, 2);
    assert_eq!(crowd.particle_count, 15);
    assert_eq!(crowd.cells.len(), 5);
    assert_eq!(crowd.cells[4], GridCell { column: 0, row: 2 });
    assert_eq!(crowd.constraints.len(), 10);
    assert_eq!((crowd.constraints[9].node_a, crowd.constraints[9].node_b), (12, 14));
    assert_eq!(crowd.indirect.index_count, 36);
    assert_eq!(crowd.indirect.instance_count, 5);
    for c in &crowd.constraints {
        assert!((c.node_a as usize) < crowd.particle_count);
        assert!((c.node_b as usize) < crowd.particle_count);
    }
}

#[test]
fn population_plan_for_the_full_crowd() {
    let template = vec![link(0, 1, 1.0), link(1, 2, 1.0), link(1, 3, 1.0)];
    let crowd = plan_population(&template, 4, 2106, NPC_COUNT, GRID_COLUMNS);
    assert_eq!(crowd.particle_count, 200000);
    assert_eq!(crowd.constraints.len(), 150000);
    assert_eq!(crowd.cells[NPC_COUNT - 1], GridCell { column: 47, row: 224 });
    let last = crowd.constraints[149999];
    assert_eq!((last.node_a, last.node_b), (199997, 199999));
}

#[test]
fn replication_fits_only_when_every_index_fits_u32() {
    let template = vec![link(0, 1, 1.0)];
    assert!(replication_fits(&template, 2, NPC_COUNT));
    assert!(replication_fits(&template, 2, 0));
    assert!(replication_fits(&Vec::new(), usize::MAX, 1));
    // the third NPC would start at 2^32
    assert!(!replication_fits(&template, 1 << 31, 3));
    // the second NPC starts at 2^32 - 1; its node 1 would be 2^32
    assert!(!replication_fits(&template, u32::MAX as usize, 2));
    assert!(replication_fits(&vec![link(0, 0, 1.0)], u32::MAX as usize, 2));
    // particle count overflows usize
    assert!(!replication_fits(&template, usize::MAX, 2));
}
