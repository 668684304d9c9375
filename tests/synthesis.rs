use bevy::asset::RenderAssetUsages;
use bevy::render::mesh::{Indices, Mesh, PrimitiveTopology};
use scene_physics::scene::{collidable_primitives, CollidablePrimitive, SceneAsset, SceneNode};
use scene_physics::filter::CollisionFilterPolicy;
use scene_physics::spawn::{spawn_fixed_bodies, SynthesisOutcome};
use scene_physics::synth::{outcome_of, synthesize_collider, synthesize_walk, triangle_list_valid};

fn mesh(positions: Vec<[f32; 3]>, indices: Option<Vec<u32>>) -> Mesh {
    let m = Mesh::new(PrimitiveTopology::TriangleList, RenderAssetUsages::default())
        .with_inserted_attribute(Mesh::ATTRIBUTE_POSITION, positions);
    match indices {
        Some(i) => m.with_inserted_indices(Indices::U32(i)),
        None => m,
    }
}

fn quad() -> Mesh {
    mesh(
        vec![[0.0, 0.0, 0.0], [1.0, 0.0, 0.0], [1.0, 0.0, 1.0], [0.0, 0.0, 1.0]],
        Some(vec![0, 1, 2, 0, 2, 3]),
    )
}

#[test]
fn triangle_list_checks() {
    assert!(triangle_list_valid(&vec![0, 1, 2], 3));
    assert!(triangle_list_valid(&vec![0, 1, 2, 9], 3));
    assert!(!triangle_list_valid(&vec![0, 1], 3));
    assert!(!triangle_list_valid(&vec![], 3));
    assert!(!triangle_list_valid(&vec![0, 1, 3], 3));
}

#[test]
fn outcome_of_built_and_absent() {
    assert!(matches!(outcome_of(Some(5u8)), SynthesisOutcome::Built(5)));
    assert!(matches!(outcome_of::<u8>(None), SynthesisOutcome::Failed));
}

#[test]
fn collider_from_valid_mesh_is_built() {
    let m = quad();
    assert!(matches!(synthesize_collider(Some(&m)), SynthesisOutcome::Built(_)));
}

#[test]
fn missing_mesh_is_not_a_failure() {
    assert!(matches!(synthesize_collider(None), SynthesisOutcome::MeshMissing));
}

#[test]
fn mesh_without_indices_fails() {
    let m = mesh(vec![[0.0, 0.0, 0.0], [1.0, 0.0, 0.0], [1.0, 0.0, 1.0]], None);
    assert!(matches!(synthesize_collider(Some(&m)), SynthesisOutcome::Failed));
}

#[test]
fn mesh_without_triangles_fails() {
    let m = mesh(vec![[0.0, 0.0, 0.0], [1.0, 0.0, 0.0]], Some(vec![0, 1]));
    assert!(matches!(synthesize_collider(Some(&m)), SynthesisOutcome::Failed));
}

#[test]
fn mesh_with_out_of_range_index_fails() {
    let m = mesh(vec![[0.0, 0.0, 0.0], [1.0, 0.0, 0.0], [1.0, 0.0, 1.0]], Some(vec![0, 1, 7]));
    assert!(matches!(synthesize_collider(Some(&m)), SynthesisOutcome::Failed));
}

#[test]
fn one_broken_mesh_among_three() {
    let asset = SceneAsset {
        scene_count: 1,
        nodes: vec![
            Some(SceneNode { name: "a_collision".to_string(), transform: (0.0f32, 0.0f32, 0.0f32), mesh: Some(0) }),
            Some(SceneNode { name: "b_collision".to_string(), transform: (1.0f32, 2.0f32, 3.0f32), mesh: Some(1) }),
        ],
        meshes: vec![Some(vec![0, 1]), Some(vec![2])],
    };
    let store = vec![quad(), mesh(vec![[0.0, 0.0, 0.0]], Some(vec![])), quad()];
    let items = collidable_primitives(&asset, &CollisionFilterPolicy::collision_marker()).unwrap();
    let resolved: Vec<Option<&Mesh>> = store.iter().map(Some).collect();
    let outcomes = synthesize_walk(&items, &resolved);
    assert!(matches!(outcomes[1], SynthesisOutcome::Failed));
    let report = spawn_fixed_bodies(&asset, &items, outcomes);
    assert_eq!(report.bodies.len(), 2);
    assert_eq!(report.failures, 1);
    assert_eq!(report.bodies[1].transform, (1.0, 2.0, 3.0));
}

#[test]
fn walk_synthesis_marks_unresolved_meshes() {
    let items = vec![
        CollidablePrimitive { node: 0, primitive: 0 },
        CollidablePrimitive { node: 0, primitive: 1 },
        CollidablePrimitive { node: 1, primitive: 5 },
        CollidablePrimitive { node: 1, primitive: 2 },
    ];
    let q = quad();
    let empty = mesh(vec![[0.0, 0.0, 0.0]], None);
    let resolved: Vec<Option<&Mesh>> = vec![Some(&q), None, Some(&empty)];
    let outcomes = synthesize_walk(&items, &resolved);
    assert_eq!(outcomes.len(), 4);
    assert!(matches!(outcomes[0], SynthesisOutcome::Built(_)));
    assert!(matches!(outcomes[1], SynthesisOutcome::MeshMissing));
    assert!(matches!(outcomes[2], SynthesisOutcome::MeshMissing));
    assert!(matches!(outcomes[3], SynthesisOutcome::Failed));
}
