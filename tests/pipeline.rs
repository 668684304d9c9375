use scene_physics::filter::{ends_with, CollisionFilterPolicy};
use scene_physics::respawn::{respawn_fallen, DynamicBody};
use scene_physics::scene::{collidable_primitives, CollidablePrimitive, SceneAsset, SceneError, SceneNode};
use scene_physics::spawn::{spawn_fixed_bodies, SynthesisOutcome};
use scene_physics::world::{AssetLoadTracker, CollisionWorld, LoadState, PipelineAction};

type Pos = (f32, f32, f32);

fn node(name: &str, transform: Pos, mesh: Option<usize>) -> Option<SceneNode<Pos>> {
    Some(SceneNode { name: name.to_string(), transform, mesh })
}

/// Nodes: a collision node with two primitives, a decorative node, a
/// collision node without mesh, a node whose data is missing, a collision
/// node whose mesh index is out of range, and one whose mesh is missing.
fn city() -> SceneAsset<Pos> {
    SceneAsset {
        scene_count: 1,
        nodes: vec![
            node("wall_collision", (1.0, 2.0, 3.0), Some(0)),
            node("tree", (4.0, 0.0, 0.0), Some(1)),
            node("floor_collision", (0.0, 0.0, 0.0), None),
            None,
            node("roof_collision", (0.0, 9.0, 0.0), Some(7)),
            node("pillar_collision", (5.0, 0.0, 5.0), Some(2)),
        ],
        meshes: vec![Some(vec![10, 11]), Some(vec![12]), None],
    }
}

fn prim(node: usize, primitive: usize) -> CollidablePrimitive {
    CollidablePrimitive { node, primitive }
}

#[test]
fn suffix_match() {
    assert!(ends_with("wall_collision", "_collision"));
    assert!(ends_with("_collision", "_collision"));
    assert!(ends_with("anything", ""));
    assert!(!ends_with("collision", "_collision"));
    assert!(!ends_with("wall_collision_lod", "_collision"));
    assert!(!ends_with("", "_collision"));
}

#[test]
fn policies_accept_names() {
    let marker = CollisionFilterPolicy::collision_marker();
    assert!(marker.accepts("stairs_collision"));
    assert!(!marker.accepts("stairs"));
    assert!(CollisionFilterPolicy::AllMeshNodes.accepts("stairs"));
    let custom = CollisionFilterPolicy::NameSuffix("-col".to_string());
    assert!(custom.accepts("box-col"));
    assert!(!custom.accepts("box_collision"));
}

#[test]
fn walk_keeps_only_marked_mesh_nodes() {
    let asset = city();
    let items = collidable_primitives(&asset, &CollisionFilterPolicy::collision_marker()).unwrap();
    assert_eq!(items, vec![prim(0, 10), prim(0, 11)]);
}

#[test]
fn walk_with_all_mesh_nodes() {
    let asset = city();
    let items = collidable_primitives(&asset, &CollisionFilterPolicy::AllMeshNodes).unwrap();
    assert_eq!(items, vec![prim(0, 10), prim(0, 11), prim(1, 12)]);
}

#[test]
fn walk_of_asset_without_scenes_fails() {
    let mut asset = city();
    asset.scene_count = 0;
    let r = collidable_primitives(&asset, &CollisionFilterPolicy::AllMeshNodes);
    assert_eq!(r, Err(SceneError::NoScenes));
}

#[test]
fn walk_of_scene_without_nodes_is_empty() {
    let asset: SceneAsset<Pos> = SceneAsset { scene_count: 2, nodes: vec![], meshes: vec![] };
    let r = collidable_primitives(&asset, &CollisionFilterPolicy::AllMeshNodes);
    assert_eq!(r, Ok(vec![]));
}

#[test]
fn one_failed_primitive_does_not_stop_the_rest() {
    let asset = SceneAsset {
        scene_count: 1,
        nodes: vec![
            node("a_collision", (0.0, 0.0, 0.0), Some(0)),
            node("b_collision", (1.0, 0.0, 0.0), Some(1)),
        ],
        meshes: vec![Some(vec![1, 2]), Some(vec![3])],
    };
    let items = collidable_primitives(&asset, &CollisionFilterPolicy::collision_marker()).unwrap();
    assert_eq!(items.len(), 3);
    let outcomes = vec![
        SynthesisOutcome::Built("s1"),
        SynthesisOutcome::Failed,
        SynthesisOutcome::Built("s3"),
    ];
    let report = spawn_fixed_bodies(&asset, &items, outcomes);
    assert_eq!(report.bodies.len(), 2);
    assert_eq!(report.failures, 1);
    assert_eq!(report.bodies[0].collider, "s1");
    assert_eq!(report.bodies[0].node, 0);
    assert_eq!(report.bodies[1].collider, "s3");
    assert_eq!(report.bodies[1].node, 1);
    assert_eq!(report.bodies[1].transform, (1.0, 0.0, 0.0));
}

#[test]
fn missing_mesh_is_skipped_without_report() {
    let asset = city();
    let items = collidable_primitives(&asset, &CollisionFilterPolicy::collision_marker()).unwrap();
    let outcomes = vec![SynthesisOutcome::MeshMissing, SynthesisOutcome::Built(7u32)];
    let report = spawn_fixed_bodies(&asset, &items, outcomes);
    assert_eq!(report.failures, 0);
    assert_eq!(report.bodies.len(), 1);
    assert_eq!(report.bodies[0].collider, 7);
}

#[test]
fn body_stands_at_its_node_transform() {
    let asset = city();
    let mut world: CollisionWorld<Pos, u32> = CollisionWorld::new();
    world.apply_pass(
        &asset,
        &CollisionFilterPolicy::collision_marker(),
        vec![SynthesisOutcome::Built(1), SynthesisOutcome::Built(2)],
    );
    let bodies = world.fixed_bodies();
    assert_eq!(bodies.len(), 2);
    for b in bodies {
        assert_eq!(b.transform, (1.0, 2.0, 3.0));
        assert_eq!(b.node, 0);
    }
}

#[test]
fn second_pass_spawns_nothing() {
    let asset = city();
    let policy = CollisionFilterPolicy::AllMeshNodes;
    let mut world: CollisionWorld<Pos, u32> = CollisionWorld::new();
    assert_eq!(world.next_action(true), PipelineAction::Synthesize);
    world.apply_pass(
        &asset,
        &policy,
        vec![SynthesisOutcome::Built(1), SynthesisOutcome::Failed, SynthesisOutcome::Built(3)],
    );
    assert_eq!(world.fixed_bodies().len(), 2);
    assert_eq!(world.error_count(), 1);
    assert_eq!(world.load_state(), LoadState::Loaded);
    assert_eq!(world.next_action(true), PipelineAction::Idle);
    world.apply_pass(
        &asset,
        &policy,
        vec![SynthesisOutcome::Built(1), SynthesisOutcome::Failed, SynthesisOutcome::Built(3)],
    );
    assert_eq!(world.fixed_bodies().len(), 2);
    assert_eq!(world.error_count(), 1);
}

#[test]
fn empty_scene_reports_one_error() {
    let mut asset = city();
    asset.scene_count = 0;
    let mut world: CollisionWorld<Pos, u32> = CollisionWorld::new();
    world.apply_pass(&asset, &CollisionFilterPolicy::collision_marker(), vec![]);
    assert_eq!(world.fixed_bodies().len(), 0);
    assert_eq!(world.error_count(), 1);
    assert_eq!(world.load_state(), LoadState::Loaded);
    world.apply_pass(&asset, &CollisionFilterPolicy::collision_marker(), vec![]);
    assert_eq!(world.error_count(), 1);
}

#[test]
fn waits_while_asset_streams() {
    let world: CollisionWorld<Pos, u32> = CollisionWorld::new();
    assert_eq!(world.load_state(), LoadState::Pending);
    assert_eq!(world.next_action(false), PipelineAction::Wait);
    assert_eq!(world.next_action(true), PipelineAction::Synthesize);
}

#[test]
fn tracker_goes_to_loaded_once() {
    let mut t = AssetLoadTracker::new();
    assert_eq!(t.poll(), LoadState::Pending);
    t.mark_loaded();
    assert_eq!(t.poll(), LoadState::Loaded);
    t.mark_loaded();
    assert_eq!(t.poll(), LoadState::Loaded);
}

#[test]
fn fallen_bodies_return_to_spawn() {
    let spawn: Pos = (2.0, 1.625, 0.0);
    let rest: Pos = (0.0, 0.0, 0.0);
    let mut bodies = vec![
        DynamicBody { position: (0.0, -60.0, 1.0), velocity: (0.0, -9.0, 0.0) },
        DynamicBody { position: (3.0, -50.0, 0.0), velocity: (1.0, -2.0, 0.0) },
        DynamicBody { position: (3.0, -49.9, 0.0), velocity: (1.0, -2.0, 0.0) },
        DynamicBody { position: (0.0, 10.0, 0.0), velocity: (0.0, 0.0, 5.0) },
    ];
    let fallen: Vec<bool> = bodies.iter().map(|b| b.position.1 <= -50.0).collect();
    respawn_fallen(&mut bodies, &fallen, spawn, rest);
    assert_eq!(bodies[0].position, spawn);
    assert_eq!(bodies[0].velocity, rest);
    assert_eq!(bodies[1].position, spawn);
    assert_eq!(bodies[1].velocity, rest);
    assert_eq!(bodies[2].position, (3.0, -49.9, 0.0));
    assert_eq!(bodies[2].velocity, (1.0, -2.0, 0.0));
    assert_eq!(bodies[3].position, (0.0, 10.0, 0.0));
    assert_eq!(bodies[3].velocity, (0.0, 0.0, 5.0));
}

#[test]
fn player_body_follows_its_rules() {
    let r = scene_physics::player::player_body_rules();
    assert_eq!(r.friction_combine, scene_physics::player::CombineRule::Min);
    assert_eq!(r.restitution_combine, scene_physics::player::CombineRule::Min);
    assert!(r.rotation_locked);
    assert!(r.continuous_collision);
    assert!(!r.world_gravity);
    assert!(!r.can_sleep);
}

#[test]
fn empty_scene_reports_one_error_over_many_ticks() {
    let mut asset = city();
    asset.scene_count = 0;
    let policy = CollisionFilterPolicy::collision_marker();
    let mut world: CollisionWorld<Pos, u32> = CollisionWorld::new();
    for _ in 0..5 {
        if world.next_action(true) == PipelineAction::Synthesize {
            world.apply_pass(&asset, &policy, vec![]);
        }
        assert_eq!(world.fixed_bodies().len(), 0);
        assert_eq!(world.error_count(), 1);
    }
}
