use khimoo_portfolio::drag::{node_at, DragAction, DragController, DragState};
use khimoo_portfolio::fixed::isqrt;
use khimoo_portfolio::forces::{BodyKind, ForceSettings};
use khimoo_portfolio::registry::{calculate_dynamic_radius, NodeRegistry, RegistryError};
use khimoo_portfolio::types::{ContainerBound, NodeContent, NodeId, Position, Vec2};
use khimoo_portfolio::viewport::Viewport;
use khimoo_portfolio::world::PhysicsWorld;

fn text(s: &str) -> NodeContent {
    NodeContent::Text(s.to_string())
}

fn pos_of(world: &PhysicsWorld, id: u32) -> Position {
    world.registry().position_of(NodeId(id)).unwrap()
}

fn quiet_settings() -> ForceSettings {
    let mut s = ForceSettings::default();
    s.repulsion_strength = 0;
    s.center_strength = 0;
    s.center_damping = 0;
    s.author_attraction_strength = 0;
    s.author_attraction_damping = 0;
    s
}

#[test]
fn two_close_nodes_move_apart_after_one_step() {
    let mut reg = NodeRegistry::new();
    reg.add_node(NodeId(1), Position::new(0, 0), 10, text("A")).unwrap();
    reg.add_node(NodeId(2), Position::new(5, 0), 10, text("B")).unwrap();
    let mut settings = ForceSettings::default();
    settings.repulsion_min_distance = 20_000;
    let vp = Viewport::new();
    let mut world = PhysicsWorld::new(reg, &vp, settings, ContainerBound::zero());
    world.step(&vp);
    let a = pos_of(&world, 1);
    let b = pos_of(&world, 2);
    let dx = (b.x - a.x) as i64;
    let dy = (b.y - a.y) as i64;
    assert!(dx * dx + dy * dy > 25);
    assert_eq!(a, Position::new(-243, 0));
    assert_eq!(b, Position::new(247, 0));
}

#[test]
fn pinned_author_never_moves() {
    let mut reg = NodeRegistry::new();
    let author = NodeContent::Author {
        name: "Me".to_string(),
        image_url: "me.png".to_string(),
        bio: None,
    };
    reg.add_node(NodeId(0), Position::new(400, 300), 60, author).unwrap();
    for i in 1..5u32 {
        reg.add_node(NodeId(i), Position::new(380 + 10 * i as i32, 310), 30, text("n")).unwrap();
        reg.add_edge(NodeId(0), NodeId(i));
    }
    let mut settings = ForceSettings::default();
    settings.author_fixed_position = true;
    let bound = ContainerBound { x: 0, y: 0, width: 800, height: 600, top: 0, left: 0, bottom: 600, right: 800 };
    let vp = Viewport::new();
    let mut world = PhysicsWorld::new(reg, &vp, settings, bound);
    assert_eq!(world.bodies[0].kind, BodyKind::Kinematic);
    for _ in 0..50 {
        world.step(&vp);
        assert_eq!(pos_of(&world, 0), Position::new(400, 300));
    }
    assert_ne!(pos_of(&world, 1), Position::new(390, 310));
}

#[test]
fn edge_to_unknown_node_is_dropped() {
    let mut reg = NodeRegistry::new();
    reg.add_node(NodeId(1), Position::new(0, 0), 10, text("A")).unwrap();
    reg.add_node(NodeId(2), Position::new(100, 0), 10, text("B")).unwrap();
    reg.add_edge(NodeId(1), NodeId(9));
    reg.add_edge(NodeId(1), NodeId(2));
    let vp = Viewport::new();
    let world = PhysicsWorld::new(reg, &vp, ForceSettings::default(), ContainerBound::zero());
    assert_eq!(world.joints.len(), 1);
    assert_eq!((world.joints[0].a, world.joints[0].b), (0, 1));
    assert_eq!(world.registry().edges.len(), 2);
}

#[test]
fn kinematic_node_shows_exactly_where_placed() {
    let mut reg = NodeRegistry::new();
    reg.add_node(NodeId(1), Position::new(0, 0), 20, text("A")).unwrap();
    reg.add_node(NodeId(2), Position::new(15, 5), 20, text("B")).unwrap();
    let vp = Viewport::with_scale(Position::new(7, -3), 1500);
    let mut world = PhysicsWorld::new(reg, &vp, ForceSettings::default(), ContainerBound::zero());
    world.set_node_kinematic(NodeId(1));
    world.set_node_position(NodeId(1), &Position::new(123, -45), &vp);
    world.step(&vp);
    assert_eq!(pos_of(&world, 1), Position::new(123, -45));
    world.step(&vp);
    assert_eq!(pos_of(&world, 1), Position::new(123, -45));
}

#[test]
fn released_node_keeps_dragged_position() {
    let mut reg = NodeRegistry::new();
    reg.add_node(NodeId(1), Position::new(0, 0), 20, text("A")).unwrap();
    let vp = Viewport::new();
    let mut world = PhysicsWorld::new(reg, &vp, quiet_settings(), ContainerBound::zero());
    world.set_node_kinematic(NodeId(1));
    world.set_node_position(NodeId(1), &Position::new(200, 100), &vp);
    world.step(&vp);
    world.set_node_dynamic(NodeId(1));
    assert_eq!(world.bodies[0].kind, BodyKind::Dynamic);
    assert_eq!(world.bodies[0].pos, Vec2 { x: 200_000, y: 100_000 });
    for _ in 0..10 {
        world.step(&vp);
    }
    assert_eq!(pos_of(&world, 1), Position::new(200, 100));
}

#[test]
fn viewport_round_trip() {
    let vps = [
        Viewport::new(),
        Viewport::with_scale(Position::new(13, -7), 2500),
        Viewport::with_scale(Position::new(-1000, 50), 1),
        Viewport::with_scale(Position::new(5, 5), 1_000_000),
        Viewport::with_scale(Position::new(0, 0), 333),
    ];
    let points = [
        Position::new(0, 0),
        Position::new(1, -1),
        Position::new(-37, 1999),
        Position::new(i32::MAX, i32::MIN),
        Position::new(640, 480),
    ];
    for vp in vps.iter() {
        for p in points.iter() {
            let q = vp.screen_to_physics(p);
            assert_eq!(vp.physics_to_screen(&q), *p);
        }
    }
}

#[test]
fn screen_to_physics_scales_and_offsets() {
    let vp = Viewport::with_scale(Position::new(10, 20), 500);
    assert_eq!(vp.screen_to_physics(&Position::new(11, 20)), Vec2 { x: 2000, y: 0 });
    assert_eq!(vp.screen_to_physics(&Position::new(9, 19)), Vec2 { x: -2000, y: -2000 });
    assert_eq!(vp.physics_to_screen(&Vec2 { x: 4000, y: -1 }), Position::new(12, 20));
}

#[test]
fn clustering_off_leaves_same_category_nodes_alone() {
    let build = |enabled: bool| {
        let mut reg = NodeRegistry::new();
        reg.add_node(NodeId(1), Position::new(0, 0), 10, text("A")).unwrap();
        reg.add_node(NodeId(2), Position::new(100, 0), 10, text("B")).unwrap();
        reg.set_node_category(NodeId(1), Some("rust".to_string()));
        reg.set_node_category(NodeId(2), Some("rust".to_string()));
        let mut s = quiet_settings();
        s.enable_category_clustering = enabled;
        s.category_attraction_strength = 50_000_000;
        let vp = Viewport::new();
        let mut world = PhysicsWorld::new(reg, &vp, s, ContainerBound::zero());
        for _ in 0..5 {
            world.step(&vp);
        }
        (pos_of(&world, 1), pos_of(&world, 2))
    };
    let (a, b) = build(false);
    assert_eq!(a, Position::new(0, 0));
    assert_eq!(b, Position::new(100, 0));
    let (a, b) = build(true);
    assert!(a.x > 0);
    assert!(b.x < 100);
}

#[test]
fn duplicate_id_is_refused() {
    let mut reg = NodeRegistry::new();
    assert_eq!(reg.add_node(NodeId(3), Position::new(0, 0), 10, text("A")), Ok(()));
    assert_eq!(
        reg.add_node(NodeId(3), Position::new(1, 1), 10, text("B")),
        Err(RegistryError::DuplicateId(NodeId(3)))
    );
    assert_eq!(reg.len(), 1);
}

#[test]
fn nodes_by_category_in_registry_order() {
    let mut reg = NodeRegistry::new();
    for i in 0..5u32 {
        reg.add_node(NodeId(i), Position::new(0, 0), 10, text("n")).unwrap();
    }
    reg.set_node_category(NodeId(4), Some("web".to_string()));
    reg.set_node_category(NodeId(1), Some("web".to_string()));
    reg.set_node_category(NodeId(2), Some("rust".to_string()));
    assert_eq!(reg.get_nodes_by_category(&"web".to_string()), vec![NodeId(1), NodeId(4)]);
    assert_eq!(reg.get_nodes_by_category(&"none".to_string()), Vec::<NodeId>::new());
}

#[test]
fn author_is_first_author_flagged_node() {
    let mut reg = NodeRegistry::new();
    reg.add_node(NodeId(5), Position::new(0, 0), 10, text("n")).unwrap();
    assert_eq!(reg.get_author_node_id(), None);
    reg.add_node(NodeId(0), Position::new(0, 0), 40, text("Author")).unwrap();
    reg.mark_author(NodeId(0));
    assert_eq!(reg.get_author_node_id(), Some(NodeId(0)));
    assert!(reg.is_author_node(NodeId(0)));
    assert!(!reg.is_author_node(NodeId(5)));
}

#[test]
fn dynamic_radius_values() {
    assert_eq!(calculate_dynamic_radius(30, Some(5), 4), 46);
    assert_eq!(calculate_dynamic_radius(30, Some(1), 0), 25);
    assert_eq!(calculate_dynamic_radius(30, Some(2), 9), 37);
    assert_eq!(calculate_dynamic_radius(30, None, 1000), 60);
    assert_eq!(calculate_dynamic_radius(10, Some(1), 0), 15);
    assert_eq!(calculate_dynamic_radius(30, Some(9), 3), 33);
}

#[test]
fn integer_square_root() {
    assert_eq!(isqrt(0), 0);
    assert_eq!(isqrt(24), 4);
    assert_eq!(isqrt(25), 5);
    assert_eq!(isqrt(u128::MAX), u64::MAX as u128);
}

#[test]
fn click_and_drag_are_told_apart() {
    let mut c = DragController::new();
    c.pointer_down(NodeId(7), Position::new(100, 100));
    assert_eq!(c.pointer_move(Position::new(103, 104)), DragAction::Nothing);
    assert_eq!(c.pointer_up(), DragAction::Activate { id: NodeId(7) });
    assert_eq!(c.state, DragState::Idle);

    c.pointer_down(NodeId(7), Position::new(100, 100));
    assert_eq!(
        c.pointer_move(Position::new(104, 104)),
        DragAction::BeginDrag { id: NodeId(7), pos: Position::new(104, 104) }
    );
    assert_eq!(
        c.pointer_move(Position::new(150, 90)),
        DragAction::MoveTo { id: NodeId(7), pos: Position::new(150, 90) }
    );
    assert_eq!(c.pointer_up(), DragAction::Release { id: NodeId(7) });
    assert_eq!(c.pointer_up(), DragAction::Nothing);
}

#[test]
fn drag_actions_drive_the_world() {
    let mut reg = NodeRegistry::new();
    reg.add_node(NodeId(1), Position::new(0, 0), 20, text("A")).unwrap();
    let vp = Viewport::new();
    let mut world = PhysicsWorld::new(reg, &vp, ForceSettings::default(), ContainerBound::zero());
    world.apply_drag_action(DragAction::BeginDrag { id: NodeId(1), pos: Position::new(50, 60) }, &vp);
    assert_eq!(world.bodies[0].kind, BodyKind::Kinematic);
    assert_eq!(world.bodies[0].pos, Vec2 { x: 50_000, y: 60_000 });
    world.apply_drag_action(DragAction::MoveTo { id: NodeId(1), pos: Position::new(70, 80) }, &vp);
    world.step(&vp);
    assert_eq!(pos_of(&world, 1), Position::new(70, 80));
    world.apply_drag_action(DragAction::Release { id: NodeId(1) }, &vp);
    assert_eq!(world.bodies[0].kind, BodyKind::Dynamic);
}

#[test]
fn center_author_and_container_center() {
    let b = ContainerBound { x: 10, y: -5, width: 101, height: 40, top: 0, left: 0, bottom: 0, right: 0 };
    assert_eq!(b.center(), Position::new(60, 15));
    let mut reg = NodeRegistry::new();
    reg.add_node(NodeId(0), Position::new(0, 0), 40, text("Author")).unwrap();
    reg.mark_author(NodeId(0));
    let vp = Viewport::new();
    let mut world = PhysicsWorld::new(reg, &vp, ForceSettings::default(), b);
    world.center_author_node(&vp);
    assert_eq!(pos_of(&world, 0), Position::new(60, 15));
    assert_eq!(world.bodies[0].pos, Vec2 { x: 60_000, y: 15_000 });
    world.set_author_node_fixed(true);
    assert!(world.force_settings.author_fixed_position);
    assert_eq!(world.bodies[0].kind, BodyKind::Kinematic);
}

#[test]
fn node_sizes_follow_importance_and_links() {
    let mut reg = NodeRegistry::new();
    reg.add_node(NodeId(1), Position::new(0, 0), 30, text("A")).unwrap();
    reg.add_node(NodeId(2), Position::new(90, 0), 30, text("B")).unwrap();
    let vp = Viewport::new();
    let mut world = PhysicsWorld::new(reg, &vp, ForceSettings::default(), ContainerBound::zero());
    world.update_all_node_sizes(&vec![(NodeId(2), Some(4), 16), (NodeId(2), Some(1), 0)]);
    assert_eq!(world.registry().radius_of(NodeId(1)), Some(30));
    assert_eq!(world.registry().radius_of(NodeId(2)), Some(47));
    assert_eq!(world.bodies[1].radius, 47_000);
    world.update_node_size(NodeId(1), -3);
    assert_eq!(world.bodies[0].radius, 0);
}

#[test]
fn debug_mode_and_lines_both_needed() {
    let vp = Viewport::new();
    let mut world = PhysicsWorld::new(NodeRegistry::new(), &vp, ForceSettings::default(), ContainerBound::zero());
    world.set_connection_lines_visible(true);
    assert!(!world.registry().show_connection_lines);
    world.set_debug_mode(true);
    assert!(world.registry().show_connection_lines);
    world.set_connection_lines_visible(false);
    assert!(!world.registry().show_connection_lines);
}

#[test]
fn lone_pair_gap_never_shrinks() {
    let mut reg = NodeRegistry::new();
    reg.add_node(NodeId(1), Position::new(0, 0), 10, text("A")).unwrap();
    reg.add_node(NodeId(2), Position::new(3, 4), 10, text("B")).unwrap();
    let mut s = quiet_settings();
    s.repulsion_strength = 50_000_000;
    let vp = Viewport::new();
    let mut world = PhysicsWorld::new(reg, &vp, s, ContainerBound::zero());
    let mut gap = (3i64, 4i64);
    for _ in 0..30 {
        world.step(&vp);
        let a = world.bodies[0].pos;
        let b = world.bodies[1].pos;
        let now = (b.x - a.x, b.y - a.y);
        assert!(now.0 >= gap.0 && now.1 >= gap.1);
        gap = now;
    }
    assert!(gap.0 > 40_000);
}

#[test]
fn pointer_hits_first_node_under_it() {
    let mut reg = NodeRegistry::new();
    reg.add_node(NodeId(1), Position::new(0, 0), 10, text("A")).unwrap();
    reg.add_node(NodeId(2), Position::new(15, 0), 10, text("B")).unwrap();
    assert_eq!(node_at(&reg, Position::new(6, 8)), Some(NodeId(1)));
    assert_eq!(node_at(&reg, Position::new(8, 0)), Some(NodeId(1)));
    assert_eq!(node_at(&reg, Position::new(12, 0)), Some(NodeId(2)));
    assert_eq!(node_at(&reg, Position::new(20, 5)), Some(NodeId(2)));
    assert_eq!(node_at(&reg, Position::new(0, 11)), None);
}

#[test]
fn settings_and_container_take_effect_next_step() {
    let mut reg = NodeRegistry::new();
    reg.add_node(NodeId(1), Position::new(0, 0), 10, text("A")).unwrap();
    reg.set_node_importance(NodeId(1), 4);
    reg.set_node_inbound_count(NodeId(1), 7);
    assert_eq!(reg.nodes[0].importance, Some(4));
    assert_eq!(reg.nodes[0].inbound_count, 7);
    assert_eq!(reg.node_ids(), vec![NodeId(1)]);
    let vp = Viewport::new();
    let mut world = PhysicsWorld::new(reg, &vp, quiet_settings(), ContainerBound::zero());
    world.step(&vp);
    assert_eq!(pos_of(&world, 1), Position::new(0, 0));
    let mut s = quiet_settings();
    s.center_strength = 50_000;
    world.update_force_settings(s);
    world.update_container_bound(ContainerBound { x: 0, y: 0, width: 200, height: 0, top: 0, left: 0, bottom: 0, right: 200 });
    world.set_category_clustering_enabled(true);
    assert!(world.force_settings.enable_category_clustering);
    world.step(&vp);
    assert!(pos_of(&world, 1).x > 0);
    assert_eq!(pos_of(&world, 1).y, 0);
}
