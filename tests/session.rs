use khimoo_portfolio::drag::DragState;
use khimoo_portfolio::forces::{BodyKind, ForceSettings};
use khimoo_portfolio::registry::NodeRegistry;
use khimoo_portfolio::session::Session;
use khimoo_portfolio::types::{ContainerBound, NodeContent, NodeId, Position};
use khimoo_portfolio::viewport::Viewport;
use khimoo_portfolio::world::PhysicsWorld;

fn session() -> Session {
    let mut reg = NodeRegistry::new();
    reg.add_node(NodeId(0), Position::new(100, 100), 20, NodeContent::Text("Author".to_string())).unwrap();
    reg.add_node(NodeId(1), Position::new(300, 100), 20, NodeContent::Text("A".to_string())).unwrap();
    let vp = Viewport::new();
    let world = PhysicsWorld::new(reg, &vp, ForceSettings::default(), ContainerBound::zero());
    Session::new(world, vp, vec![(NodeId(0), "author".to_string()), (NodeId(1), "a".to_string())])
}

#[test]
fn click_on_node_activates_it() {
    let mut s = session();
    s.pointer_down(Position::new(302, 98));
    assert_eq!(s.drag.state, DragState::Armed { id: NodeId(1), start: Position::new(302, 98) });
    s.pointer_move(Position::new(304, 99));
    assert_eq!(s.pointer_up(), Some(NodeId(1)));
    assert_eq!(s.slug_of(NodeId(1)), Some("a".to_string()));
    assert_eq!(s.slug_of(NodeId(9)), None);
    assert_eq!(s.click_target(NodeId(1)), Some("a".to_string()));
    assert_eq!(s.click_target(NodeId(0)), None);
    assert_eq!(s.click_target(NodeId(9)), None);
    assert_eq!(s.world.bodies[1].kind, BodyKind::Dynamic);
}

#[test]
fn drag_moves_node_and_release_returns_nothing() {
    let mut s = session();
    s.pointer_down(Position::new(100, 100));
    s.pointer_move(Position::new(150, 160));
    assert_eq!(s.world.bodies[0].kind, BodyKind::Kinematic);
    s.tick();
    assert_eq!(s.world.registry().position_of(NodeId(0)), Some(Position::new(150, 160)));
    assert_eq!(s.pointer_up(), None);
    assert_eq!(s.world.bodies[0].kind, BodyKind::Dynamic);
}

#[test]
fn press_on_empty_space_does_nothing() {
    let mut s = session();
    s.pointer_down(Position::new(200, 300));
    assert_eq!(s.drag.state, DragState::Idle);
    assert_eq!(s.pointer_up(), None);
    s.set_viewport(Viewport::with_scale(Position::new(10, 10), 2000));
    assert_eq!(s.viewport.scale_milli, 2000);
}
