//! Screen geometry, edge, and position behaviour.

use cross_control::ScreenEdge;
use cross_control::ScreenGeometry;
use cross_control::Position;

#[test]
fn is_at_edge_left() {
    let geo = ScreenGeometry::new(1920, 1080);
    assert!(geo.is_at_edge(0, 500, ScreenEdge::Left));
    assert!(!geo.is_at_edge(1, 500, ScreenEdge::Left));
}

#[test]
fn is_at_edge_right() {
    let geo = ScreenGeometry::new(1920, 1080);
    assert!(geo.is_at_edge(1919, 500, ScreenEdge::Right));
    assert!(!geo.is_at_edge(1918, 500, ScreenEdge::Right));
}

#[test]
fn is_at_edge_top() {
    let geo = ScreenGeometry::new(1920, 1080);
    assert!(geo.is_at_edge(500, 0, ScreenEdge::Top));
    assert!(!geo.is_at_edge(500, 1, ScreenEdge::Top));
}

#[test]
fn is_at_edge_bottom() {
    let geo = ScreenGeometry::new(1920, 1080);
    assert!(geo.is_at_edge(500, 1079, ScreenEdge::Bottom));
    assert!(!geo.is_at_edge(500, 1078, ScreenEdge::Bottom));
}

#[test]
fn position_edge_mapping() {
    assert_eq!(Position::Left.local_edge(), ScreenEdge::Left);
    assert_eq!(Position::Left.remote_entry_edge(), ScreenEdge::Right);
    assert_eq!(Position::Right.local_edge(), ScreenEdge::Right);
    assert_eq!(Position::Right.remote_entry_edge(), ScreenEdge::Left);
    assert_eq!(Position::Above.local_edge(), ScreenEdge::Top);
    assert_eq!(Position::Above.remote_entry_edge(), ScreenEdge::Bottom);
    assert_eq!(Position::Below.local_edge(), ScreenEdge::Bottom);
    assert_eq!(Position::Below.remote_entry_edge(), ScreenEdge::Top);
}

#[test]
fn opposite_is_involution() {
    for e in [ScreenEdge::Left, ScreenEdge::Right, ScreenEdge::Top, ScreenEdge::Bottom] {
        assert_eq!(e.opposite().opposite(), e);
    }
    assert_eq!(ScreenEdge::Left.opposite(), ScreenEdge::Right);
    assert_eq!(ScreenEdge::Top.opposite(), ScreenEdge::Bottom);
}

#[test]
fn is_at_edge_with_offset_origin() {
    let geo = ScreenGeometry { width: 100, height: 100, x: 10, y: 20 };
    assert!(geo.is_at_edge(10, 50, ScreenEdge::Left));
    assert!(geo.is_at_edge(109, 50, ScreenEdge::Right));
    assert!(!geo.is_at_edge(50, 50, ScreenEdge::Right));
    assert!(geo.is_at_edge(50, 20, ScreenEdge::Top));
    assert!(geo.is_at_edge(50, 119, ScreenEdge::Bottom));
}
