use simulation::geometry::edge::Edge;
use simulation::geometry::locations::{Coord, IVec2, Vector};
use simulation::geometry::{Abs, TestResult};
use simulation::resources::{Tile, Tileset};
use simulation::states::generation::GenerationState;

#[test]
fn abs_of_integers() {
    assert_eq!(Abs::abs(&5i32), 5);
    assert_eq!(Abs::abs(&-5i32), 5);
    assert_eq!(Abs::abs(&0i32), 0);
    assert_eq!(Abs::abs(&-i32::MAX), i32::MAX);
    assert_eq!(Abs::abs(&-7_000_000_000i64), 7_000_000_000);
    assert_eq!(Abs::abs(&7_000_000_000i64), 7_000_000_000);
    assert_eq!(Abs::abs(&-i64::MAX), i64::MAX);
}

#[test]
fn coord_components() {
    let p: IVec2 = Coord::new(3, -4);
    assert_eq!(p, IVec2 { x: 3, y: -4 });
    assert_eq!(Coord::x(&p), 3);
    assert_eq!(Coord::y(&p), -4);
    assert_eq!(p.magnitude2(), 25);
    let far: IVec2 = Coord::new(-30_000, 20_000);
    assert_eq!(far.magnitude2(), 1_300_000_000);
}

#[test]
fn vector_products() {
    let a = IVec2 { x: 3, y: 4 };
    let b = IVec2 { x: 1, y: 2 };
    assert_eq!(<IVec2 as Vector>::from_coord(a, b), IVec2 { x: 2, y: 2 });
    assert_eq!(<IVec2 as Vector>::from_coord(b, a), IVec2 { x: -2, y: -2 });
    assert_eq!(a.dot(b), 11);
    assert_eq!(a.cross(b), 2);
    assert_eq!(b.cross(a), -2);
    assert_eq!(a.cross(a), 0);
}

#[test]
fn edges_hold_three_coefficients() {
    let edge = Edge { a: 1i64, b: -1i64, c: -1i64 };
    assert_eq!(edge, Edge { a: 1, b: -1, c: -1 });
    let copy = edge;
    assert_eq!(copy.a + copy.b + copy.c, -1);
}

#[test]
fn test_results_are_distinct() {
    assert_ne!(TestResult::Inside, TestResult::Outside);
    assert_ne!(TestResult::Inside, TestResult::Intersect);
    assert_ne!(TestResult::Outside, TestResult::Intersect);
}

#[test]
fn tileset_defaults_to_no_tiles() {
    let mut tileset = Tileset::default();
    assert_eq!(tileset.tiles.len(), 0);
    tileset.tiles.push(Tile { id: 7 });
    assert_eq!(tileset.tiles[0].id, 7);
}

#[test]
fn generation_state_predicates() {
    assert_eq!(GenerationState::default(), GenerationState::Idle);
    assert!(!GenerationState::Idle.is_generating());
    assert!(GenerationState::Initializing.is_generating());
    assert!(GenerationState::Generating.is_generating());
    assert!(!GenerationState::Done.is_generating());
    assert!(GenerationState::Done.is_done());
    assert!(!GenerationState::Idle.is_done());
    assert!(!GenerationState::Initializing.is_done());
    assert!(!GenerationState::Generating.is_done());
}
