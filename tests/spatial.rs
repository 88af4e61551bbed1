use nox_ecs::spatial::{SpatialForce, SpatialInertia, SpatialMotion, SpatialTransform};

#[test]
fn transform_parts_are_kept() {
    let t = SpatialTransform::new([1u8, 2, 3, 4], [5, 6, 7]);
    assert_eq!(t.angular(), [1, 2, 3, 4]);
    assert_eq!(t.linear(), [5, 6, 7]);
}

#[test]
fn force_inertia_and_motion_parts_are_kept() {
    let f = SpatialForce::new([1.0, 2.0, 3.0], [4.0, 5.0, 6.0]);
    assert_eq!(f.torque(), [1.0, 2.0, 3.0]);
    assert_eq!(f.force(), [4.0, 5.0, 6.0]);
    let i = SpatialInertia::new([1.0, 1.0, 1.0], [0.0, 0.0, 0.0], 2.5);
    assert_eq!(i.inertia_diag(), [1.0, 1.0, 1.0]);
    assert_eq!(i.momentum(), [0.0, 0.0, 0.0]);
    assert_eq!(i.mass(), 2.5);
    let m = SpatialMotion::new([0.0, 0.0, 1.0], [2.0, 0.0, 0.0]);
    assert_eq!(m.angular(), [0.0, 0.0, 1.0]);
    assert_eq!(m.linear(), [2.0, 0.0, 0.0]);
}
