use pathtracer::geometry::{choose_root, Axis, Root};

#[test]
fn each_axis_pair_leaves_out_one_coordinate() {
    assert_eq!(Axis::XY.normal(), 2);
    assert_eq!(Axis::XZ.normal(), 1);
    assert_eq!(Axis::YZ.normal(), 0);
}

#[test]
fn each_axis_pair_bounds_two_coordinates() {
    assert_eq!(Axis::XY.plane(), (0, 1));
    assert_eq!(Axis::XZ.plane(), (0, 2));
    assert_eq!(Axis::YZ.plane(), (1, 2));
}

#[test]
fn the_three_coordinates_are_each_used_once() {
    for axis in [Axis::XY, Axis::XZ, Axis::YZ] {
        let (u, v) = axis.plane();
        let mut seen = [false; 3];
        seen[u] = true;
        seen[v] = true;
        seen[axis.normal()] = true;
        assert_eq!(seen, [true, true, true]);
        assert!(u < v);
    }
}

#[test]
fn a_ray_that_passes_by_hits_nothing() {
    for near_outside in [false, true] {
        for far_outside in [false, true] {
            assert_eq!(choose_root(true, near_outside, far_outside), None);
        }
    }
}

#[test]
fn the_near_crossing_is_taken_first() {
    assert_eq!(choose_root(false, false, false), Some(Root::Near));
    assert_eq!(choose_root(false, false, true), Some(Root::Near));
}

#[test]
fn the_far_crossing_is_taken_from_inside() {
    assert_eq!(choose_root(false, true, false), Some(Root::Far));
}

#[test]
fn a_sphere_outside_the_interval_is_not_hit() {
    assert_eq!(choose_root(false, true, true), None);
}
