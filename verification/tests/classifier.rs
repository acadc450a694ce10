use point_figure::classifier::{box_calc, distance_relation, partition, point_location, radii_calc,
    Metric, Relation};

#[test]
fn check_radii() {
    assert_eq!(radii_calc(-2, 4, 5), Relation::Inside);
    assert_eq!(radii_calc(-3, -4, 5), Relation::Border);
    assert_eq!(radii_calc(30, 40, 20), Relation::Outside);
}

#[test]
fn check_box() {
    assert_eq!(box_calc(-2, 4, 5), Relation::Inside);
    assert_eq!(box_calc(-3, -5, 5), Relation::Border);
    assert_eq!(box_calc(30, 40, 20), Relation::Outside);
}

#[test]
fn check_figure() {
    assert_eq!(point_location(-2, 4), Relation::Outside);
}

#[test]
fn distance_relation_three_ways() {
    assert_eq!(distance_relation(4, 5), Relation::Inside);
    assert_eq!(distance_relation(5, 5), Relation::Border);
    assert_eq!(distance_relation(6, 5), Relation::Outside);
}

#[test]
fn classify_is_deterministic() {
    for &(x, y) in &[(0, 0), (5, 5), (-2, 4), (10, 3), (12, 16), (-100, 100)] {
        assert_eq!(point_location(x, y), point_location(x, y));
    }
}

#[test]
fn inner_inside_is_excluded() {
    // Strictly inside the inner boundary counts as outside the figure.
    assert_eq!(point_location(0, 0), Relation::Outside);
    assert_eq!(point_location(5, 5), Relation::Outside);
    assert_eq!(point_location(1, 2), Relation::Outside);
}

#[test]
fn inner_border_is_final() {
    // First quadrant, inner metric is the box distance: max(10, 3) == 10.
    assert_eq!(point_location(10, 3), Relation::Border);
}

#[test]
fn annulus_interior_is_inside() {
    // First quadrant: past the inner box boundary, within the outer circle.
    assert_eq!(point_location(11, 5), Relation::Inside);
    // Non-positive quadrant: both metrics are the box distance.
    assert_eq!(point_location(-15, 0), Relation::Inside);
}

#[test]
fn outer_border_and_beyond() {
    // First quadrant outer circle: 12*12 + 16*16 == 20*20.
    assert_eq!(point_location(12, 16), Relation::Border);
    assert_eq!(point_location(100, 100), Relation::Outside);
    assert_eq!(point_location(-100, -100), Relation::Outside);
}

#[test]
fn partition_matches_quadrant_table() {
    // x = -2, y = 4 falls in the x <= 0, y > 0 quadrant: radial inner,
    // box outer.
    assert_eq!(
        partition(Metric::Radial, Metric::BoxDist, -2, 4),
        point_location(-2, 4)
    );
    assert_eq!(
        partition(Metric::BoxDist, Metric::BoxDist, 0, 0),
        point_location(0, 0)
    );
}
