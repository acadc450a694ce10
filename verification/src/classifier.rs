//! The classifier: a pure map from a validated coordinate pair to its
//! relation with the composite figure.
//!
//! Two distance metrics (Chebyshev box distance and squared Euclidean
//! distance) are selected per quadrant and tested against two concentric
//! thresholds. Landing strictly inside the inner boundary counts as
//! `Outside` overall: the figure is an annulus-like composite, not a
//! filled region.

use vstd::prelude::*;

verus! {

/// The relation of a point to a figure boundary or to the whole figure.
#[derive(PartialEq, Eq, Structural, Debug, Clone, Copy)]
pub enum Relation {
    Inside,
    Border,
    Outside,
}

/// The two distance metrics a quadrant can select.
#[derive(PartialEq, Eq, Structural, Debug, Clone, Copy)]
pub enum Metric {
    /// Chebyshev distance from the origin: `max(|x|, |y|)`.
    BoxDist,
    /// Squared Euclidean distance from the origin: `x*x + y*y`.
    Radial,
}

/// The inner boundary of the figure sits at distance 10.
pub const INNER_THRESHOLD: i32 = 10;

/// The outer boundary of the figure sits at distance 20.
pub const OUTER_THRESHOLD: i32 = 20;

/// Coordinates handed to the classifier lie in `[-100, 100]`.
pub const COORD_LIMIT: i32 = 100;

pub open spec fn abs_val(x: int) -> int {
    if x < 0 {
        -x
    } else {
        x
    }
}

/// Chebyshev box distance from the origin.
pub open spec fn box_dist(x: int, y: int) -> int {
    if abs_val(y) > abs_val(x) {
        abs_val(y)
    } else {
        abs_val(x)
    }
}

/// Squared Euclidean distance from the origin.
pub open spec fn radial_sq(x: int, y: int) -> int {
    x * x + y * y
}

/// Relation of a distance to a boundary value: below is `Inside`, equal is
/// `Border`, above is `Outside`.
pub open spec fn rel_of(distance: int, border: int) -> Relation {
    if distance < border {
        Relation::Inside
    } else if distance == border {
        Relation::Border
    } else {
        Relation::Outside
    }
}

/// What one metric answers for a point against a boundary value. The
/// radial metric compares squares on both sides, so the boundary is
/// squared here.
pub open spec fn metric_rel(m: Metric, x: int, y: int, border: int) -> Relation {
    match m {
        Metric::BoxDist => rel_of(box_dist(x, y), border),
        Metric::Radial => rel_of(radial_sq(x, y), border * border),
    }
}

/// The two-tier test: the inner metric against 10 decides first. `Border`
/// there is final; `Inside` the inner figure is excluded from the overall
/// figure, so it becomes `Outside`; only past the inner boundary does the
/// outer metric against 20 decide.
pub open spec fn partition_spec(lo: Metric, hi: Metric, x: int, y: int) -> Relation {
    match metric_rel(lo, x, y, INNER_THRESHOLD as int) {
        Relation::Border => Relation::Border,
        Relation::Inside => Relation::Outside,
        Relation::Outside => metric_rel(hi, x, y, OUTER_THRESHOLD as int),
    }
}

/// The quadrant table: which (inner, outer) metric pair governs a point.
/// `x == 0` and `y == 0` count as non-positive.
pub open spec fn quadrant_metrics(x: int, y: int) -> (Metric, Metric) {
    if x > 0 {
        if y > 0 {
            (Metric::BoxDist, Metric::Radial)
        } else {
            (Metric::Radial, Metric::Radial)
        }
    } else {
        if y > 0 {
            (Metric::Radial, Metric::BoxDist)
        } else {
            (Metric::BoxDist, Metric::BoxDist)
        }
    }
}

/// The whole classifier as one pure, total function of the point.
pub open spec fn classify_spec(x: int, y: int) -> Relation {
    partition_spec(quadrant_metrics(x, y).0, quadrant_metrics(x, y).1, x, y)
}

/// Classification is a pure function of the coordinates: any two results
/// obtained for the same `(x, y)` are the same `Relation`.
pub proof fn lemma_classify_deterministic(x: int, y: int, r1: Relation, r2: Relation)
    requires
        r1 == classify_spec(x, y),
        r2 == classify_spec(x, y),
    ensures
        r1 == r2,
{
}

/// Compares a distance against a boundary value.
pub fn distance_relation(distance: i32, border: i32) -> (r: Relation)
    ensures
        r == rel_of(distance as int, border as int),
{
    if distance < border {
        Relation::Inside
    } else if distance == border {
        Relation::Border
    } else {
        Relation::Outside
    }
}

/// Relation of the point to a box boundary: Chebyshev distance against
/// `border`.
pub fn box_calc(x: i32, y: i32, border: i32) -> (r: Relation)
    requires
        x > i32::MIN,
        y > i32::MIN,
    ensures
        r == rel_of(box_dist(x as int, y as int), border as int),
{
    let xa: i32 = if x < 0 {
        -x
    } else {
        x
    };
    let ya: i32 = if y < 0 {
        -y
    } else {
        y
    };
    let dist: i32 = if ya > xa {
        ya
    } else {
        xa
    };
    distance_relation(dist, border)
}

/// Relation of the point to a circular boundary: squared Euclidean
/// distance against `border` squared, so no square root and no floating
/// point is ever needed.
pub fn radii_calc(x: i32, y: i32, border: i32) -> (r: Relation)
    requires
        x * x + y * y <= i32::MAX,
        border * border <= i32::MAX,
    ensures
        r == rel_of(radial_sq(x as int, y as int), (border as int) * (border as int)),
{
    proof {
        assert(x * x >= 0) by (nonlinear_arith);
        assert(y * y >= 0) by (nonlinear_arith);
        assert(border * border >= 0) by (nonlinear_arith);
    }
    distance_relation(x * x + y * y, border * border)
}

/// Evaluates one metric for a point in coordinate range against a
/// boundary value.
fn metric_calc(m: Metric, x: i32, y: i32, border: i32) -> (r: Relation)
    requires
        -COORD_LIMIT <= x <= COORD_LIMIT,
        -COORD_LIMIT <= y <= COORD_LIMIT,
        0 <= border <= COORD_LIMIT,
    ensures
        r == metric_rel(m, x as int, y as int, border as int),
{
    proof {
        assert(x * x + y * y <= 20000) by (nonlinear_arith)
            requires
                -100 <= x <= 100,
                -100 <= y <= 100,
        ;
        assert(border * border <= 10000) by (nonlinear_arith)
            requires
                0 <= border <= 100,
        ;
    }
    match m {
        Metric::BoxDist => box_calc(x, y, border),
        Metric::Radial => radii_calc(x, y, border),
    }
}

/// The two-tier partition of the plane: the inner metric against the
/// inner threshold decides first; a point inside the inner figure is
/// `Outside` the composite figure; past the inner boundary the outer
/// metric against the outer threshold decides.
pub fn partition(lo: Metric, hi: Metric, x: i32, y: i32) -> (r: Relation)
    requires
        -COORD_LIMIT <= x <= COORD_LIMIT,
        -COORD_LIMIT <= y <= COORD_LIMIT,
    ensures
        r == partition_spec(lo, hi, x as int, y as int),
{
    match metric_calc(lo, x, y, INNER_THRESHOLD) {
        Relation::Border => Relation::Border,
        Relation::Inside => Relation::Outside,
        Relation::Outside => metric_calc(hi, x, y, OUTER_THRESHOLD),
    }
}

/// Classifies a point in coordinate range against the composite figure,
/// selecting the metric pair by the quadrant table.
pub fn point_location(x: i32, y: i32) -> (r: Relation)
    requires
        -COORD_LIMIT <= x <= COORD_LIMIT,
        -COORD_LIMIT <= y <= COORD_LIMIT,
    ensures
        r == classify_spec(x as int, y as int),
{
    if x > 0 {
        if y > 0 {
            partition(Metric::BoxDist, Metric::Radial, x, y)
        } else {
            partition(Metric::Radial, Metric::Radial, x, y)
        }
    } else {
        if y > 0 {
            partition(Metric::Radial, Metric::BoxDist, x, y)
        } else {
            partition(Metric::BoxDist, Metric::BoxDist, x, y)
        }
    }
}

} // verus!
