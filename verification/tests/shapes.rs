use blood_geometry::angle::Angle;
use blood_geometry::arc::Arc;
use blood_geometry::box2d::{compare_points, BoundingBox, Box};
use blood_geometry::color::Color;
use blood_geometry::composite::CompositeOperation;
use blood_geometry::curve::cubic::CubicBezier;
use blood_geometry::curve::quad::QuadraticBezier;
use blood_geometry::curve::{lerp, Curve};
use blood_geometry::line::{order, Line, LineSegment};
use blood_geometry::num::sat_int::SatInt;
use blood_geometry::num::{lerp_scalar, One, Real, Zero};
use blood_geometry::path::buffer::{PathBuffer, PathBufferIterator, Verb};
use blood_geometry::path::flatten::{join_points, Flattened};
use blood_geometry::path::line_segments::LineSegments;
use blood_geometry::path::shape::{shape_area, shape_bounding_box, shape_trapezoids};
use blood_geometry::path::{connect, Path, PathEvent, StraightPathEvent};
use blood_geometry::point::{Point, Vector};
use blood_geometry::rect::Rect;
use blood_geometry::region::{empty, rects, single, Region};
use blood_geometry::size::Size;
use blood_geometry::transform::affine::Affine;
use blood_geometry::transform::rotation::{turn, Rotation};
use blood_geometry::transform::scale::Scale;
use blood_geometry::transform::translation::Translation;
use blood_geometry::transform::Transform;
use blood_geometry::trapezoid::Trapezoid;
use blood_geometry::triangle::Triangle;
use blood_geometry::{ApproxEq, Direction, FillRule};
use std::cmp::Ordering;
use std::ops::{Add, Div, Mul, Neg, Sub};

/// A single-precision scalar for the sweep.
#[derive(Clone, Copy, Debug, PartialEq, PartialOrd)]
struct F(f32);

impl Add for F {
    type Output = F;
    fn add(self, rhs: F) -> F {
        F(self.0 + rhs.0)
    }
}

impl Sub for F {
    type Output = F;
    fn sub(self, rhs: F) -> F {
        F(self.0 - rhs.0)
    }
}

impl Mul for F {
    type Output = F;
    fn mul(self, rhs: F) -> F {
        F(self.0 * rhs.0)
    }
}

impl Div for F {
    type Output = F;
    fn div(self, rhs: F) -> F {
        F(self.0 / rhs.0)
    }
}

impl Neg for F {
    type Output = F;
    fn neg(self) -> F {
        F(-self.0)
    }
}

impl Zero for F {
    fn zero_spec() -> F {
        F(0.0)
    }
    fn zero() -> F {
        F(0.0)
    }
}

impl One for F {
    fn one_spec() -> F {
        F(1.0)
    }
    fn one() -> F {
        F(1.0)
    }
}

impl ApproxEq for F {
    fn approx_eq_spec(&self, other: &F) -> bool {
        (self.0 - other.0).abs() < f32::EPSILON
    }
    fn approx_eq(&self, other: &F) -> bool {
        (self.0 - other.0).abs() < f32::EPSILON
    }
}

impl Real for F {
    fn epsilon_spec() -> F {
        F(f32::EPSILON)
    }
    fn min_value_spec() -> F {
        F(f32::MIN)
    }
    fn max_value_spec() -> F {
        F(f32::MAX)
    }
    fn abs_spec(self) -> F {
        F(self.0.abs())
    }
    fn sqrt_spec(self) -> F {
        F(self.0.sqrt())
    }
    fn epsilon() -> F {
        F(f32::EPSILON)
    }
    fn min_value() -> F {
        F(f32::MIN)
    }
    fn max_value() -> F {
        F(f32::MAX)
    }
    fn abs(self) -> F {
        F(self.0.abs())
    }
    fn sqrt(self) -> F {
        F(self.0.sqrt())
    }
    fn lemma_laws() {}
}

fn p(x: i32, y: i32) -> Point<i32> {
    Point::new(x, y)
}

fn fp(x: f32, y: f32) -> Point<F> {
    Point::new(F(x), F(y))
}

fn bx(x0: i32, y0: i32, x1: i32, y1: i32) -> Box<i32> {
    Box::new(p(x0, y0), p(x1, y1))
}

fn same_box(a: Box<i32>, b: Box<i32>) -> bool {
    a.min() == b.min() && a.max() == b.max()
}

#[test]
fn integers_are_approximately_equal_when_equal() {
    assert!(3i32.approx_eq(&3));
    assert!(!3i32.approx_eq(&4));
    assert!(7u8.approx_eq(&7));
    assert!(!(-1i64).approx_eq(&1));
    assert!((&5usize).approx_eq(&&5usize));
    assert_eq!(<i32 as Zero>::zero(), 0);
    assert_eq!(<u64 as One>::one(), 1);
    assert_eq!(Direction::default(), Direction::Forwards);
    assert!(FillRule::Winding != FillRule::EvenOdd);
    assert_eq!(CompositeOperation::Clear, CompositeOperation::Clear);
}

#[test]
fn saturating_scalar_arithmetic() {
    let s = SatInt::new;
    assert_eq!((s(3) + s(4)).value(), 7);
    assert_eq!((s(i64::MAX) + s(1)).value(), i64::MAX);
    assert_eq!((s(i64::MIN) + s(-1)).value(), i64::MIN);
    assert_eq!((s(3) - s(10)).value(), -7);
    assert_eq!((s(i64::MIN) - s(1)).value(), i64::MIN);
    assert_eq!((s(6) * s(-7)).value(), -42);
    assert_eq!((s(i64::MAX) * s(2)).value(), i64::MAX);
    assert_eq!((s(i64::MIN) * s(2)).value(), i64::MIN);
    assert_eq!((s(7) / s(2)).value(), 3);
    assert_eq!((s(7) / s(-2)).value(), -3);
    assert_eq!((s(-7) / s(2)).value(), -3);
    assert_eq!((s(-7) / s(-2)).value(), 3);
    assert_eq!((s(5) / s(0)).value(), i64::MAX);
    assert_eq!((s(-5) / s(0)).value(), i64::MIN);
    assert_eq!((s(0) / s(0)).value(), 0);
    assert_eq!((s(i64::MIN) / s(-1)).value(), i64::MAX);
    assert_eq!((-s(5)).value(), -5);
    assert_eq!((-s(i64::MIN)).value(), i64::MAX);
    assert_eq!(s(-9).abs().value(), 9);
    assert_eq!(s(i64::MIN).abs().value(), i64::MAX);
    assert_eq!(s(17).sqrt().value(), 4);
    assert_eq!(s(16).sqrt().value(), 4);
    assert_eq!(s(0).sqrt().value(), 0);
    assert_eq!(s(-4).sqrt().value(), 0);
    assert_eq!(s(i64::MAX).sqrt().value(), 3037000499);
    assert_eq!(SatInt::epsilon().value(), 0);
    assert_eq!(SatInt::min_value().value(), i64::MIN);
    assert_eq!(SatInt::zero().value(), 0);
    assert_eq!(SatInt::one().value(), 1);
    assert_eq!(s(1).partial_cmp(&s(2)), Some(Ordering::Less));
    assert_eq!(s(2).partial_cmp(&s(2)), Some(Ordering::Equal));
    assert_eq!(s(3).partial_cmp(&s(2)), Some(Ordering::Greater));
    assert!(s(4) == s(4));
    assert!(s(4).approx_eq(&s(4)));
    assert!(!s(4).approx_eq(&s(5)));
}

#[test]
fn points_and_vectors_by_components() {
    assert_eq!(Point::splat(3), p(3, 3));
    assert_eq!(Point::<i32>::zero(), p(0, 0));
    assert_eq!(p(1, 2).into_tuple(), (1, 2));
    assert_eq!(p(1, 2).into_vector(), Vector::new(1, 2));
    assert_eq!(Vector::new(1, 2).into_point(), p(1, 2));
    assert_eq!(p(5, 1).min(p(2, 7)), p(2, 1));
    assert_eq!(p(5, 1).max(p(2, 7)), p(5, 7));
    assert_eq!(p(5, -4).clamp(p(0, 0), p(3, 3)), p(3, 0));
    assert_eq!(p(5, 7) - p(1, 2), Vector::new(4, 5));
    assert_eq!(Vector::new(2, 3) * 4, Vector::new(8, 12));
    assert_eq!(Vector::new(8, 12) / 4, Vector::new(2, 3));
    assert_eq!(-Vector::new(2, -3), Vector::new(-2, 3));
    assert!(p(1, 2).approx_eq(&p(1, 2)));
    assert!(!p(1, 2).approx_eq(&p(1, 3)));
    assert_eq!(fp(-1.5, 2.0).abs(), fp(1.5, 2.0));
    assert_eq!(fp(0.0, 10.0).lerp(fp(4.0, 20.0), F(0.25)), fp(1.0, 12.5));
    assert_eq!(lerp(fp(0.0, 10.0), fp(4.0, 20.0), F(0.5)), fp(2.0, 15.0));
    assert_eq!(lerp_scalar(F(2.0), F(6.0), F(0.75)), F(5.0));
    assert_eq!(order(3, 1), (1, 3));
    assert_eq!(order(1, 3), (1, 3));
    assert_eq!(order(2, 2), (2, 2));
}

#[test]
fn sizes_by_components() {
    let size = Size::new(3, 4);
    assert_eq!((size.width(), size.height()), (3, 4));
    assert_eq!(Size::splat(2), Size::new(2, 2));
    assert_eq!(Size::from_array([3, 4]), size);
    assert_eq!(Size::from_tuple((3, 4)), size);
    assert_eq!(Size::from([3, 4]), size);
    assert_eq!(<[i32; 2]>::from(size), [3, 4]);
    assert_eq!(<(i32, i32)>::from(size), (3, 4));
    assert_eq!(Size::<i32>::zero(), Size::new(0, 0));
    assert_eq!(size.area(), 12);
    assert_eq!(size.min(Size::new(5, 1)), Size::new(3, 1));
    assert_eq!(size.max(Size::new(5, 1)), Size::new(5, 4));
    assert_eq!(Size::new(9, -2).clamp(Size::new(0, 0), size), Size::new(3, 0));
    assert_eq!(size + Size::new(1, 1), Size::new(4, 5));
    assert_eq!(size - Size::new(1, 1), Size::new(2, 3));
    assert_eq!(Size::new(8, 4) / 2, Size::new(4, 2));
    assert_eq!(-size, Size::new(-3, -4));
    assert_eq!(p(1, 2) + size, p(4, 6));
    assert_eq!(p(1, 2) - size, p(-2, -2));
    assert_eq!(Size::new(F(-3.0), F(4.0)).abs(), Size::new(F(3.0), F(4.0)));
    assert_eq!(
        Size::new(F(0.0), F(2.0)).lerp(Size::new(F(4.0), F(4.0)), F(0.5)),
        Size::new(F(2.0), F(3.0))
    );
}

#[test]
fn boxes_by_corners() {
    let b = bx(1, 2, 5, 7);
    assert_eq!(b.min(), p(1, 2));
    assert_eq!(b.max(), p(5, 7));
    assert_eq!(b.min_max(), (p(1, 2), p(5, 7)));
    assert_eq!(b.bottom_right(), p(1, 7));
    assert_eq!(b.top_left(), p(5, 2));
    assert_eq!(b.size(), Size::new(4, 5));
    assert_eq!(b.area(), 20);
    assert_eq!(b.x_range(), 1..5);
    assert_eq!(b.y_range(), 2..7);
    assert!(same_box(Box::from_origin_and_size(p(1, 2), Size::new(3, 4)), bx(1, 2, 4, 6)));
    assert!(same_box(Box::from_size(Size::new(3, 4)), bx(0, 0, 3, 4)));
    assert!(same_box(Box::zero(), bx(0, 0, 0, 0)));
    assert!(same_box(b + Vector::new(1, -1), bx(2, 1, 6, 6)));
    assert!(same_box(b - Vector::new(1, -1), bx(0, 3, 4, 8)));
    assert!(same_box(b.bounding_box(), b));
    assert_eq!(compare_points(p(1, 9), p(2, 0)), Some(Ordering::Less));
    assert_eq!(compare_points(p(1, 9), p(1, 0)), Some(Ordering::Greater));
    assert_eq!(compare_points(p(1, 9), p(1, 9)), Some(Ordering::Equal));
}

#[test]
fn boxes_compared_and_combined() {
    let a = bx(0, 0, 4, 4);
    let b = bx(2, 2, 6, 6);
    let c = bx(4, 4, 8, 8);
    assert!(!a.is_negative());
    assert!(bx(5, 0, 1, 9).is_negative());
    assert!(!bx(1, 5, 1, 9).is_negative());
    assert!(!a.is_empty());
    assert!(bx(1, 2, 1, 2).is_empty());
    assert!(bx(5, 0, 1, 9).is_empty());
    assert!(a.intersects(&b));
    assert!(!a.intersects(&c));
    assert!(same_box(a.intersection(&b), bx(2, 2, 4, 4)));
    assert!(same_box(a.union(&b), bx(0, 0, 6, 6)));
    assert!(same_box(a.with_point(&p(-1, 9)), bx(-1, 0, 4, 9)));
    assert!(same_box(a.with_points(&vec![p(-1, 1), p(2, 9)]), bx(-1, 0, 4, 9)));
    assert!(same_box(Box::of_points(&vec![p(3, 1), p(0, 5), p(2, 2)]), bx(0, 1, 3, 5)));
    assert!(same_box(Box::of_points(&Vec::<Point<i32>>::new()), bx(0, 0, 0, 0)));
    // a point is held when no least coordinate is below it and both
    // greatest coordinates are
    assert!(!a.contains(&p(2, 2)));
    assert!(bx(5, 7, 1, 2).contains(&p(3, 4)));
    assert!(a.contains_box(&bx(1, 2, 1, 2)));
    assert!(!a.contains_box(&bx(1, 1, 2, 2)));
    let f = Box::new(fp(0.0, 0.0), fp(4.0, 6.0));
    assert_eq!(f.center(), fp(2.0, 3.0));
    let g = f.lerp(Box::new(fp(4.0, 4.0), fp(8.0, 8.0)), F(0.5));
    assert_eq!(g.min(), fp(2.0, 2.0));
    assert_eq!(g.max(), fp(6.0, 7.0));
}

#[test]
fn rectangles_by_origin_and_size() {
    let r = Rect::new(p(1, 2), Size::new(3, 4));
    assert_eq!(r.origin(), p(1, 2));
    assert_eq!(r.size(), Size::new(3, 4));
    assert_eq!(r.origin_and_size(), (p(1, 2), Size::new(3, 4)));
    assert_eq!(r.top_left(), p(1, 2));
    assert_eq!(r.top_right(), p(4, 2));
    assert_eq!(r.bottom_left(), p(1, 6));
    assert_eq!(r.bottom_right(), p(4, 6));
    assert_eq!(r.area(), 12);
    assert!(same_box(r.to_box(), bx(1, 2, 4, 6)));
    assert!(same_box(r.bounding_box(), bx(1, 2, 4, 6)));
    let c = Rect::from_corners(p(1, 2), p(4, 6));
    assert_eq!((c.origin(), c.size()), (p(1, 2), Size::new(3, 4)));
    let b = Rect::from_box(bx(1, 2, 4, 6));
    assert_eq!((b.origin(), b.size()), (p(1, 2), Size::new(3, 4)));
    let z = Rect::<i32>::zero();
    assert_eq!((z.origin(), z.size()), (p(0, 0), Size::new(0, 0)));
    let h = Rect::new(p(2, 4), Size::new(6, 8)) / 2;
    assert_eq!((h.origin(), h.size()), (p(1, 2), Size::new(3, 4)));
}

#[test]
fn triangles_by_corners() {
    let t = Triangle::new(p(0, 0), p(4, 1), p(2, 5));
    assert_eq!((t.a(), t.b(), t.c()), (p(0, 0), p(4, 1), p(2, 5)));
    assert_eq!(t.ab().points(), (p(0, 0), p(4, 1)));
    assert_eq!(t.bc().points(), (p(4, 1), p(2, 5)));
    assert_eq!(t.ca().points(), (p(2, 5), p(0, 0)));
    assert_eq!(t.into_array(), [p(0, 0), p(4, 1), p(2, 5)]);
    assert_eq!(t.into_tuple(), (p(0, 0), p(4, 1), p(2, 5)));
    let segments = t.into_segments();
    assert_eq!(segments[0].from(), p(0, 0));
    assert_eq!(segments[1].from(), p(4, 1));
    assert_eq!(segments[2].to(), p(0, 0));
    assert!(same_box(t.bounding_box(), bx(0, 0, 4, 5)));
    assert_eq!(Triangle::<i32>::zero().into_tuple(), (p(0, 0), p(0, 0), p(0, 0)));
}

#[test]
fn colors_angles_and_arcs() {
    let c = Color::new(1, 2, 3, 4);
    assert_eq!((c.red(), c.green(), c.blue(), c.alpha()), (1, 2, 3, 4));
    assert_eq!(c.into_array(), [1, 2, 3, 4]);
    assert_eq!(Color::from_array([1, 2, 3, 4]).into_array(), [1, 2, 3, 4]);
    let a = Angle::from_radians(6);
    let b = Angle::from_radians(2);
    assert_eq!(a.radians(), 6);
    assert_eq!((a + b).radians(), 8);
    assert_eq!((a - b).radians(), 4);
    assert_eq!((a * b).radians(), 12);
    assert_eq!((a / b).radians(), 3);
    assert_eq!((-a).radians(), -6);
    let arc = Arc::new(p(1, 2), 5, a, b);
    assert_eq!(arc.center(), p(1, 2));
    assert_eq!(arc.radius(), 5);
    assert_eq!(arc.start_angle().radians(), 6);
    assert_eq!(arc.end_angle().radians(), 2);
    assert_eq!(arc.path_iter().arc.radius(), 5);
}

#[test]
fn transforms_of_points() {
    let scale = Scale::new(Vector::new(2, 3));
    assert_eq!(scale.vector(), Vector::new(2, 3));
    assert_eq!(scale.transform_point(p(4, 5)), p(8, 15));
    assert_eq!(Scale::uniform(3).transform_point(p(4, 5)), p(12, 15));
    assert_eq!(Scale::from(Vector::new(2, 3)).vector(), Vector::new(2, 3));
    let shift = Translation::new(Vector::new(1, -1));
    assert_eq!(shift.vector(), Vector::new(1, -1));
    assert_eq!(shift.transform_point(p(4, 5)), p(5, 4));
    assert_eq!(shift.transform_vector(Vector::new(4, 5)), Vector::new(5, 4));
    assert_eq!(
        shift.transform_triangle(Triangle::new(p(0, 0), p(1, 0), p(0, 1))).into_tuple(),
        (p(1, -1), p(2, -1), p(1, 0))
    );
    assert_eq!(Translation::from(Vector::new(1, 2)).vector(), Vector::new(1, 2));
    assert_eq!(Rotation::new(Angle::from_radians(3)).angle().radians(), 3);
    assert_eq!(Rotation::from(Angle::from_radians(3)).angle().radians(), 3);
    let affine = Affine::new([1, 2, 3, 4, 5, 6]);
    assert_eq!(affine.as_coefficients(), [1, 2, 3, 4, 5, 6]);
    assert_eq!(affine.determinant(), -2);
    assert_eq!(affine.transform_point(p(7, 8)), p(36, 50));
    assert_eq!(Affine::scale(2, 3).as_coefficients(), [2, 0, 0, 3, 0, 0]);
    assert_eq!(Affine::translate(5, 6).as_coefficients(), [1, 0, 0, 1, 5, 6]);
    assert_eq!(Affine::<i32>::default().as_coefficients(), [1, 0, 0, 1, 0, 0]);
    // x' = a * x + c * y + e and y' = b * y + d * x + f
    assert_eq!(Affine::scale(2, 3).transform_point(p(4, 5)), p(8, 12));
    assert_eq!(Affine::translate(5, 6).transform_point(p(4, 5)), p(9, 10));
}

#[test]
fn lines_through_points() {
    let line = Line::between(p(1, 2), p(4, 6));
    assert_eq!(line.origin(), p(1, 2));
    assert_eq!(line.direction(), Vector::new(3, 4));
    assert_eq!(line.parallel(p(0, 0)).origin(), p(0, 0));
    assert_eq!(line.parallel(p(0, 0)).direction(), Vector::new(3, 4));
    assert!(Line::new(p(0, 0), Vector::new(3, 0)).is_horizontal());
    assert!(!Line::new(p(0, 0), Vector::new(3, 1)).is_horizontal());
    assert!(Line::new(p(0, 0), Vector::new(0, 2)).is_vertical());
    let segment = LineSegment::new(p(1, 2), p(4, 6));
    assert_eq!(segment.points(), (p(1, 2), p(4, 6)));
    assert_eq!(segment.line().direction(), Vector::new(3, 4));
    assert_eq!(LineSegment::new(fp(1.0, 2.0), fp(4.0, 6.0)).length(), F(5.0));
    // (cross of the offset with the direction)^2 / |direction|^2
    assert_eq!(
        Line::new(fp(0.0, 0.0), Vector::new(F(3.0), F(4.0))).distance_squared(fp(4.0, -3.0)),
        F(25.0)
    );
}

#[test]
fn trapezoid_sides() {
    let t = Trapezoid::new(
        F(0.0),
        F(4.0),
        Line::new(fp(0.0, 0.0), Vector::new(F(0.0), F(1.0))),
        Line::new(fp(3.0, 0.0), Vector::new(F(1.0), F(1.0))),
    );
    assert_eq!(t.top_segment().points(), (fp(0.0, 0.0), fp(3.0, 0.0)));
    assert_eq!(t.bottom_segment().points(), (fp(0.0, 4.0), fp(7.0, 4.0)));
    assert_eq!(t.left_segment().points(), (fp(0.0, 0.0), fp(0.0, 4.0)));
    assert_eq!(t.right_segment().points(), (fp(3.0, 0.0), fp(7.0, 4.0)));
    // (3 + 7) * 4 / 2
    assert_eq!(t.area(), F(20.0));
    assert_eq!(t.perimeter(), F(3.0 + 7.0 + 4.0 + 32.0f32.sqrt()));
    let bounds = t.bounding_box();
    assert_eq!((bounds.min(), bounds.max()), (fp(0.0, 0.0), fp(7.0, 4.0)));
    assert!(!t.rectilinear());
    assert_eq!(t.path_iter().len(), 5);
}

#[test]
fn quadratic_curves() {
    let curve = QuadraticBezier::new(fp(0.0, 0.0), fp(1.0, 2.0), fp(2.0, 0.0));
    assert_eq!(curve.points(), [fp(0.0, 0.0), fp(1.0, 2.0), fp(2.0, 0.0)]);
    assert_eq!((curve.from(), curve.control(), curve.to()), (fp(0.0, 0.0), fp(1.0, 2.0), fp(2.0, 0.0)));
    assert_eq!(curve.baseline().points(), (fp(0.0, 0.0), fp(2.0, 0.0)));
    assert_eq!(curve.eval(F(0.0)), fp(0.0, 0.0));
    assert_eq!(curve.eval(F(0.5)), fp(1.0, 1.0));
    assert_eq!(curve.eval(F(1.0)), fp(2.0, 0.0));
    let (left, right) = curve.split(F(0.5));
    assert_eq!(left.points(), [fp(0.0, 0.0), fp(0.5, 1.0), fp(1.0, 1.0)]);
    assert_eq!(right.points(), [fp(1.0, 1.0), fp(1.5, 1.0), fp(2.0, 0.0)]);
    assert_eq!(curve.subsection(F(0.0)..F(1.0)).points(), curve.points());
    assert_eq!(curve.derivative().points(), (fp(2.0, 4.0), fp(2.0, -4.0)));
    assert!(!curve.is_linear(F(0.1)));
    assert!(curve.is_linear(F(1.0)));
    assert!(QuadraticBezier::new(fp(0.0, 0.0), fp(1.0, 0.0), fp(2.0, 0.0)).is_linear(F(0.1)));
    assert!(QuadraticBezier::new(fp(0.0, 0.0), fp(9.0, 9.0), fp(0.0, 0.0)).is_linear(F(0.1)));
    assert!(!curve.rectilinear());
}

#[test]
fn cubic_curves() {
    let curve = CubicBezier::new(fp(0.0, 0.0), fp(0.0, 3.0), fp(3.0, 3.0), fp(3.0, 0.0));
    assert_eq!(curve.points(), [fp(0.0, 0.0), fp(0.0, 3.0), fp(3.0, 3.0), fp(3.0, 0.0)]);
    assert_eq!(curve.control1(), fp(0.0, 3.0));
    assert_eq!(curve.control2(), fp(3.0, 3.0));
    assert_eq!((curve.from(), curve.to()), (fp(0.0, 0.0), fp(3.0, 0.0)));
    assert_eq!(curve.eval(F(0.5)), fp(1.5, 2.25));
    assert_eq!(curve.eval(F(0.0)), fp(0.0, 0.0));
    assert_eq!(curve.eval(F(1.0)), fp(3.0, 0.0));
    let (left, right) = curve.split(F(0.5));
    assert_eq!(left.points(), [fp(0.0, 0.0), fp(0.0, 1.5), fp(0.75, 2.25), fp(1.5, 2.25)]);
    assert_eq!(right.points(), [fp(1.5, 2.25), fp(2.25, 2.25), fp(3.0, 1.5), fp(3.0, 0.0)]);
    assert_eq!(
        curve.derivative().points(),
        [fp(0.0, 9.0), fp(9.0, 0.0), fp(0.0, -9.0)]
    );
    assert_eq!(curve.as_quadratic().points(), [fp(0.0, 0.0), fp(1.5, 4.5), fp(3.0, 0.0)]);
    assert_eq!(curve.subsection(F(0.0)..F(1.0)).points(), curve.points());
}

fn begin(x: i32, y: i32) -> PathEvent<i32> {
    PathEvent::Begin { at: p(x, y) }
}

fn line_to(x0: i32, y0: i32, x1: i32, y1: i32) -> PathEvent<i32> {
    PathEvent::Line { from: p(x0, y0), to: p(x1, y1) }
}

fn show(events: &Vec<PathEvent<i32>>) -> String {
    format!("{:?}", events)
}

#[test]
fn paths_of_shapes() {
    let segment = LineSegment::new(p(0, 0), p(3, 0));
    assert_eq!(
        show(&segment.path_iter()),
        show(&vec![
            begin(0, 0),
            line_to(0, 0, 3, 0),
            PathEvent::End { first: p(0, 0), last: p(3, 0), close: false },
        ])
    );
    assert!(segment.rectilinear());
    assert!(!LineSegment::new(p(0, 0), p(3, 1)).rectilinear());
    let square = bx(0, 0, 2, 3);
    assert_eq!(
        show(&square.path_iter()),
        show(&vec![
            begin(0, 0),
            line_to(0, 0, 0, 3),
            line_to(0, 3, 2, 3),
            line_to(2, 3, 2, 0),
            PathEvent::End { first: p(0, 0), last: p(2, 0), close: true },
        ])
    );
    assert!(square.rectilinear());
    assert_eq!(
        show(&Rect::new(p(0, 0), Size::new(2, 3)).path_iter()),
        show(&square.path_iter())
    );
    let triangle = Triangle::new(p(0, 0), p(4, 0), p(0, 3));
    assert_eq!(triangle.path_iter().len(), 4);
    assert!(!triangle.rectilinear());
    assert_eq!(connect(&vec![segment, segment]).len(), 6);
    assert_eq!(
        format!("{:?}", PathEvent::from(StraightPathEvent::Line { from: p(0, 0), to: p(1, 1) })),
        format!("{:?}", line_to(0, 0, 1, 1))
    );
}

#[test]
fn path_buffer_round_trip() {
    let events = vec![
        begin(0, 0),
        line_to(0, 0, 4, 0),
        PathEvent::Quadratic { from: p(4, 0), control: p(5, 1), to: p(4, 2) },
        PathEvent::End { first: p(0, 0), last: p(4, 2), close: true },
        begin(9, 9),
        PathEvent::Cubic { from: p(9, 9), control1: p(8, 8), control2: p(7, 7), to: p(6, 6) },
    ];
    let buffer = PathBuffer::from_events(&events);
    assert_eq!(buffer.first, p(0, 0));
    assert_eq!(
        format!("{:?}", buffer.buffer),
        format!(
            "{:?}",
            vec![
                (p(4, 0), Verb::<i32>::Line),
                (p(4, 2), Verb::Quadratic { control: p(5, 1) }),
                (p(9, 9), Verb::Begin { close: true }),
                (p(6, 6), Verb::Cubic { control1: p(8, 8), control2: p(7, 7) }),
            ]
        )
    );
    let copy = PathBuffer::new(buffer.first, buffer.buffer.clone());
    assert_eq!(show(&copy.path_iter()), show(&events));

    let mut walk = PathBufferIterator::new(buffer);
    assert_eq!(walk.size_hint(), (5, Some(9)));
    let mut walked = Vec::new();
    while let Some(event) = walk.next() {
        walked.push(event);
    }
    assert_eq!(show(&walked), show(&events));
    assert_eq!(walk.size_hint(), (0, Some(0)));
    assert!(walk.next().is_none());

    let straight = PathBuffer::new(p(0, 0), vec![(p(0, 5), Verb::Line), (p(3, 5), Verb::Line)]);
    assert!(straight.rectilinear());
    let slanted = PathBuffer::new(p(0, 0), vec![(p(1, 5), Verb::Line)]);
    assert!(!slanted.rectilinear());
}

#[test]
fn flattened_paths_and_their_segments() {
    let events = vec![
        begin(0, 0),
        line_to(0, 0, 4, 0),
        PathEvent::Quadratic { from: p(4, 0), control: p(5, 1), to: p(4, 2) },
        PathEvent::End { first: p(0, 0), last: p(4, 2), close: true },
    ];
    let flat = Flattened::new(
        &events,
        |q: QuadraticBezier<i32>| vec![q.from(), q.control(), q.to()],
        |c: CubicBezier<i32>| vec![c.from(), c.to()],
    );
    assert_eq!(flat.events.len(), 5);
    let segments = LineSegments::collect(&flat.events);
    let ends: Vec<_> = segments.iter().map(|s| s.points()).collect();
    assert_eq!(
        ends,
        vec![
            (p(0, 0), p(4, 0)),
            (p(4, 0), p(5, 1)),
            (p(5, 1), p(4, 2)),
            (p(4, 2), p(0, 0)),
        ]
    );
    let mut walk = LineSegments::new(flat.events.clone());
    assert_eq!(walk.size_hint(), (0, Some(5)));
    assert_eq!(walk.next().map(|s| s.points()), Some((p(0, 0), p(4, 0))));
    assert_eq!(walk.next().map(|s| s.points()), Some((p(4, 0), p(5, 1))));
    assert_eq!(walk.next().map(|s| s.points()), Some((p(5, 1), p(4, 2))));
    assert_eq!(walk.next().map(|s| s.points()), Some((p(4, 2), p(0, 0))));
    assert!(walk.next().is_none());
    assert!(walk.next().is_none());
    let mut general = flat.path_iter();
    assert_eq!(format!("{:?}", general.next()), format!("{:?}", Some(begin(0, 0))));
    assert_eq!(join_points(&vec![p(0, 0)]).len(), 0);
    assert_eq!(join_points(&Vec::<Point<i32>>::new()).len(), 0);
    assert_eq!(join_points(&vec![p(0, 0), p(1, 1), p(2, 0)]).len(), 2);
}

#[test]
fn shape_is_tessellated_from_its_segments() {
    let path = Flattened {
        events: vec![
            StraightPathEvent::Begin { at: fp(0.0, 0.0) },
            StraightPathEvent::Line { from: fp(0.0, 0.0), to: fp(0.0, 4.0) },
            StraightPathEvent::Line { from: fp(0.0, 4.0), to: fp(2.0, 4.0) },
            StraightPathEvent::Line { from: fp(2.0, 4.0), to: fp(2.0, 0.0) },
            StraightPathEvent::End { first: fp(0.0, 0.0), last: fp(2.0, 0.0), close: true },
        ],
    };
    let sweep = shape_trapezoids(&path);
    // the two horizontal sides are dropped
    assert_eq!(sweep.inner.edges.len(), 2);
    assert_eq!(sweep.size_hint(), (0, Some(4)));
}

#[test]
fn regions_of_boxes() {
    let mut none = empty::<i32>().boxes_iter();
    assert!(none.next().is_none());
    let mut one = single(bx(0, 0, 1, 1)).boxes_iter();
    assert_eq!(one.size_hint(), (1, Some(1)));
    assert!(same_box(one.next().unwrap(), bx(0, 0, 1, 1)));
    assert!(one.next().is_none());
    let region = rects(vec![
        Rect::new(p(0, 0), Size::new(1, 2)),
        Rect::new(p(5, 5), Size::new(2, 2)),
        Rect::new(p(9, 9), Size::new(1, 1)),
    ]);
    let mut boxes = region.boxes_iter();
    assert_eq!(boxes.size_hint(), (3, Some(3)));
    assert!(same_box(boxes.next().unwrap(), bx(0, 0, 1, 2)));
    assert!(same_box(boxes.nth(1).unwrap(), bx(9, 9, 10, 10)));
    assert!(boxes.next().is_none());
    let several = vec![bx(0, 0, 1, 1), bx(2, 2, 3, 3)];
    assert_eq!(several.clone().boxes_iter().count(), 2);
    assert!(same_box(several.clone().boxes_iter().last().unwrap(), bx(2, 2, 3, 3)));
    assert!(several.boxes_iter().nth(2).is_none());
    let mut walk = rects(vec![Rect::new(p(1, 1), Size::new(2, 2))]).rects_iter();
    assert_eq!(walk.size_hint(), (1, Some(1)));
    assert!(same_box(walk.next().unwrap(), bx(1, 1, 3, 3)));
    assert!(walk.next().is_none());
}

#[test]
fn segments_between_points() {
    let mut walk = LineSegment::from_points(vec![p(0, 0), p(1, 0), p(1, 1), p(0, 1)]);
    assert_eq!(walk.size_hint(), (3, Some(3)));
    assert_eq!(walk.next().map(|s| s.points()), Some((p(0, 0), p(1, 0))));
    assert_eq!(walk.next_back().map(|s| s.points()), Some((p(1, 1), p(0, 1))));
    assert_eq!(walk.size_hint(), (1, Some(1)));
    assert_eq!(walk.next().map(|s| s.points()), Some((p(1, 0), p(1, 1))));
    assert!(walk.next().is_none());
    assert!(walk.next_back().is_none());
    assert!(LineSegment::from_points(vec![p(0, 0)]).next().is_none());
    assert!(LineSegment::from_points(Vec::<Point<i32>>::new()).next_back().is_none());
}

#[test]
fn triangles_cut_into_halves() {
    // two corners at one height: the triangle is its own half
    let level = Triangle::new(fp(0.0, 0.0), fp(4.0, 0.0), fp(0.0, 3.0));
    let halves = level.half_triangles();
    assert_eq!(halves.len(), 1);
    assert_eq!((halves[0].y, halves[0].x1, halves[0].x2), (F(0.0), F(0.0), F(4.0)));
    assert_eq!(halves[0].free, fp(0.0, 3.0));
    assert_eq!(halves[0].area(), F(6.0));
    assert_eq!(level.area(), F(6.0));

    // the middle corner (4, 2) cuts the side from (0, 0) to (1, 4) at x = 0.5
    let slanted = Triangle::new(fp(0.0, 0.0), fp(4.0, 2.0), fp(1.0, 4.0));
    let halves = slanted.half_triangles();
    assert_eq!(halves.len(), 2);
    assert_eq!((halves[0].y, halves[0].x1, halves[0].x2), (F(2.0), F(4.0), F(0.5)));
    assert_eq!(halves[0].free, fp(0.0, 0.0));
    assert_eq!((halves[1].y, halves[1].x1, halves[1].x2), (F(2.0), F(0.5), F(4.0)));
    assert_eq!(halves[1].free, fp(1.0, 4.0));
    assert_eq!(slanted.area(), F(7.0));
    assert_eq!(Triangle::new(fp(0.0, 0.0), fp(3.0, 0.0), fp(3.0, 4.0)).perimeter(), F(12.0));
}

#[test]
fn points_and_vectors_under_transforms() {
    let shift = Translation::new(Vector::new(1, -1));
    let scale = Scale::new(Vector::new(2, 3));
    assert_eq!(p(4, 5).transform(&shift), p(5, 4));
    assert_eq!(p(4, 5).translate(shift), p(5, 4));
    assert_eq!(p(4, 5).scale(scale), p(8, 15));
    assert_eq!(p(4, 5).scale_uniform(2), p(8, 10));
    assert_eq!(p(7, 8).affine(Affine::new([1, 2, 3, 4, 5, 6])), p(36, 50));
    assert_eq!(Vector::new(4, 5).transform(&scale), Vector::new(8, 15));
    assert_eq!(Vector::new(4, 5).translate(shift), Vector::new(5, 4));
    assert_eq!(Vector::new(4, 5).scale(scale), Vector::new(8, 15));
    assert_eq!(Vector::new(4, 5).scale_uniform(3), Vector::new(12, 15));
    assert_eq!(Vector::new(7, 8).affine(Affine::new([1, 2, 3, 4, 5, 6])), Vector::new(36, 50));
}

#[test]
fn angles_wound_into_a_full_turn() {
    // with half a turn of 180, angles are wound into 0..360
    assert_eq!(Angle::from_radians(725).positive(180).radians(), 5);
    assert_eq!(Angle::from_radians(-30).positive(180).radians(), 330);
    assert_eq!(Angle::from_radians(90).positive(180).radians(), 90);
    assert_eq!(Angle::from_radians(0).positive(180).radians(), 0);
    let arc = Arc::new(p(0, 0), 5, Angle::from_radians(30), Angle::from_radians(90));
    let back = arc.reverse(360);
    assert_eq!(back.start_angle().radians(), 90);
    assert_eq!(back.end_angle().radians(), 30);
    assert_eq!(back.center(), p(0, 0));
    assert_eq!(back.radius(), 5);
}

#[test]
fn rotations_and_inverses() {
    // a quarter turn: sine one, cosine zero
    assert_eq!(turn(fp(2.0, 3.0), F(1.0), F(0.0)), fp(-3.0, 2.0));
    assert_eq!(
        Affine::rotation(F(1.0), F(0.0)).as_coefficients(),
        [F(0.0), F(-1.0), F(1.0), F(0.0), F(0.0), F(0.0)]
    );
    // the determinant is 2 * 4 - 0 * 0 = 8
    let inverse = Affine::new([F(2.0), F(0.0), F(0.0), F(4.0), F(6.0), F(8.0)]).inverse();
    assert_eq!(
        inverse.as_coefficients(),
        [F(0.5), F(-0.0), F(-0.0), F(0.25), F(-3.0), F(-2.0)]
    );
}

fn upright(x: f32) -> Vec<StraightPathEvent<F>> {
    vec![
        StraightPathEvent::Begin { at: fp(x, 0.0) },
        StraightPathEvent::Line { from: fp(x, 0.0), to: fp(x, 4.0) },
        StraightPathEvent::End { first: fp(x, 0.0), last: fp(x, 4.0), close: false },
    ]
}

#[test]
fn shape_area_adds_up_its_trapezoids() {
    let path = Flattened { events: [upright(0.0), upright(2.0), upright(4.0), upright(6.0)].concat() };
    // one trapezoid of width 2 and height 4, and two of no height
    assert_eq!(shape_trapezoids(&path).collect().len(), 3);
    assert_eq!(shape_area(&path), F(8.0));
    let nothing: Flattened<F> = Flattened { events: vec![] };
    assert_eq!(shape_area(&nothing), F(0.0));
}

#[test]
fn shape_bounding_box_unites_its_trapezoids() {
    let path = Flattened { events: [upright(0.0), upright(2.0), upright(4.0), upright(6.0)].concat() };
    let bounds = shape_bounding_box(&path);
    assert_eq!((bounds.min(), bounds.max()), (fp(0.0, 0.0), fp(6.0, 4.0)));
    // without a trapezoid the box stays without bounds
    let nothing: Flattened<F> = Flattened { events: vec![] };
    let bounds = shape_bounding_box(&nothing);
    assert_eq!((bounds.min(), bounds.max()), (fp(f32::MAX, f32::MAX), fp(f32::MIN, f32::MIN)));
}

#[test]
fn unbounded_box_is_the_unit_of_the_union() {
    let unbounded: Box<SatInt> = Box::unbounded_real();
    assert_eq!(SatInt::max_value().value(), i64::MAX);
    assert_eq!(unbounded.min().x().value(), i64::MAX);
    assert_eq!(unbounded.min().y().value(), i64::MAX);
    assert_eq!(unbounded.max().x().value(), i64::MIN);
    assert_eq!(unbounded.max().y().value(), i64::MIN);
    let other = Box::new(
        Point::new(SatInt::new(-3), SatInt::new(2)),
        Point::new(SatInt::new(5), SatInt::new(7)),
    );
    let united = unbounded.union(&other);
    assert_eq!(united.min().x().value(), -3);
    assert_eq!(united.min().y().value(), 2);
    assert_eq!(united.max().x().value(), 5);
    assert_eq!(united.max().y().value(), 7);
}
