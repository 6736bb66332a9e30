use blood_geometry::num::{One, Real, Zero};
use blood_geometry::point::{Point, Vector};
use blood_geometry::ApproxEq;
use std::ops::{Add, Div, Mul, Neg, Sub};

/// A single-precision scalar for the sweep.
#[derive(Clone, Copy, Debug, PartialEq, PartialOrd)]
struct F(f32);

impl Add for F {
    type Output = F;
    fn add(self, rhs: F) -> F {
        F(self.0 + rhs.0)
    }
}

impl Sub for F {
    type Output = F;
    fn sub(self, rhs: F) -> F {
        F(self.0 - rhs.0)
    }
}

impl Mul for F {
    type Output = F;
    fn mul(self, rhs: F) -> F {
        F(self.0 * rhs.0)
    }
}

impl Div for F {
    type Output = F;
    fn div(self, rhs: F) -> F {
        F(self.0 / rhs.0)
    }
}

impl Neg for F {
    type Output = F;
    fn neg(self) -> F {
        F(-self.0)
    }
}

impl Zero for F {
    fn zero_spec() -> F {
        F(0.0)
    }
    fn zero() -> F {
        F(0.0)
    }
}

impl One for F {
    fn one_spec() -> F {
        F(1.0)
    }
    fn one() -> F {
        F(1.0)
    }
}

impl ApproxEq for F {
    fn approx_eq_spec(&self, other: &F) -> bool {
        (self.0 - other.0).abs() < f32::EPSILON
    }
    fn approx_eq(&self, other: &F) -> bool {
        (self.0 - other.0).abs() < f32::EPSILON
    }
}

impl Real for F {
    fn epsilon_spec() -> F {
        F(f32::EPSILON)
    }
    fn min_value_spec() -> F {
        F(f32::MIN)
    }
    fn max_value_spec() -> F {
        F(f32::MAX)
    }
    fn abs_spec(self) -> F {
        F(self.0.abs())
    }
    fn sqrt_spec(self) -> F {
        F(self.0.sqrt())
    }
    fn epsilon() -> F {
        F(f32::EPSILON)
    }
    fn min_value() -> F {
        F(f32::MIN)
    }
    fn max_value() -> F {
        F(f32::MAX)
    }
    fn abs(self) -> F {
        F(self.0.abs())
    }
    fn sqrt(self) -> F {
        F(self.0.sqrt())
    }
    fn lemma_laws() {}
}

#[test]
fn test_point() {
    let point = Point::new(1.0, 2.0);
    assert_eq!(point.x(), 1.0);
    assert_eq!(point.y(), 2.0);
}

#[test]
fn test_vector() {
    let vector = Vector::new(1.0, 2.0);
    assert_eq!(vector.x(), 1.0);
    assert_eq!(vector.y(), 2.0);
}

#[test]
fn test_add() {
    let point = Point::new(1.0, 2.0);
    let vector = Vector::new(3.0, 4.0);
    let result = point + vector;
    assert_eq!(result.x(), 4.0);
    assert_eq!(result.y(), 6.0);
}

#[test]
fn test_sub() {
    let point = Point::new(1.0, 2.0);
    let vector = Vector::new(3.0, 4.0);
    let result = point - vector;
    assert_eq!(result.x(), -2.0);
    assert_eq!(result.y(), -2.0);
}

#[test]
fn test_mul() {
    let point = Point::new(1.0, 2.0);
    let result = point * 2.0;
    assert_eq!(result.x(), 2.0);
    assert_eq!(result.y(), 4.0);
}

#[test]
fn test_div() {
    let point = Point::new(1.0, 2.0);
    let result = point / 2.0;
    assert_eq!(result.x(), 0.5);
    assert_eq!(result.y(), 1.0);
}

#[test]
fn test_neg() {
    let point = Point::new(1.0, 2.0);
    let result = -point;
    assert_eq!(result.x(), -1.0);
    assert_eq!(result.y(), -2.0);
}

#[test]
fn test_dot() {
    let vector1 = Vector::new(1.0, 2.0);
    let vector2 = Vector::new(3.0, 4.0);
    let result = vector1.dot(vector2);
    assert_eq!(result, 11.0);
}

#[test]
fn test_cross() {
    let vector1 = Vector::new(1.0, 2.0);
    let vector2 = Vector::new(3.0, 4.0);
    let result = vector1.cross(vector2);
    assert_eq!(result, -2.0);
}

#[test]
fn test_length() {
    let vector = Vector::new(F(3.0), F(4.0));
    let result = vector.length();
    assert_eq!(result, F(5.0));
}

#[test]
fn test_length_squared() {
    let vector = Vector::new(3.0, 4.0);
    let result = vector.length_squared();
    assert_eq!(result, 25.0);
}

#[test]
fn test_normalize() {
    let vector = Vector::new(F(3.0), F(4.0));
    let result = vector.normalize();
    assert_eq!(result.x(), F(0.6));
    assert_eq!(result.y(), F(0.8));
}

#[test]
fn test_distance() {
    let point1 = Point::new(F(1.0), F(2.0));
    let point2 = Point::new(F(1.0), F(4.0));
    let result = point1.distance(point2);
    assert_eq!(result, F(2.0));
}

#[test]
fn test_distance_squared() {
    let point1 = Point::new(1.0, 2.0);
    let point2 = Point::new(1.0, 4.0);
    let result = point1.distance_squared(point2);
    assert_eq!(result, 4.0);
}

#[test]
fn test_midpoint() {
    let point1 = Point::new(F(1.0), F(2.0));
    let point2 = Point::new(F(1.0), F(4.0));
    let result = point1.midpoint(point2);
    assert_eq!(result.x(), F(1.0));
    assert_eq!(result.y(), F(3.0));
}

#[test]
fn test_from() {
    let point = Point::new(1.0, 2.0);
    let vector = Vector::from(point);
    assert_eq!(vector.x(), 1.0);
    assert_eq!(vector.y(), 2.0);
}

#[test]
fn test_into() {
    let vector = Vector::new(1.0, 2.0);
    let point: Point<f32> = vector.into();
    assert_eq!(point.x(), 1.0);
    assert_eq!(point.y(), 2.0);
}

#[test]
fn test_from_array() {
    let array = [1.0, 2.0];
    let point = Point::from(array);
    assert_eq!(point.x(), 1.0);
    assert_eq!(point.y(), 2.0);
}

#[test]
fn test_into_array() {
    let point = Point::new(1.0, 2.0);
    let array: [f32; 2] = point.into();
    assert_eq!(array[0], 1.0);
    assert_eq!(array[1], 2.0);
}

#[test]
fn test_from_tuple() {
    let tuple = (1.0, 2.0);
    let point = Point::from(tuple);
    assert_eq!(point.x(), 1.0);
    assert_eq!(point.y(), 2.0);
}

#[test]
fn projection_scales_the_other_vector() {
    // the dot product is 11 and the square length of the other vector 5
    let result = Vector::new(F(3.0), F(4.0)).project(Vector::new(F(1.0), F(2.0)));
    assert_eq!(result.x(), F(11.0 / 5.0));
    assert_eq!(result.y(), F(2.0 * (11.0 / 5.0)));
    // a vector along the other one is its own projection
    let result = Vector::new(F(2.0), F(4.0)).project(Vector::new(F(1.0), F(2.0)));
    assert_eq!((result.x(), result.y()), (F(2.0), F(4.0)));
    // a vector across the other one has none
    let result = Vector::new(F(-2.0), F(1.0)).project(Vector::new(F(1.0), F(2.0)));
    assert_eq!((result.x(), result.y()), (F(0.0), F(0.0)));
}
