//! The 4 x 4 matrices of the affine transformations.
//!
//! A point is transformed with the homogeneous coordinate 1 and a vector with
//! 0, so that the fourth column, which holds the translation, moves points and
//! leaves vectors alone.

use vstd::prelude::*;
use crate::scalar::{Scalar, ONE_BITS};
use crate::math::matrix::Matrix;

verus! {

/// The matrix that moves a point by `x`, `y` and `z` along the axes.
pub fn translation(x: Scalar, y: Scalar, z: Scalar) -> (m: Matrix)
    ensures
        m.rows() == 4,
        m.cols() == 4,
        m@ == ({
            let i = Scalar { bits: ONE_BITS };
            let o = Scalar { bits: 0 };
            seq![seq![i, o, o, x], seq![o, i, o, y], seq![o, o, i, z], seq![o, o, o, i]]
        }),
{
    let i = Scalar::one();
    let o = Scalar::zero();
    build(vec![vec![i, o, o, x], vec![o, i, o, y], vec![o, o, i, z], vec![o, o, o, i]])
}

/// The matrix that scales by `x`, `y` and `z` along the axes.
pub fn scaling(x: Scalar, y: Scalar, z: Scalar) -> (m: Matrix)
    ensures
        m.rows() == 4,
        m.cols() == 4,
        m@ == ({
            let i = Scalar { bits: ONE_BITS };
            let o = Scalar { bits: 0 };
            seq![seq![x, o, o, o], seq![o, y, o, o], seq![o, o, z, o], seq![o, o, o, i]]
        }),
{
    let i = Scalar::one();
    let o = Scalar::zero();
    build(vec![vec![x, o, o, o], vec![o, y, o, o], vec![o, o, z, o], vec![o, o, o, i]])
}

/// The matrix that rotates about the x axis by the angle whose sine and
/// cosine are given.
pub fn rotation_rad_x(sin: Scalar, cos: Scalar) -> (m: Matrix)
    ensures
        m.rows() == 4,
        m.cols() == 4,
        m@ == ({
            let i = Scalar { bits: ONE_BITS };
            let o = Scalar { bits: 0 };
            seq![seq![i, o, o, o], seq![o, cos, sin.negated(), o], seq![o, sin, cos, o], seq![o, o, o, i]]
        }),
{
    let i = Scalar::one();
    let o = Scalar::zero();
    build(vec![vec![i, o, o, o], vec![o, cos, sin.neg(), o], vec![o, sin, cos, o], vec![o, o, o, i]])
}

/// The matrix that rotates about the y axis by the angle whose sine and
/// cosine are given.
pub fn rotation_rad_y(sin: Scalar, cos: Scalar) -> (m: Matrix)
    ensures
        m.rows() == 4,
        m.cols() == 4,
        m@ == ({
            let i = Scalar { bits: ONE_BITS };
            let o = Scalar { bits: 0 };
            seq![seq![cos, o, sin, o], seq![o, i, o, o], seq![sin.negated(), o, cos, o], seq![o, o, o, i]]
        }),
{
    let i = Scalar::one();
    let o = Scalar::zero();
    build(vec![vec![cos, o, sin, o], vec![o, i, o, o], vec![sin.neg(), o, cos, o], vec![o, o, o, i]])
}

/// The matrix that rotates about the z axis by the angle whose sine and
/// cosine are given.
pub fn rotation_rad_z(sin: Scalar, cos: Scalar) -> (m: Matrix)
    ensures
        m.rows() == 4,
        m.cols() == 4,
        m@ == ({
            let i = Scalar { bits: ONE_BITS };
            let o = Scalar { bits: 0 };
            seq![seq![cos, sin.negated(), o, o], seq![sin, cos, o, o], seq![o, o, i, o], seq![o, o, o, i]]
        }),
{
    let i = Scalar::one();
    let o = Scalar::zero();
    build(vec![vec![cos, sin.neg(), o, o], vec![sin, cos, o, o], vec![o, o, i, o], vec![o, o, o, i]])
}

/// The matrix that shears: `xpy` is the amount by which x moves in proportion
/// to y, and so on for the other five.
pub fn shearing(xpy: Scalar, xpz: Scalar, ypx: Scalar, ypz: Scalar, zpx: Scalar, zpy: Scalar) -> (m: Matrix)
    ensures
        m.rows() == 4,
        m.cols() == 4,
        m@ == ({
            let i = Scalar { bits: ONE_BITS };
            let o = Scalar { bits: 0 };
            seq![seq![i, xpy, xpz, o], seq![ypx, i, ypz, o], seq![zpx, zpy, i, o], seq![o, o, o, i]]
        }),
{
    let i = Scalar::one();
    let o = Scalar::zero();
    build(vec![vec![i, xpy, xpz, o], vec![ypx, i, ypz, o], vec![zpx, zpy, i, o], vec![o, o, o, i]])
}

/// The matrix with the four given lines of four entries.
fn build(v: Vec<Vec<Scalar>>) -> (m: Matrix)
    requires
        v@.len() == 4,
        forall|r: int| 0 <= r < 4 ==> (#[trigger] v@[r]).len() == 4,
    ensures
        m.rows() == 4,
        m.cols() == 4,
        m@ == crate::math::matrix::lines(v@),
{
    Matrix::from_vec(v).unwrap()
}

} // verus!
