//! The Phong reflection model: which of its terms light a point of a surface.

use vstd::prelude::*;
use crate::scalar::Scalar;

verus! {

/// The terms that make up the color of a point.  The ambient term always
/// contributes.
#[derive(Clone, Copy, Debug, PartialEq, Eq, Structural)]
pub enum Lighting {
    /// The light is on the other side of the surface; neither the diffuse nor
    /// the specular term contributes.
    Ambient,
    /// The light reaches the point and is reflected away from the eye; the
    /// diffuse term contributes and the specular term does not.
    Diffuse,
    /// The light reaches the point and is reflected towards the eye; the
    /// diffuse and the specular term contribute.
    Specular,
}

/// The terms that contribute, given the cosine of the angle between the
/// vector to the light and the normal of the surface, and the cosine of the
/// angle between the reflected light and the vector to the eye.  The light is
/// behind the surface where the first is negative, and its reflection misses
/// the eye where the second is zero or negative.
pub fn lighting(light_dot_normal: Scalar, reflect_dot_eye: Scalar) -> (r: Lighting)
    ensures
        r == if light_dot_normal.below_zero() {
            Lighting::Ambient
        } else if reflect_dot_eye.at_most_zero() {
            Lighting::Diffuse
        } else {
            Lighting::Specular
        },
{
    let zero = Scalar::zero();
    if light_dot_normal.lt(zero) {
        Lighting::Ambient
    } else if reflect_dot_eye.le(zero) {
        Lighting::Diffuse
    } else {
        Lighting::Specular
    }
}

} // verus!
