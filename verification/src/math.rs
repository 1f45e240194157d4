//! Vectors and quaternions as the dialect serializes them.
//!
//! The runtime host computes with these values; the core only carries
//! them, so each component is kept as its raw numeric token.

use vstd::prelude::*;

use crate::chars::string_from_chars;
use crate::fields::{pair_value, pair_value_exec, pairs_view};
use crate::scalar::{is_number_exec, is_number_token};

verus! {

/// A three-component vector; each component is a raw numeric token.
pub struct UnityVector3 {
    pub x: String,
    pub y: String,
    pub z: String,
}

/// Specification image of a [`UnityVector3`].
pub struct Vector3V {
    pub x: Seq<char>,
    pub y: Seq<char>,
    pub z: Seq<char>,
}

impl View for UnityVector3 {
    type V = Vector3V;

    open spec fn view(&self) -> Vector3V {
        Vector3V { x: self.x@, y: self.y@, z: self.z@ }
    }
}

/// A rotation; each component is a raw numeric token.
pub struct UnityQuaternion {
    pub x: String,
    pub y: String,
    pub z: String,
    pub w: String,
}

/// Specification image of a [`UnityQuaternion`].
pub struct QuaternionV {
    pub x: Seq<char>,
    pub y: Seq<char>,
    pub z: Seq<char>,
    pub w: Seq<char>,
}

impl View for UnityQuaternion {
    type V = QuaternionV;

    open spec fn view(&self) -> QuaternionV {
        QuaternionV { x: self.x@, y: self.y@, z: self.z@, w: self.w@ }
    }
}

/// A two-component vector; each component is a raw numeric token.
pub struct UnityVector2 {
    pub x: String,
    pub y: String,
}

pub open spec fn vec3_of(x: Seq<char>, y: Seq<char>, z: Seq<char>) -> Vector3V {
    Vector3V { x, y, z }
}

pub open spec fn vec3_zero() -> Vector3V {
    vec3_of("0"@, "0"@, "0"@)
}

pub open spec fn vec3_unit() -> Vector3V {
    vec3_of("1"@, "1"@, "1"@)
}

pub open spec fn quat_zero() -> QuaternionV {
    QuaternionV { x: "0"@, y: "0"@, z: "0"@, w: "0"@ }
}

/// The zero vector.
pub fn default_vector3() -> (r: UnityVector3)
    ensures
        r@ == vec3_zero(),
{
    UnityVector3 {
        x: String::from_str("0"),
        y: String::from_str("0"),
        z: String::from_str("0"),
    }
}

/// The zero rotation as serialized: all components zero.
pub fn default_quaternion() -> (r: UnityQuaternion)
    ensures
        r@ == quat_zero(),
{
    UnityQuaternion {
        x: String::from_str("0"),
        y: String::from_str("0"),
        z: String::from_str("0"),
        w: String::from_str("0"),
    }
}

/// How a vector decodes from an inline map: `x`, `y` and `z` all present
/// and number-shaped.
pub open spec fn vec3_spec(ps: Seq<(Seq<char>, Seq<char>)>) -> Option<Vector3V> {
    match (pair_value(ps, "x"@), pair_value(ps, "y"@), pair_value(ps, "z"@)) {
        (Some(x), Some(y), Some(z)) => {
            if is_number_token(x) && is_number_token(y) && is_number_token(z) {
                Some(vec3_of(x, y, z))
            } else {
                None
            }
        },
        _ => None,
    }
}

/// How a rotation decodes from an inline map: `x`, `y`, `z` and `w` all
/// present and number-shaped.
pub open spec fn quat_spec(ps: Seq<(Seq<char>, Seq<char>)>) -> Option<QuaternionV> {
    match (
        pair_value(ps, "x"@),
        pair_value(ps, "y"@),
        pair_value(ps, "z"@),
        pair_value(ps, "w"@),
    ) {
        (Some(x), Some(y), Some(z), Some(w)) => {
            if is_number_token(x) && is_number_token(y) && is_number_token(z) && is_number_token(
                w,
            ) {
                Some(QuaternionV { x, y, z, w })
            } else {
                None
            }
        },
        _ => None,
    }
}

/// Decodes a vector, per [`vec3_spec`].
pub fn decode_vec3(ps: &Vec<(Vec<char>, Vec<char>)>) -> (r: Option<UnityVector3>)
    ensures
        match r {
            Some(v) => vec3_spec(pairs_view(ps@)) == Some(v@),
            None => vec3_spec(pairs_view(ps@)) is None,
        },
{
    let x = match pair_value_exec(ps, "x") {
        Some(t) => t,
        None => {
            return None;
        },
    };
    let y = match pair_value_exec(ps, "y") {
        Some(t) => t,
        None => {
            return None;
        },
    };
    let z = match pair_value_exec(ps, "z") {
        Some(t) => t,
        None => {
            return None;
        },
    };
    if is_number_exec(x) && is_number_exec(y) && is_number_exec(z) {
        Some(UnityVector3 {
            x: string_from_chars(x),
            y: string_from_chars(y),
            z: string_from_chars(z),
        })
    } else {
        None
    }
}

/// Decodes a rotation, per [`quat_spec`].
pub fn decode_quat(ps: &Vec<(Vec<char>, Vec<char>)>) -> (r: Option<UnityQuaternion>)
    ensures
        match r {
            Some(v) => quat_spec(pairs_view(ps@)) == Some(v@),
            None => quat_spec(pairs_view(ps@)) is None,
        },
{
    let x = match pair_value_exec(ps, "x") {
        Some(t) => t,
        None => {
            return None;
        },
    };
    let y = match pair_value_exec(ps, "y") {
        Some(t) => t,
        None => {
            return None;
        },
    };
    let z = match pair_value_exec(ps, "z") {
        Some(t) => t,
        None => {
            return None;
        },
    };
    let w = match pair_value_exec(ps, "w") {
        Some(t) => t,
        None => {
            return None;
        },
    };
    if is_number_exec(x) && is_number_exec(y) && is_number_exec(z) && is_number_exec(w) {
        Some(UnityQuaternion {
            x: string_from_chars(x),
            y: string_from_chars(y),
            z: string_from_chars(z),
            w: string_from_chars(w),
        })
    } else {
        None
    }
}

} // verus!
