//! Colors as the dialect serializes them: four raw numeric tokens.

use vstd::prelude::*;

use crate::chars::string_from_chars;
use crate::fields::{pair_value, pair_value_exec, pairs_view};
use crate::scalar::{is_number_exec, is_number_token};

verus! {

/// An RGBA color; each channel is a raw numeric token.
pub struct UnityColor {
    pub r: String,
    pub g: String,
    pub b: String,
    pub a: String,
}

/// Specification image of a [`UnityColor`].
pub struct ColorV {
    pub r: Seq<char>,
    pub g: Seq<char>,
    pub b: Seq<char>,
    pub a: Seq<char>,
}

impl View for UnityColor {
    type V = ColorV;

    open spec fn view(&self) -> ColorV {
        ColorV { r: self.r@, g: self.g@, b: self.b@, a: self.a@ }
    }
}

/// How a color decodes from an inline map: `r`, `g`, `b` and `a` all
/// present and number-shaped.
pub open spec fn color_spec(ps: Seq<(Seq<char>, Seq<char>)>) -> Option<ColorV> {
    match (
        pair_value(ps, "r"@),
        pair_value(ps, "g"@),
        pair_value(ps, "b"@),
        pair_value(ps, "a"@),
    ) {
        (Some(r), Some(g), Some(b), Some(a)) => {
            if is_number_token(r) && is_number_token(g) && is_number_token(b) && is_number_token(
                a,
            ) {
                Some(ColorV { r, g, b, a })
            } else {
                None
            }
        },
        _ => None,
    }
}

/// Decodes a color, per [`color_spec`].
pub fn decode_color(ps: &Vec<(Vec<char>, Vec<char>)>) -> (r: Option<UnityColor>)
    ensures
        match r {
            Some(v) => color_spec(pairs_view(ps@)) == Some(v@),
            None => color_spec(pairs_view(ps@)) is None,
        },
{
    let rr = match pair_value_exec(ps, "r") {
        Some(t) => t,
        None => {
            return None;
        },
    };
    let g = match pair_value_exec(ps, "g") {
        Some(t) => t,
        None => {
            return None;
        },
    };
    let b = match pair_value_exec(ps, "b") {
        Some(t) => t,
        None => {
            return None;
        },
    };
    let a = match pair_value_exec(ps, "a") {
        Some(t) => t,
        None => {
            return None;
        },
    };
    if is_number_exec(rr) && is_number_exec(g) && is_number_exec(b) && is_number_exec(a) {
        Some(UnityColor {
            r: string_from_chars(rr),
            g: string_from_chars(g),
            b: string_from_chars(b),
            a: string_from_chars(a),
        })
    } else {
        None
    }
}

} // verus!
