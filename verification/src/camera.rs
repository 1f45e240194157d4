//! Cameras as the dialect serializes them: clip planes, field of view and
//! projection kind.  The runtime host builds the real camera from these.

use vstd::prelude::*;

use crate::color::{ColorV, UnityColor};
use crate::fields::{as_i32, as_i32_exec, color_field_req, i64_field_req, num_field_req,
    color_field_exec, i64_field_exec, num_field_exec};
use crate::record::{fields_view, FieldV, RawField};

verus! {

/// A camera record; numeric settings are raw tokens.
pub struct UnityCamera {
    pub background_color: UnityColor,
    pub near_clip_plane: String,
    pub far_clip_plane: String,
    pub fov: String,
    pub orthographic: i32,
    pub orthographic_size: String,
}

/// Specification image of a [`UnityCamera`].
pub struct CameraV {
    pub background_color: ColorV,
    pub near_clip_plane: Seq<char>,
    pub far_clip_plane: Seq<char>,
    pub fov: Seq<char>,
    pub orthographic: i32,
    pub orthographic_size: Seq<char>,
}

impl View for UnityCamera {
    type V = CameraV;

    open spec fn view(&self) -> CameraV {
        CameraV {
            background_color: self.background_color@,
            near_clip_plane: self.near_clip_plane@,
            far_clip_plane: self.far_clip_plane@,
            fov: self.fov@,
            orthographic: self.orthographic,
            orthographic_size: self.orthographic_size@,
        }
    }
}

/// How a camera decodes: every field is required, under its serialized
/// alias.
pub open spec fn camera_spec(fs: Seq<FieldV>, s: int, e: int) -> Option<CameraV> {
    let bg = color_field_req(fs, s, e, "background_color"@, "m_BackGroundColor"@);
    let near = num_field_req(fs, s, e, "near_clip_plane"@, "near clip plane"@);
    let far = num_field_req(fs, s, e, "far_clip_plane"@, "far clip plane"@);
    let fov = num_field_req(fs, s, e, "fov"@, "field of view"@);
    let ortho = as_i32(i64_field_req(fs, s, e, "orthographic"@, "orthographic"@));
    let osize = num_field_req(fs, s, e, "orthographic_size"@, "orthographic size"@);
    match (bg, near, far, fov, ortho, osize) {
        (Some(bg), Some(near), Some(far), Some(fov), Some(ortho), Some(osize)) => Some(
            CameraV {
                background_color: bg,
                near_clip_plane: near,
                far_clip_plane: far,
                fov,
                orthographic: ortho,
                orthographic_size: osize,
            },
        ),
        _ => None,
    }
}

/// Decodes a camera record, per [`camera_spec`].
pub fn decode_camera(fields: &Vec<RawField>, start: usize, end: usize) -> (r: Option<UnityCamera>)
    requires
        start <= end <= fields@.len(),
    ensures
        ({
            let fs = fields_view(fields@);
            match r {
                Some(c) => camera_spec(fs, start as int, end as int) == Some(c@),
                None => camera_spec(fs, start as int, end as int) is None,
            }
        }),
{
    let background_color = match color_field_exec(
        fields,
        start,
        end,
        "background_color",
        "m_BackGroundColor",
    ) {
        Some(v) => v,
        None => {
            return None;
        },
    };
    let near_clip_plane = match num_field_exec(
        fields,
        start,
        end,
        "near_clip_plane",
        "near clip plane",
        None,
    ) {
        Some(v) => v,
        None => {
            return None;
        },
    };
    let far_clip_plane = match num_field_exec(
        fields,
        start,
        end,
        "far_clip_plane",
        "far clip plane",
        None,
    ) {
        Some(v) => v,
        None => {
            return None;
        },
    };
    let fov = match num_field_exec(fields, start, end, "fov", "field of view", None) {
        Some(v) => v,
        None => {
            return None;
        },
    };
    let orthographic = match as_i32_exec(
        i64_field_exec(fields, start, end, "orthographic", "orthographic", None),
    ) {
        Some(v) => v,
        None => {
            return None;
        },
    };
    let orthographic_size = match num_field_exec(
        fields,
        start,
        end,
        "orthographic_size",
        "orthographic size",
        None,
    ) {
        Some(v) => v,
        None => {
            return None;
        },
    };
    Some(UnityCamera {
        background_color,
        near_clip_plane,
        far_clip_plane,
        fov,
        orthographic,
        orthographic_size,
    })
}

} // verus!
