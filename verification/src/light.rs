//! Lights as the dialect serializes them: kind, color, intensity, range
//! and shadow setting.

use vstd::prelude::*;

use crate::color::{ColorV, UnityColor};
use crate::fields::{as_i32, as_i32_exec, color_field_req, i64_field_req, nested_i64_field_req,
    num_field_req, color_field_exec, i64_field_exec, nested_i64_field_exec, num_field_exec};
use crate::record::{fields_view, FieldV, RawField};

verus! {

/// The shadow setting of a light.
pub struct Shadows {
    pub shadow_type: i32,
}

/// A light record; numeric settings are raw tokens.
pub struct UnityLight {
    pub enabled: i32,
    pub light_type: i32,
    pub color: UnityColor,
    pub intensity: String,
    pub shadows: Shadows,
    pub range: String,
}

/// Specification image of a [`UnityLight`].
pub struct LightV {
    pub enabled: i32,
    pub light_type: i32,
    pub color: ColorV,
    pub intensity: Seq<char>,
    pub shadow_type: i32,
    pub range: Seq<char>,
}

impl View for UnityLight {
    type V = LightV;

    open spec fn view(&self) -> LightV {
        LightV {
            enabled: self.enabled,
            light_type: self.light_type,
            color: self.color@,
            intensity: self.intensity@,
            shadow_type: self.shadows.shadow_type,
            range: self.range@,
        }
    }
}

/// How a light decodes: every field is required under its serialized
/// name; the shadow setting lives one level down under `m_Shadows`.
pub open spec fn light_spec(fs: Seq<FieldV>, s: int, e: int) -> Option<LightV> {
    let enabled = as_i32(i64_field_req(fs, s, e, "m_Enabled"@, "m_Enabled"@));
    let light_type = as_i32(i64_field_req(fs, s, e, "m_Type"@, "m_Type"@));
    let color = color_field_req(fs, s, e, "m_Color"@, "m_Color"@);
    let intensity = num_field_req(fs, s, e, "m_Intensity"@, "m_Intensity"@);
    let shadow_type = as_i32(nested_i64_field_req(fs, s, e, "m_Shadows"@, "m_Type"@));
    let range = num_field_req(fs, s, e, "m_Range"@, "m_Range"@);
    match (enabled, light_type, color, intensity, shadow_type, range) {
        (Some(en), Some(lt), Some(c), Some(it), Some(st), Some(rg)) => Some(
            LightV {
                enabled: en,
                light_type: lt,
                color: c,
                intensity: it,
                shadow_type: st,
                range: rg,
            },
        ),
        _ => None,
    }
}

/// Decodes a light record, per [`light_spec`].
pub fn decode_light(fields: &Vec<RawField>, start: usize, end: usize) -> (r: Option<UnityLight>)
    requires
        start <= end <= fields@.len(),
    ensures
        ({
            let fs = fields_view(fields@);
            match r {
                Some(l) => light_spec(fs, start as int, end as int) == Some(l@),
                None => light_spec(fs, start as int, end as int) is None,
            }
        }),
{
    let enabled = match as_i32_exec(
        i64_field_exec(fields, start, end, "m_Enabled", "m_Enabled", None),
    ) {
        Some(v) => v,
        None => {
            return None;
        },
    };
    let light_type = match as_i32_exec(
        i64_field_exec(fields, start, end, "m_Type", "m_Type", None),
    ) {
        Some(v) => v,
        None => {
            return None;
        },
    };
    let color = match color_field_exec(fields, start, end, "m_Color", "m_Color") {
        Some(v) => v,
        None => {
            return None;
        },
    };
    let intensity = match num_field_exec(fields, start, end, "m_Intensity", "m_Intensity", None) {
        Some(v) => v,
        None => {
            return None;
        },
    };
    let shadow_type = match as_i32_exec(
        nested_i64_field_exec(fields, start, end, "m_Shadows", "m_Type"),
    ) {
        Some(v) => v,
        None => {
            return None;
        },
    };
    let range = match num_field_exec(fields, start, end, "m_Range", "m_Range", None) {
        Some(v) => v,
        None => {
            return None;
        },
    };
    Some(UnityLight {
        enabled,
        light_type,
        color,
        intensity,
        shadows: Shadows { shadow_type },
        range,
    })
}

} // verus!
