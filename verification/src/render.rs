//! Scene-wide render settings: fog, ambient light and the skybox
//! material.

use vstd::prelude::*;

use crate::color::{ColorV, UnityColor};
use crate::fields::{
    as_i32, as_i32_exec, color_field_req, i64_field_req, num_field_req, ref_field_req,
    color_field_exec, i64_field_exec, num_field_exec, ref_field_exec,
};
use crate::record::{fields_view, FieldV, RawField};
use crate::reference::{FileReference, FileRefV};

verus! {

/// The render settings of a scene; numeric settings are raw tokens.
pub struct UnityRenderSettings {
    pub fog: i32,
    pub fog_color: UnityColor,
    pub ambient_sky_color: UnityColor,
    pub ambient_intensity: String,
    pub skybox_material: FileReference,
    pub indirect_specular_color: UnityColor,
}

/// Specification image of a [`UnityRenderSettings`].
pub struct RenderSettingsV {
    pub fog: i32,
    pub fog_color: ColorV,
    pub ambient_sky_color: ColorV,
    pub ambient_intensity: Seq<char>,
    pub skybox_material: FileRefV,
    pub indirect_specular_color: ColorV,
}

impl View for UnityRenderSettings {
    type V = RenderSettingsV;

    open spec fn view(&self) -> RenderSettingsV {
        RenderSettingsV {
            fog: self.fog,
            fog_color: self.fog_color@,
            ambient_sky_color: self.ambient_sky_color@,
            ambient_intensity: self.ambient_intensity@,
            skybox_material: self.skybox_material@,
            indirect_specular_color: self.indirect_specular_color@,
        }
    }
}

/// How render settings decode: every field required under its serialized
/// alias.
pub open spec fn rendersettings_spec(fs: Seq<FieldV>, s: int, e: int) -> Option<RenderSettingsV> {
    let fog = as_i32(i64_field_req(fs, s, e, "fog"@, "m_Fog"@));
    let fog_color = color_field_req(fs, s, e, "fog_color"@, "m_FogColor"@);
    let sky = color_field_req(fs, s, e, "ambient_sky_color"@, "m_AmbientSkyColor"@);
    let intensity = num_field_req(fs, s, e, "ambient_intensity"@, "m_AmbientIntensity"@);
    let skybox = ref_field_req(fs, s, e, "skybox_material"@, "m_SkyboxMaterial"@);
    let specular = color_field_req(
        fs,
        s,
        e,
        "indirect_specular_color"@,
        "m_IndirectSpecularColor"@,
    );
    match (fog, fog_color, sky, intensity, skybox, specular) {
        (Some(f), Some(fc), Some(sk), Some(it), Some(sm), Some(sp)) => Some(
            RenderSettingsV {
                fog: f,
                fog_color: fc,
                ambient_sky_color: sk,
                ambient_intensity: it,
                skybox_material: sm,
                indirect_specular_color: sp,
            },
        ),
        _ => None,
    }
}

/// Decodes a render-settings record, per [`rendersettings_spec`].
pub fn decode_rendersettings(fields: &Vec<RawField>, start: usize, end: usize) -> (r: Option<
    UnityRenderSettings,
>)
    requires
        start <= end <= fields@.len(),
    ensures
        ({
            let fs = fields_view(fields@);
            match r {
                Some(v) => rendersettings_spec(fs, start as int, end as int) == Some(v@),
                None => rendersettings_spec(fs, start as int, end as int) is None,
            }
        }),
{
    let fog = match as_i32_exec(i64_field_exec(fields, start, end, "fog", "m_Fog", None)) {
        Some(v) => v,
        None => {
            return None;
        },
    };
    let fog_color = match color_field_exec(fields, start, end, "fog_color", "m_FogColor") {
        Some(v) => v,
        None => {
            return None;
        },
    };
    let ambient_sky_color = match color_field_exec(
        fields,
        start,
        end,
        "ambient_sky_color",
        "m_AmbientSkyColor",
    ) {
        Some(v) => v,
        None => {
            return None;
        },
    };
    let ambient_intensity = match num_field_exec(
        fields,
        start,
        end,
        "ambient_intensity",
        "m_AmbientIntensity",
        None,
    ) {
        Some(v) => v,
        None => {
            return None;
        },
    };
    let skybox_material = match ref_field_exec(
        fields,
        start,
        end,
        "skybox_material",
        "m_SkyboxMaterial",
        true,
    ) {
        Some(v) => v,
        None => {
            return None;
        },
    };
    let indirect_specular_color = match color_field_exec(
        fields,
        start,
        end,
        "indirect_specular_color",
        "m_IndirectSpecularColor",
    ) {
        Some(v) => v,
        None => {
            return None;
        },
    };
    Some(UnityRenderSettings {
        fog,
        fog_color,
        ambient_sky_color,
        ambient_intensity,
        skybox_material,
        indirect_specular_color,
    })
}

} // verus!
