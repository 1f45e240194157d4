//! Materials as the host's registry hands them to the core.  Asset
//! loading itself is an external collaborator; the core only reads the
//! skybox texture GUID and the standard-material channels out of a
//! loaded material, by key.

use vstd::prelude::*;

use crate::color::{ColorV, UnityColor};
use crate::math::UnityVector2;
use crate::reference::{FileReference, FileRefV};

verus! {

/// One texture slot of a material.
pub struct TextureInfo {
    pub texture: FileReference,
    pub scale: UnityVector2,
    pub offset: UnityVector2,
}

/// The saved property tables of a material: single-key entries, as the
/// editor serializes them.
pub struct SavedProperties {
    pub serialized_version: u64,
    pub tex_envs: Vec<(String, TextureInfo)>,
    pub floats: Vec<(String, String)>,
    pub colors: Vec<(String, UnityColor)>,
}

/// A material: name, shader reference and saved properties.
pub struct UnityMaterial {
    pub name: String,
    pub shader: FileReference,
    pub properties: SavedProperties,
}

/// The channels of a standard material the host builds; numbers stay raw
/// tokens.
pub struct UnityStandardMaterial {
    pub base_color: UnityColor,
    pub emissive: UnityColor,
    pub metallic: String,
}

/// First-match lookup of a texture slot, by name.
pub open spec fn tex_find(ts: Seq<(String, TextureInfo)>, name: Seq<char>) -> Option<FileRefV>
    decreases ts.len(),
{
    if ts.len() == 0 {
        None
    } else if ts[0].0@ == name {
        Some(ts[0].1.texture@)
    } else {
        tex_find(ts.drop_first(), name)
    }
}

/// First-match lookup of a float channel, by name.
pub open spec fn float_find(ts: Seq<(String, String)>, name: Seq<char>) -> Option<Seq<char>>
    decreases ts.len(),
{
    if ts.len() == 0 {
        None
    } else if ts[0].0@ == name {
        Some(ts[0].1@)
    } else {
        float_find(ts.drop_first(), name)
    }
}

/// First-match lookup of a color channel, by name.
pub open spec fn color_find(ts: Seq<(String, UnityColor)>, name: Seq<char>) -> Option<ColorV>
    decreases ts.len(),
{
    if ts.len() == 0 {
        None
    } else if ts[0].0@ == name {
        Some(ts[0].1@)
    } else {
        color_find(ts.drop_first(), name)
    }
}

/// What a material offers as a standard material: nothing unless its
/// shader is the standard one (id 46); then the `_Color`,
/// `_EmissionColor` and `_Metallic` channels, each required.
pub open spec fn standard_material_spec(m: UnityMaterial) -> Option<
    (ColorV, ColorV, Seq<char>),
> {
    if m.shader.file_id != 46 {
        None
    } else {
        match (
            color_find(m.properties.colors@, "_Color"@),
            color_find(m.properties.colors@, "_EmissionColor"@),
            float_find(m.properties.floats@, "_Metallic"@),
        ) {
            (Some(base), Some(em), Some(met)) => Some((base, em, met)),
            _ => None,
        }
    }
}

impl UnityMaterial {
    /// The GUID of the skybox texture: the `_Tex` slot's texture GUID.
    pub fn get_skybox_texture_id(&self) -> (r: Option<String>)
        ensures
            ({
                let found = tex_find(self.properties.tex_envs@, "_Tex"@);
                match r {
                    Some(g) => found matches Some(fr) && fr.guid == Some(g@),
                    None => match found {
                        Some(fr) => fr.guid is None,
                        None => true,
                    },
                }
            }),
    {
        let ghost ts = self.properties.tex_envs@;
        proof {
            assert(ts.skip(0) =~= ts);
        }
        let n = self.properties.tex_envs.len();
        let mut i: usize = 0;
        while i < n
            invariant
                i <= n == self.properties.tex_envs@.len(),
                ts == self.properties.tex_envs@,
                tex_find(ts, "_Tex"@) == tex_find(ts.skip(i as int), "_Tex"@),
            decreases n - i,
        {
            proof {
                assert(ts.skip(i as int)[0] == ts[i as int]);
                assert(ts.skip(i as int).drop_first() =~= ts.skip(i + 1 as int));
            }
            let e = &self.properties.tex_envs[i];
            if crate::chars::str_eq(e.0.as_str(), "_Tex") {
                return match &e.1.texture.guid {
                    Some(g) => Some(g.clone()),
                    None => None,
                };
            }
            i = i + 1;
        }
        proof {
            assert(ts.skip(n as int) =~= Seq::<(String, TextureInfo)>::empty());
        }
        None
    }

    /// The standard-material channels, per [`standard_material_spec`].
    pub fn get_standard_material(&self) -> (r: Option<UnityStandardMaterial>)
        ensures
            match r {
                Some(sm) => standard_material_spec(*self) == Some(
                    (sm.base_color@, sm.emissive@, sm.metallic@),
                ),
                None => standard_material_spec(*self) is None,
            },
    {
        if self.shader.file_id != 46 {
            return None;
        }
        let base_color = match self.color_channel("_Color") {
            Some(c) => c,
            None => {
                return None;
            },
        };
        let emissive = match self.color_channel("_EmissionColor") {
            Some(c) => c,
            None => {
                return None;
            },
        };
        let metallic = match self.float_channel("_Metallic") {
            Some(f) => f,
            None => {
                return None;
            },
        };
        Some(UnityStandardMaterial { base_color, emissive, metallic })
    }

    fn color_channel(&self, name: &str) -> (r: Option<UnityColor>)
        ensures
            match r {
                Some(c) => color_find(self.properties.colors@, name@) == Some(c@),
                None => color_find(self.properties.colors@, name@) is None,
            },
    {
        let ghost ts = self.properties.colors@;
        proof {
            assert(ts.skip(0) =~= ts);
        }
        let n = self.properties.colors.len();
        let mut i: usize = 0;
        while i < n
            invariant
                i <= n == self.properties.colors@.len(),
                ts == self.properties.colors@,
                color_find(ts, name@) == color_find(ts.skip(i as int), name@),
            decreases n - i,
        {
            proof {
                assert(ts.skip(i as int)[0] == ts[i as int]);
                assert(ts.skip(i as int).drop_first() =~= ts.skip(i + 1 as int));
            }
            let e = &self.properties.colors[i];
            if crate::chars::str_eq(e.0.as_str(), name) {
                let c = &e.1;
                return Some(
                    UnityColor {
                        r: c.r.clone(),
                        g: c.g.clone(),
                        b: c.b.clone(),
                        a: c.a.clone(),
                    },
                );
            }
            i = i + 1;
        }
        proof {
            assert(ts.skip(n as int) =~= Seq::<(String, UnityColor)>::empty());
        }
        None
    }

    fn float_channel(&self, name: &str) -> (r: Option<String>)
        ensures
            match r {
                Some(f) => float_find(self.properties.floats@, name@) == Some(f@),
                None => float_find(self.properties.floats@, name@) is None,
            },
    {
        let ghost ts = self.properties.floats@;
        proof {
            assert(ts.skip(0) =~= ts);
        }
        let n = self.properties.floats.len();
        let mut i: usize = 0;
        while i < n
            invariant
                i <= n == self.properties.floats@.len(),
                ts == self.properties.floats@,
                float_find(ts, name@) == float_find(ts.skip(i as int), name@),
            decreases n - i,
        {
            proof {
                assert(ts.skip(i as int)[0] == ts[i as int]);
                assert(ts.skip(i as int).drop_first() =~= ts.skip(i + 1 as int));
            }
            let e = &self.properties.floats[i];
            if crate::chars::str_eq(e.0.as_str(), name) {
                return Some(e.1.clone());
            }
            i = i + 1;
        }
        proof {
            assert(ts.skip(n as int) =~= Seq::<(String, String)>::empty());
        }
        None
    }
}

} // verus!
