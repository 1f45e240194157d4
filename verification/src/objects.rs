//! The closed union of record kinds, and the dispatch that decodes one
//! record by its `object_type` discriminator.

use vstd::prelude::*;

use crate::camera::{camera_spec, decode_camera, CameraV, UnityCamera};
use crate::chars::string_from_chars;
use crate::fields::{field_of, find_key_at, find_key_exec};
use crate::gameobject::{decode_gameobject, gameobject_spec, GameObjectV, UnityGameObject};
use crate::light::{decode_light, light_spec, LightV, UnityLight};
use crate::mesh::{
    decode_meshfilter, decode_meshrenderer, meshfilter_spec, meshrenderer_spec, UnityMeshFilter,
    UnityMeshRenderer,
};
use crate::physics::{
    boxcollider_spec, capsulecollider_spec, decode_boxcollider, decode_capsulecollider,
    decode_meshcollider, decode_rigidbody, decode_spherecollider, meshcollider_spec,
    rigidbody_spec, spherecollider_spec, BoxColliderV, CapsuleColliderV, MeshColliderV,
    RigidbodyV, SphereColliderV, UnityBoxCollider, UnityCapsuleCollider, UnityMeshCollider,
    UnityRigidbody, UnitySphereCollider,
};
use crate::prefabs::{decode_prefabinstance, prefabinstance_spec, PrefabInstanceV,
    UnityPrefabInstance};
use crate::record::{fields_view, FieldV, RawField};
use crate::reference::FileRefV;
use crate::render::{decode_rendersettings, rendersettings_spec, RenderSettingsV,
    UnityRenderSettings};
use crate::transform::{decode_transform, transform_spec, TransformV, UnityTransform};

verus! {

/// One decoded record: the closed union over the known kinds, a behavior
/// payload kept raw for the host, and a catch-all for everything else.
pub enum UnitySceneObject {
    GameObject(UnityGameObject),
    Transform(UnityTransform),
    Camera(UnityCamera),
    Light(UnityLight),
    MeshFilter(UnityMeshFilter),
    MeshRenderer(UnityMeshRenderer),
    PrefabInstance(UnityPrefabInstance),
    MeshCollider(UnityMeshCollider),
    BoxCollider(UnityBoxCollider),
    SphereCollider(UnitySphereCollider),
    CapsuleCollider(UnityCapsuleCollider),
    Rigidbody(UnityRigidbody),
    RenderSettings(UnityRenderSettings),
    /// A host-defined behavior record: its raw body lines, minus the
    /// discriminator, for the host to interpret.
    MonoBehaviour(Vec<String>),
    /// An unrecognized record kind; never fails the document.
    DontCare,
}

/// Specification image of a [`UnitySceneObject`].
pub enum SceneObjectV {
    GameObject(GameObjectV),
    Transform(TransformV),
    Camera(CameraV),
    Light(LightV),
    MeshFilter(FileRefV),
    MeshRenderer(Seq<FileRefV>),
    PrefabInstance(PrefabInstanceV),
    MeshCollider(MeshColliderV),
    BoxCollider(BoxColliderV),
    SphereCollider(SphereColliderV),
    CapsuleCollider(CapsuleColliderV),
    Rigidbody(RigidbodyV),
    RenderSettings(RenderSettingsV),
    MonoBehaviour(Seq<Seq<char>>),
    DontCare,
}

pub open spec fn strs_view(ss: Seq<String>) -> Seq<Seq<char>> {
    ss.map_values(|s: String| s@)
}

impl View for UnitySceneObject {
    type V = SceneObjectV;

    open spec fn view(&self) -> SceneObjectV {
        match self {
            UnitySceneObject::GameObject(g) => SceneObjectV::GameObject(g@),
            UnitySceneObject::Transform(t) => SceneObjectV::Transform(t@),
            UnitySceneObject::Camera(c) => SceneObjectV::Camera(c@),
            UnitySceneObject::Light(l) => SceneObjectV::Light(l@),
            UnitySceneObject::MeshFilter(m) => SceneObjectV::MeshFilter(m@),
            UnitySceneObject::MeshRenderer(m) => SceneObjectV::MeshRenderer(m@),
            UnitySceneObject::PrefabInstance(p) => SceneObjectV::PrefabInstance(p@),
            UnitySceneObject::MeshCollider(c) => SceneObjectV::MeshCollider(c@),
            UnitySceneObject::BoxCollider(c) => SceneObjectV::BoxCollider(c@),
            UnitySceneObject::SphereCollider(c) => SceneObjectV::SphereCollider(c@),
            UnitySceneObject::CapsuleCollider(c) => SceneObjectV::CapsuleCollider(c@),
            UnitySceneObject::Rigidbody(b) => SceneObjectV::Rigidbody(b@),
            UnitySceneObject::RenderSettings(r) => SceneObjectV::RenderSettings(r@),
            UnitySceneObject::MonoBehaviour(ls) => SceneObjectV::MonoBehaviour(strs_view(ls@)),
            UnitySceneObject::DontCare => SceneObjectV::DontCare,
        }
    }
}

/// The raw lines of `fs[s..e]`, leaving line `skip` out.
pub open spec fn raws_except(fs: Seq<FieldV>, s: int, e: int, skip: int) -> Seq<Seq<char>>
    decreases e - s when s <= e
{
    if s >= e {
        Seq::empty()
    } else {
        let r = raws_except(fs, s, e - 1, skip);
        if e - 1 == skip {
            r
        } else {
            r.push(fs[e - 1].raw)
        }
    }
}

/// How one record decodes from its body lines, by its `object_type`: each
/// known name selects one variant decode; a behavior record keeps its raw
/// body; an unknown name decodes to the catch-all rather than failing; a
/// record without a discriminator fails.
#[verifier::opaque]
pub open spec fn record_spec(fs: Seq<FieldV>, s: int, e: int) -> Option<SceneObjectV> {
    match find_key_at(fs, s, e, 2, "object_type"@, "object_type"@) {
        None => None,
        Some(oi) => {
            let name = fs[oi].value;
            if name == "GameObject"@ {
                match gameobject_spec(fs, s, e) {
                    Some(g) => Some(SceneObjectV::GameObject(g)),
                    None => None,
                }
            } else if name == "Transform"@ {
                match transform_spec(fs, s, e) {
                    Some(t) => Some(SceneObjectV::Transform(t)),
                    None => None,
                }
            } else if name == "Camera"@ {
                match camera_spec(fs, s, e) {
                    Some(c) => Some(SceneObjectV::Camera(c)),
                    None => None,
                }
            } else if name == "Light"@ {
                match light_spec(fs, s, e) {
                    Some(l) => Some(SceneObjectV::Light(l)),
                    None => None,
                }
            } else if name == "MeshFilter"@ {
                match meshfilter_spec(fs, s, e) {
                    Some(m) => Some(SceneObjectV::MeshFilter(m)),
                    None => None,
                }
            } else if name == "MeshRenderer"@ {
                match meshrenderer_spec(fs, s, e) {
                    Some(m) => Some(SceneObjectV::MeshRenderer(m)),
                    None => None,
                }
            } else if name == "PrefabInstance"@ {
                match prefabinstance_spec(fs, s, e) {
                    Some(p) => Some(SceneObjectV::PrefabInstance(p)),
                    None => None,
                }
            } else if name == "MeshCollider"@ {
                match meshcollider_spec(fs, s, e) {
                    Some(c) => Some(SceneObjectV::MeshCollider(c)),
                    None => None,
                }
            } else if name == "BoxCollider"@ {
                match boxcollider_spec(fs, s, e) {
                    Some(c) => Some(SceneObjectV::BoxCollider(c)),
                    None => None,
                }
            } else if name == "SphereCollider"@ {
                match spherecollider_spec(fs, s, e) {
                    Some(c) => Some(SceneObjectV::SphereCollider(c)),
                    None => None,
                }
            } else if name == "CapsuleCollider"@ {
                match capsulecollider_spec(fs, s, e) {
                    Some(c) => Some(SceneObjectV::CapsuleCollider(c)),
                    None => None,
                }
            } else if name == "Rigidbody"@ {
                match rigidbody_spec(fs, s, e) {
                    Some(b) => Some(SceneObjectV::Rigidbody(b)),
                    None => None,
                }
            } else if name == "RenderSettings"@ {
                match rendersettings_spec(fs, s, e) {
                    Some(r) => Some(SceneObjectV::RenderSettings(r)),
                    None => None,
                }
            } else if name == "MonoBehaviour"@ {
                Some(SceneObjectV::MonoBehaviour(raws_except(fs, s, e, oi)))
            } else {
                Some(SceneObjectV::DontCare)
            }
        },
    }
}

/// Collects the raw lines of a behavior record, per [`raws_except`].
fn collect_raws(fields: &Vec<RawField>, s: usize, e: usize, skip: usize) -> (r: Vec<String>)
    requires
        s <= e <= fields@.len(),
    ensures
        strs_view(r@) == raws_except(fields_view(fields@), s as int, e as int, skip as int),
{
    let ghost fs = fields_view(fields@);
    proof {
        assert(fs.len() == fields@.len());
    }
    let mut out: Vec<String> = Vec::new();
    let mut j = s;
    proof {
        assert(strs_view(out@) =~= raws_except(fs, s as int, s as int, skip as int));
    }
    while j < e
        invariant
            s <= j <= e <= fields@.len(),
            fs == fields_view(fields@),
            strs_view(out@) =~= raws_except(fs, s as int, j as int, skip as int),
        decreases e - j,
    {
        proof {
            assert(fs[j as int] == fields@[j as int]@);
        }
        if j != skip {
            let ghost prev = out@;
            proof {
                assert(strs_view(prev).len() == prev.len());
            }
            out.push(string_from_chars(&fields[j].raw));
            proof {
                assert(strs_view(out@) =~= strs_view(prev).push(fs[j as int].raw));
            }
        }
        j = j + 1;
    }
    out
}

/// Decodes one record's body, per [`record_spec`].
pub fn decode_record(fields: &Vec<RawField>, start: usize, end: usize) -> (r: Option<
    UnitySceneObject,
>)
    requires
        start <= end <= fields@.len(),
    ensures
        ({
            let fs = fields_view(fields@);
            match r {
                Some(o) => record_spec(fs, start as int, end as int) == Some(o@),
                None => record_spec(fs, start as int, end as int) is None,
            }
        }),
{
    proof {
        reveal(record_spec);
    }
    let ghost fs = fields_view(fields@);
    let oi = match find_key_exec(fields, start, end, 2, "object_type", "object_type") {
        Some(oi) => oi,
        None => {
            return None;
        },
    };
    let f = &fields[oi];
    proof {
        assert(fs[oi as int] == fields@[oi as int]@);
        assert(f.value@.subrange(0, f.value@.len() as int) =~= f.value@);
    }
    let vl = f.value.len();
    if crate::chars::range_eq_str(&f.value, 0, vl, "GameObject") {
        match decode_gameobject(fields, start, end) {
            Some(g) => Some(UnitySceneObject::GameObject(g)),
            None => None,
        }
    } else if crate::chars::range_eq_str(&f.value, 0, vl, "Transform") {
        match decode_transform(fields, start, end) {
            Some(t) => Some(UnitySceneObject::Transform(t)),
            None => None,
        }
    } else if crate::chars::range_eq_str(&f.value, 0, vl, "Camera") {
        match decode_camera(fields, start, end) {
            Some(c) => Some(UnitySceneObject::Camera(c)),
            None => None,
        }
    } else if crate::chars::range_eq_str(&f.value, 0, vl, "Light") {
        match decode_light(fields, start, end) {
            Some(l) => Some(UnitySceneObject::Light(l)),
            None => None,
        }
    } else if crate::chars::range_eq_str(&f.value, 0, vl, "MeshFilter") {
        match decode_meshfilter(fields, start, end) {
            Some(m) => Some(UnitySceneObject::MeshFilter(m)),
            None => None,
        }
    } else if crate::chars::range_eq_str(&f.value, 0, vl, "MeshRenderer") {
        match decode_meshrenderer(fields, start, end) {
            Some(m) => Some(UnitySceneObject::MeshRenderer(m)),
            None => None,
        }
    } else if crate::chars::range_eq_str(&f.value, 0, vl, "PrefabInstance") {
        match decode_prefabinstance(fields, start, end) {
            Some(p) => Some(UnitySceneObject::PrefabInstance(p)),
            None => None,
        }
    } else if crate::chars::range_eq_str(&f.value, 0, vl, "MeshCollider") {
        match decode_meshcollider(fields, start, end) {
            Some(c) => Some(UnitySceneObject::MeshCollider(c)),
            None => None,
        }
    } else if crate::chars::range_eq_str(&f.value, 0, vl, "BoxCollider") {
        match decode_boxcollider(fields, start, end) {
            Some(c) => Some(UnitySceneObject::BoxCollider(c)),
            None => None,
        }
    } else if crate::chars::range_eq_str(&f.value, 0, vl, "SphereCollider") {
        match decode_spherecollider(fields, start, end) {
            Some(c) => Some(UnitySceneObject::SphereCollider(c)),
            None => None,
        }
    } else if crate::chars::range_eq_str(&f.value, 0, vl, "CapsuleCollider") {
        match decode_capsulecollider(fields, start, end) {
            Some(c) => Some(UnitySceneObject::CapsuleCollider(c)),
            None => None,
        }
    } else if crate::chars::range_eq_str(&f.value, 0, vl, "Rigidbody") {
        match decode_rigidbody(fields, start, end) {
            Some(b) => Some(UnitySceneObject::Rigidbody(b)),
            None => None,
        }
    } else if crate::chars::range_eq_str(&f.value, 0, vl, "RenderSettings") {
        match decode_rendersettings(fields, start, end) {
            Some(r) => Some(UnitySceneObject::RenderSettings(r)),
            None => None,
        }
    } else if crate::chars::range_eq_str(&f.value, 0, vl, "MonoBehaviour") {
        Some(UnitySceneObject::MonoBehaviour(collect_raws(fields, start, end, oi)))
    } else {
        Some(UnitySceneObject::DontCare)
    }
}

} // verus!

verus! {

/// An unrecognized `object_type` never fails a record: any record whose
/// discriminator is none of the known names decodes to the catch-all, so
/// it cannot abort the decoding of its sibling records.
pub proof fn lemma_unknown_kind_still_decodes(fs: Seq<FieldV>, s: int, e: int, oi: int)
    requires
        find_key_at(fs, s, e, 2, "object_type"@, "object_type"@) == Some(oi),
        fs[oi].value != "GameObject"@,
        fs[oi].value != "Transform"@,
        fs[oi].value != "Camera"@,
        fs[oi].value != "Light"@,
        fs[oi].value != "MeshFilter"@,
        fs[oi].value != "MeshRenderer"@,
        fs[oi].value != "PrefabInstance"@,
        fs[oi].value != "MeshCollider"@,
        fs[oi].value != "BoxCollider"@,
        fs[oi].value != "SphereCollider"@,
        fs[oi].value != "CapsuleCollider"@,
        fs[oi].value != "Rigidbody"@,
        fs[oi].value != "RenderSettings"@,
    ensures
        record_spec(fs, s, e) is Some,
{
    reveal(record_spec);
}

} // verus!
