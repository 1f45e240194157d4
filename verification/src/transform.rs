//! Transforms: local position, rotation and scale, child references and
//! the owning prefab instance, as the dialect serializes them.

use vstd::prelude::*;

use crate::fields::{
    quat_field, ref_field, ref_list_field, refs_view, vec3_field,
    quat_field_exec, ref_field_exec, ref_list_field_exec, vec3_field_exec,
};
use crate::record::FieldV;
use crate::math::{
    default_quaternion, default_vector3, quat_zero, vec3_unit, vec3_zero, QuaternionV,
    UnityQuaternion, UnityVector3, Vector3V,
};
use crate::reference::{fileref_default, FileReference, FileRefV};

verus! {

/// A transform: local position, rotation, scale, ordered child transform
/// references, and the owning prefab instance when there is one.
pub struct UnityTransform {
    pub position: UnityVector3,
    pub rotation: UnityQuaternion,
    pub scale: UnityVector3,
    pub children: Vec<FileReference>,
    pub prefab_instance: FileReference,
}

/// Specification image of a [`UnityTransform`].
pub struct TransformV {
    pub position: Vector3V,
    pub rotation: QuaternionV,
    pub scale: Vector3V,
    pub children: Seq<FileRefV>,
    pub prefab_instance: FileRefV,
}

impl View for UnityTransform {
    type V = TransformV;

    open spec fn view(&self) -> TransformV {
        TransformV {
            position: self.position@,
            rotation: self.rotation@,
            scale: self.scale@,
            children: refs_view(self.children@),
            prefab_instance: self.prefab_instance@,
        }
    }
}

/// The serialized default for a scale: the unit scale.
pub fn default_scale() -> (r: UnityVector3)
    ensures
        r@ == vec3_unit(),
{
    UnityVector3 {
        x: String::from_str("1"),
        y: String::from_str("1"),
        z: String::from_str("1"),
    }
}

/// The default transform: zero position and rotation, unit scale, no
/// children, no owning prefab instance.
pub open spec fn transform_default() -> TransformV {
    TransformV {
        position: vec3_zero(),
        rotation: quat_zero(),
        scale: vec3_unit(),
        children: Seq::empty(),
        prefab_instance: fileref_default(),
    }
}

impl UnityTransform {
    /// The default transform, per [`transform_default`].
    pub fn default_value() -> (r: UnityTransform)
        ensures
            r@ == transform_default(),
    {
        let r = UnityTransform {
            position: default_vector3(),
            rotation: default_quaternion(),
            scale: default_scale(),
            children: Vec::new(),
            prefab_instance: crate::reference::default_fileref(),
        };
        proof {
            assert(refs_view(Seq::<FileReference>::empty()) =~= Seq::<FileRefV>::empty());
        }
        r
    }
}

/// How a transform decodes: position and rotation default to zero, scale
/// to the unit scale; children and the owning prefab instance may be
/// absent.
pub open spec fn transform_spec(fs: Seq<FieldV>, s: int, e: int) -> Option<TransformV> {
    let position = vec3_field(fs, s, e, "m_LocalPosition"@, "m_LocalPosition"@, vec3_zero());
    let rotation = quat_field(fs, s, e, "m_LocalRotation"@, "m_LocalRotation"@, quat_zero());
    let scale = vec3_field(fs, s, e, "m_LocalScale"@, "m_LocalScale"@, vec3_unit());
    let children = ref_list_field(fs, s, e, "m_Children"@, "m_Children"@, ""@, false);
    let prefab = ref_field(fs, s, e, "m_PrefabInstance"@, "m_PrefabInstance"@);
    match (position, rotation, scale, children, prefab) {
        (Some(p), Some(r), Some(sc), Some(c), Some(pi)) => Some(
            TransformV { position: p, rotation: r, scale: sc, children: c, prefab_instance: pi },
        ),
        _ => None,
    }
}

/// Decodes a transform record, per [`transform_spec`].
pub fn decode_transform(
    fields: &Vec<crate::record::RawField>,
    start: usize,
    end: usize,
) -> (r: Option<UnityTransform>)
    requires
        start <= end <= fields@.len(),
    ensures
        ({
            let fs = crate::record::fields_view(fields@);
            match r {
                Some(t) => transform_spec(fs, start as int, end as int) == Some(t@),
                None => transform_spec(fs, start as int, end as int) is None,
            }
        }),
{
    let position = match vec3_field_exec(
        fields,
        start,
        end,
        "m_LocalPosition",
        "m_LocalPosition",
        default_vector3(),
    ) {
        Some(p) => p,
        None => {
            return None;
        },
    };
    let rotation = match quat_field_exec(
        fields,
        start,
        end,
        "m_LocalRotation",
        "m_LocalRotation",
        default_quaternion(),
    ) {
        Some(q) => q,
        None => {
            return None;
        },
    };
    let scale = match vec3_field_exec(
        fields,
        start,
        end,
        "m_LocalScale",
        "m_LocalScale",
        default_scale(),
    ) {
        Some(sc) => sc,
        None => {
            return None;
        },
    };
    let children = match ref_list_field_exec(
        fields,
        start,
        end,
        "m_Children",
        "m_Children",
        "",
        false,
    ) {
        Some(c) => c,
        None => {
            return None;
        },
    };
    let prefab_instance = match ref_field_exec(
        fields,
        start,
        end,
        "m_PrefabInstance",
        "m_PrefabInstance",
        false,
    ) {
        Some(p) => p,
        None => {
            return None;
        },
    };
    Some(UnityTransform { position, rotation, scale, children, prefab_instance })
}

} // verus!
