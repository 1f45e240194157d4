//! Collider and rigid-body records.  Every field carries a serialized
//! default, so absent fields decode to zeroes and empty references.

use vstd::prelude::*;

use crate::fields::{
    as_i32, as_i32_exec, i64_field, num_field, quat_field, ref_field, vec3_field,
    i64_field_exec, num_field_exec, quat_field_exec, ref_field_exec, vec3_field_exec,
};
use crate::math::{
    default_quaternion, default_vector3, quat_zero, vec3_zero, QuaternionV, UnityQuaternion,
    UnityVector3, Vector3V,
};
use crate::record::{fields_view, FieldV, RawField};
use crate::reference::{fileref_default, FileReference, FileRefV};

verus! {

/// A box collider: trigger flag, size and center.
pub struct UnityBoxCollider {
    pub is_trigger: i32,
    pub size: UnityVector3,
    pub center: UnityVector3,
}

/// Specification image of a [`UnityBoxCollider`].
pub struct BoxColliderV {
    pub is_trigger: i32,
    pub size: Vector3V,
    pub center: Vector3V,
}

impl View for UnityBoxCollider {
    type V = BoxColliderV;

    open spec fn view(&self) -> BoxColliderV {
        BoxColliderV { is_trigger: self.is_trigger, size: self.size@, center: self.center@ }
    }
}

/// A sphere collider: trigger flag, radius and center.
pub struct UnitySphereCollider {
    pub is_trigger: i32,
    pub radius: String,
    pub center: UnityVector3,
}

/// Specification image of a [`UnitySphereCollider`].
pub struct SphereColliderV {
    pub is_trigger: i32,
    pub radius: Seq<char>,
    pub center: Vector3V,
}

impl View for UnitySphereCollider {
    type V = SphereColliderV;

    open spec fn view(&self) -> SphereColliderV {
        SphereColliderV { is_trigger: self.is_trigger, radius: self.radius@, center: self.center@ }
    }
}

/// A capsule collider: trigger flag, radius, height, center and axis.
pub struct UnityCapsuleCollider {
    pub is_trigger: i32,
    pub radius: String,
    pub height: String,
    pub center: UnityVector3,
    pub direction: i32,
}

/// Specification image of a [`UnityCapsuleCollider`].
pub struct CapsuleColliderV {
    pub is_trigger: i32,
    pub radius: Seq<char>,
    pub height: Seq<char>,
    pub center: Vector3V,
    pub direction: i32,
}

impl View for UnityCapsuleCollider {
    type V = CapsuleColliderV;

    open spec fn view(&self) -> CapsuleColliderV {
        CapsuleColliderV {
            is_trigger: self.is_trigger,
            radius: self.radius@,
            height: self.height@,
            center: self.center@,
            direction: self.direction,
        }
    }
}

/// A mesh collider: trigger flag and the mesh reference.
pub struct UnityMeshCollider {
    pub is_trigger: i32,
    pub mesh: FileReference,
}

/// Specification image of a [`UnityMeshCollider`].
pub struct MeshColliderV {
    pub is_trigger: i32,
    pub mesh: FileRefV,
}

impl View for UnityMeshCollider {
    type V = MeshColliderV;

    open spec fn view(&self) -> MeshColliderV {
        MeshColliderV { is_trigger: self.is_trigger, mesh: self.mesh@ }
    }
}

/// A rigid body: mass, damping, inertia and flags.
pub struct UnityRigidbody {
    pub mass: String,
    pub drag: String,
    pub angular_drag: String,
    pub center_of_mass: UnityVector3,
    pub inertia_tensor: UnityVector3,
    pub inertia_rotation: UnityQuaternion,
    pub use_gravity: i32,
    pub is_kinematic: i32,
    pub constraints: i32,
}

/// Specification image of a [`UnityRigidbody`].
pub struct RigidbodyV {
    pub mass: Seq<char>,
    pub drag: Seq<char>,
    pub angular_drag: Seq<char>,
    pub center_of_mass: Vector3V,
    pub inertia_tensor: Vector3V,
    pub inertia_rotation: QuaternionV,
    pub use_gravity: i32,
    pub is_kinematic: i32,
    pub constraints: i32,
}

impl View for UnityRigidbody {
    type V = RigidbodyV;

    open spec fn view(&self) -> RigidbodyV {
        RigidbodyV {
            mass: self.mass@,
            drag: self.drag@,
            angular_drag: self.angular_drag@,
            center_of_mass: self.center_of_mass@,
            inertia_tensor: self.inertia_tensor@,
            inertia_rotation: self.inertia_rotation@,
            use_gravity: self.use_gravity,
            is_kinematic: self.is_kinematic,
            constraints: self.constraints,
        }
    }
}

/// How a box collider decodes: every field defaulted.
pub open spec fn boxcollider_spec(fs: Seq<FieldV>, s: int, e: int) -> Option<BoxColliderV> {
    let trig = as_i32(i64_field(fs, s, e, "m_IsTrigger"@, "m_IsTrigger"@, 0));
    let size = vec3_field(fs, s, e, "m_Size"@, "m_Size"@, vec3_zero());
    let center = vec3_field(fs, s, e, "m_Center"@, "m_Center"@, vec3_zero());
    match (trig, size, center) {
        (Some(t), Some(sz), Some(c)) => Some(BoxColliderV { is_trigger: t, size: sz, center: c }),
        _ => None,
    }
}

/// How a sphere collider decodes: every field defaulted.
pub open spec fn spherecollider_spec(fs: Seq<FieldV>, s: int, e: int) -> Option<SphereColliderV> {
    let trig = as_i32(i64_field(fs, s, e, "m_IsTrigger"@, "m_IsTrigger"@, 0));
    let radius = num_field(fs, s, e, "m_Radius"@, "m_Radius"@, "0"@);
    let center = vec3_field(fs, s, e, "m_Center"@, "m_Center"@, vec3_zero());
    match (trig, radius, center) {
        (Some(t), Some(r), Some(c)) => Some(
            SphereColliderV { is_trigger: t, radius: r, center: c },
        ),
        _ => None,
    }
}

/// How a capsule collider decodes: every field defaulted.
pub open spec fn capsulecollider_spec(fs: Seq<FieldV>, s: int, e: int) -> Option<
    CapsuleColliderV,
> {
    let trig = as_i32(i64_field(fs, s, e, "m_IsTrigger"@, "m_IsTrigger"@, 0));
    let radius = num_field(fs, s, e, "m_Radius"@, "m_Radius"@, "0"@);
    let height = num_field(fs, s, e, "m_Height"@, "m_Height"@, "0"@);
    let center = vec3_field(fs, s, e, "m_Center"@, "m_Center"@, vec3_zero());
    let dir = as_i32(i64_field(fs, s, e, "m_Direction"@, "m_Direction"@, 0));
    match (trig, radius, height, center, dir) {
        (Some(t), Some(r), Some(h), Some(c), Some(d)) => Some(
            CapsuleColliderV { is_trigger: t, radius: r, height: h, center: c, direction: d },
        ),
        _ => None,
    }
}

/// How a mesh collider decodes: every field defaulted.
pub open spec fn meshcollider_spec(fs: Seq<FieldV>, s: int, e: int) -> Option<MeshColliderV> {
    let trig = as_i32(i64_field(fs, s, e, "m_IsTrigger"@, "m_IsTrigger"@, 0));
    let mesh = ref_field(fs, s, e, "m_Mesh"@, "m_Mesh"@);
    match (trig, mesh) {
        (Some(t), Some(m)) => Some(MeshColliderV { is_trigger: t, mesh: m }),
        _ => None,
    }
}

/// How a rigid body decodes: every field defaulted.
pub open spec fn rigidbody_spec(fs: Seq<FieldV>, s: int, e: int) -> Option<RigidbodyV> {
    let mass = num_field(fs, s, e, "m_Mass"@, "m_Mass"@, "0"@);
    let drag = num_field(fs, s, e, "m_Drag"@, "m_Drag"@, "0"@);
    let adrag = num_field(fs, s, e, "m_Angular_Drag"@, "m_Angular_Drag"@, "0"@);
    let com = vec3_field(fs, s, e, "m_CenterOfMass"@, "m_CenterOfMass"@, vec3_zero());
    let tensor = vec3_field(fs, s, e, "m_InertiaTensor"@, "m_InertiaTensor"@, vec3_zero());
    let irot = quat_field(fs, s, e, "m_InertiaRotation"@, "m_InertiaRotation"@, quat_zero());
    let grav = as_i32(i64_field(fs, s, e, "m_UseGravity"@, "m_UseGravity"@, 0));
    let kin = as_i32(i64_field(fs, s, e, "m_IsKinematic"@, "m_IsKinematic"@, 0));
    let cons = as_i32(i64_field(fs, s, e, "m_Contraints"@, "m_Contraints"@, 0));
    match (mass, drag, adrag, com, tensor, irot, grav, kin, cons) {
        (
            Some(m),
            Some(d),
            Some(ad),
            Some(cm),
            Some(it),
            Some(ir),
            Some(g),
            Some(k),
            Some(c),
        ) => Some(
            RigidbodyV {
                mass: m,
                drag: d,
                angular_drag: ad,
                center_of_mass: cm,
                inertia_tensor: it,
                inertia_rotation: ir,
                use_gravity: g,
                is_kinematic: k,
                constraints: c,
            },
        ),
        _ => None,
    }
}

/// Decodes a box collider record, per [`boxcollider_spec`].
pub fn decode_boxcollider(fields: &Vec<RawField>, start: usize, end: usize) -> (r: Option<
    UnityBoxCollider,
>)
    requires
        start <= end <= fields@.len(),
    ensures
        ({
            let fs = fields_view(fields@);
            match r {
                Some(v) => boxcollider_spec(fs, start as int, end as int) == Some(v@),
                None => boxcollider_spec(fs, start as int, end as int) is None,
            }
        }),
{
    let is_trigger = match as_i32_exec(
        i64_field_exec(fields, start, end, "m_IsTrigger", "m_IsTrigger", Some(0)),
    ) {
        Some(v) => v,
        None => {
            return None;
        },
    };
    let size = match vec3_field_exec(fields, start, end, "m_Size", "m_Size", default_vector3()) {
        Some(v) => v,
        None => {
            return None;
        },
    };
    let center = match vec3_field_exec(
        fields,
        start,
        end,
        "m_Center",
        "m_Center",
        default_vector3(),
    ) {
        Some(v) => v,
        None => {
            return None;
        },
    };
    Some(UnityBoxCollider { is_trigger, size, center })
}

/// Decodes a sphere collider record, per [`spherecollider_spec`].
pub fn decode_spherecollider(fields: &Vec<RawField>, start: usize, end: usize) -> (r: Option<
    UnitySphereCollider,
>)
    requires
        start <= end <= fields@.len(),
    ensures
        ({
            let fs = fields_view(fields@);
            match r {
                Some(v) => spherecollider_spec(fs, start as int, end as int) == Some(v@),
                None => spherecollider_spec(fs, start as int, end as int) is None,
            }
        }),
{
    let is_trigger = match as_i32_exec(
        i64_field_exec(fields, start, end, "m_IsTrigger", "m_IsTrigger", Some(0)),
    ) {
        Some(v) => v,
        None => {
            return None;
        },
    };
    let radius = match num_field_exec(fields, start, end, "m_Radius", "m_Radius", Some("0")) {
        Some(v) => v,
        None => {
            return None;
        },
    };
    let center = match vec3_field_exec(
        fields,
        start,
        end,
        "m_Center",
        "m_Center",
        default_vector3(),
    ) {
        Some(v) => v,
        None => {
            return None;
        },
    };
    Some(UnitySphereCollider { is_trigger, radius, center })
}

/// Decodes a capsule collider record, per [`capsulecollider_spec`].
pub fn decode_capsulecollider(fields: &Vec<RawField>, start: usize, end: usize) -> (r: Option<
    UnityCapsuleCollider,
>)
    requires
        start <= end <= fields@.len(),
    ensures
        ({
            let fs = fields_view(fields@);
            match r {
                Some(v) => capsulecollider_spec(fs, start as int, end as int) == Some(v@),
                None => capsulecollider_spec(fs, start as int, end as int) is None,
            }
        }),
{
    let is_trigger = match as_i32_exec(
        i64_field_exec(fields, start, end, "m_IsTrigger", "m_IsTrigger", Some(0)),
    ) {
        Some(v) => v,
        None => {
            return None;
        },
    };
    let radius = match num_field_exec(fields, start, end, "m_Radius", "m_Radius", Some("0")) {
        Some(v) => v,
        None => {
            return None;
        },
    };
    let height = match num_field_exec(fields, start, end, "m_Height", "m_Height", Some("0")) {
        Some(v) => v,
        None => {
            return None;
        },
    };
    let center = match vec3_field_exec(
        fields,
        start,
        end,
        "m_Center",
        "m_Center",
        default_vector3(),
    ) {
        Some(v) => v,
        None => {
            return None;
        },
    };
    let direction = match as_i32_exec(
        i64_field_exec(fields, start, end, "m_Direction", "m_Direction", Some(0)),
    ) {
        Some(v) => v,
        None => {
            return None;
        },
    };
    Some(UnityCapsuleCollider { is_trigger, radius, height, center, direction })
}

/// Decodes a mesh collider record, per [`meshcollider_spec`].
pub fn decode_meshcollider(fields: &Vec<RawField>, start: usize, end: usize) -> (r: Option<
    UnityMeshCollider,
>)
    requires
        start <= end <= fields@.len(),
    ensures
        ({
            let fs = fields_view(fields@);
            match r {
                Some(v) => meshcollider_spec(fs, start as int, end as int) == Some(v@),
                None => meshcollider_spec(fs, start as int, end as int) is None,
            }
        }),
{
    let is_trigger = match as_i32_exec(
        i64_field_exec(fields, start, end, "m_IsTrigger", "m_IsTrigger", Some(0)),
    ) {
        Some(v) => v,
        None => {
            return None;
        },
    };
    let mesh = match ref_field_exec(fields, start, end, "m_Mesh", "m_Mesh", false) {
        Some(v) => v,
        None => {
            return None;
        },
    };
    Some(UnityMeshCollider { is_trigger, mesh })
}

/// Decodes a rigid body record, per [`rigidbody_spec`].
pub fn decode_rigidbody(fields: &Vec<RawField>, start: usize, end: usize) -> (r: Option<
    UnityRigidbody,
>)
    requires
        start <= end <= fields@.len(),
    ensures
        ({
            let fs = fields_view(fields@);
            match r {
                Some(v) => rigidbody_spec(fs, start as int, end as int) == Some(v@),
                None => rigidbody_spec(fs, start as int, end as int) is None,
            }
        }),
{
    let mass = match num_field_exec(fields, start, end, "m_Mass", "m_Mass", Some("0")) {
        Some(v) => v,
        None => {
            return None;
        },
    };
    let drag = match num_field_exec(fields, start, end, "m_Drag", "m_Drag", Some("0")) {
        Some(v) => v,
        None => {
            return None;
        },
    };
    let angular_drag = match num_field_exec(
        fields,
        start,
        end,
        "m_Angular_Drag",
        "m_Angular_Drag",
        Some("0"),
    ) {
        Some(v) => v,
        None => {
            return None;
        },
    };
    let center_of_mass = match vec3_field_exec(
        fields,
        start,
        end,
        "m_CenterOfMass",
        "m_CenterOfMass",
        default_vector3(),
    ) {
        Some(v) => v,
        None => {
            return None;
        },
    };
    let inertia_tensor = match vec3_field_exec(
        fields,
        start,
        end,
        "m_InertiaTensor",
        "m_InertiaTensor",
        default_vector3(),
    ) {
        Some(v) => v,
        None => {
            return None;
        },
    };
    let inertia_rotation = match quat_field_exec(
        fields,
        start,
        end,
        "m_InertiaRotation",
        "m_InertiaRotation",
        default_quaternion(),
    ) {
        Some(v) => v,
        None => {
            return None;
        },
    };
    let use_gravity = match as_i32_exec(
        i64_field_exec(fields, start, end, "m_UseGravity", "m_UseGravity", Some(0)),
    ) {
        Some(v) => v,
        None => {
            return None;
        },
    };
    let is_kinematic = match as_i32_exec(
        i64_field_exec(fields, start, end, "m_IsKinematic", "m_IsKinematic", Some(0)),
    ) {
        Some(v) => v,
        None => {
            return None;
        },
    };
    let constraints = match as_i32_exec(
        i64_field_exec(fields, start, end, "m_Contraints", "m_Contraints", Some(0)),
    ) {
        Some(v) => v,
        None => {
            return None;
        },
    };
    Some(UnityRigidbody {
        mass,
        drag,
        angular_drag,
        center_of_mass,
        inertia_tensor,
        inertia_rotation,
        use_gravity,
        is_kinematic,
        constraints,
    })
}

} // verus!
