//! Game objects: a name, an active flag and ordered component references.

use vstd::prelude::*;

use crate::fields::{
    i64_field, ref_list_field, refs_view, str_field,
    i64_field_exec, ref_list_field_exec, str_field_exec,
};
use crate::record::FieldV;
use crate::reference::{FileReference, FileRefV};

verus! {

/// A component slot of a game object: one reference.
pub struct UnityComponent {
    pub component: FileReference,
}

/// A game object: name, active flag, ordered component references.
pub struct UnityGameObject {
    /// Active flag as serialized: one means active.
    pub active: i32,
    pub components: Vec<UnityComponent>,
    pub name: String,
}

/// Specification image of a [`UnityGameObject`].
pub struct GameObjectV {
    pub active: i32,
    pub components: Seq<FileRefV>,
    pub name: Seq<char>,
}

pub open spec fn components_view(cs: Seq<UnityComponent>) -> Seq<FileRefV> {
    cs.map_values(|c: UnityComponent| c.component@)
}

impl View for UnityGameObject {
    type V = GameObjectV;

    open spec fn view(&self) -> GameObjectV {
        GameObjectV {
            active: self.active,
            components: components_view(self.components@),
            name: self.name@,
        }
    }
}

/// The serialized default for the active flag: active.
pub fn default_active() -> (r: i32)
    ensures
        r == 1,
{
    1
}

impl UnityGameObject {
    /// Whether the object is active: the flag equals one.
    pub fn is_active(&self) -> (b: bool)
        ensures
            b == (self.active == 1),
    {
        self.active == 1
    }
}

/// How a game object decodes: `m_IsActive` (default one), `m_Component`
/// (default empty, items under `component`), `m_Name` (default empty).
pub open spec fn gameobject_spec(fs: Seq<FieldV>, s: int, e: int) -> Option<GameObjectV> {
    let active = i64_field(fs, s, e, "active"@, "m_IsActive"@, 1);
    let comps = ref_list_field(fs, s, e, "components"@, "m_Component"@, "component"@, false);
    let name = str_field(fs, s, e, "name"@, "m_Name"@, ""@);
    match (active, comps, name) {
        (Some(a), Some(c), Some(n)) => {
            if i32::MIN <= a <= i32::MAX {
                Some(GameObjectV { active: a as i32, components: c, name: n })
            } else {
                None
            }
        },
        _ => None,
    }
}

/// Decodes a game object record, per [`gameobject_spec`].
pub fn decode_gameobject(
    fields: &Vec<crate::record::RawField>,
    start: usize,
    end: usize,
) -> (r: Option<UnityGameObject>)
    requires
        start <= end <= fields@.len(),
    ensures
        ({
            let fs = crate::record::fields_view(fields@);
            match r {
                Some(g) => gameobject_spec(fs, start as int, end as int) == Some(g@),
                None => gameobject_spec(fs, start as int, end as int) is None,
            }
        }),
{
    let active = match i64_field_exec(fields, start, end, "active", "m_IsActive", Some(1)) {
        Some(a) => a,
        None => {
            return None;
        },
    };
    let comps = match ref_list_field_exec(
        fields,
        start,
        end,
        "components",
        "m_Component",
        "component",
        false,
    ) {
        Some(c) => c,
        None => {
            return None;
        },
    };
    let name = match str_field_exec(fields, start, end, "name", "m_Name", Some("")) {
        Some(n) => n,
        None => {
            return None;
        },
    };
    if active < i32::MIN as i64 || active > i32::MAX as i64 {
        return None;
    }
    let mut components: Vec<UnityComponent> = Vec::new();
    let ghost crefs = refs_view(comps@);
    let n = comps.len();
    let mut ci: usize = 0;
    let mut comps = comps;
    proof {
        assert(crefs.len() == comps@.len());
    }
    while ci < n
        invariant
            ci <= n,
            comps@.len() == n - ci,
            crefs.len() == n,
            forall|k: int| 0 <= k < n - ci ==> (#[trigger] comps@[k])@ == crefs[ci + k],
            components_view(components@) =~= crefs.take(ci as int),
        decreases n - ci,
    {
        proof {
            assert(comps@[0]@ == crefs[ci as int]);
        }
        let ghost prev = components@;
        proof {
            assert(components_view(prev).len() == prev.len());
            assert(components_view(prev).len() == crefs.take(ci as int).len());
            assert(prev.len() == ci);
        }
        let c = comps.remove(0);
        components.push(UnityComponent { component: c });
        proof {
            assert(components@.len() == ci + 1);
            assert(components_view(components@).len() == ci + 1);
            assert forall|k: int| 0 <= k < ci + 1 implies components_view(components@)[k]
                == crefs.take(ci + 1 as int)[k] by {
                assert(components_view(prev).len() == ci);
                if k < ci {
                    assert(components@[k] == prev[k]);
                    assert(components_view(prev)[k] == crefs.take(ci as int)[k]);
                } else {
                    assert(components@[k].component@ == crefs[ci as int]);
                }
            }
            assert(components_view(components@) =~= crefs.take(ci + 1 as int));
        }
        ci = ci + 1;
    }
    proof {
        assert(crefs.take(n as int) =~= crefs);
    }
    Some(UnityGameObject { active: active as i32, components, name })
}

} // verus!
