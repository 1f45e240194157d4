//! Prefab instances: the source document reference, the property-path
//! override list, and the derived-id scheme that keeps repeated
//! instantiations of one prefab from colliding.

use vstd::prelude::*;

use crate::chars::{str_eq, string_from_chars};
use crate::fields::{
    find_key_at, find_key_exec, inline_pairs, map_block_end, map_block_end_exec, block_end,
    block_end_exec, parse_inline_exec, ref_field_req, ref_field_exec, str_of_token,
    str_of_token_exec, is_quoted, unquote,
};
use crate::math::{vec3_of, QuaternionV, UnityVector3, Vector3V};
use crate::record::{fields_view, FieldV, RawField};
use crate::reference::{decode_fileref, fileref_default, fileref_spec, FileReference, FileRefV};
use crate::scalar::{
    is_bool_token, is_bool_token_exec, is_null_token, is_null_token_exec, is_number_exec,
    is_number_token,
};
use crate::transform::{TransformV, UnityTransform};

verus! {

/// A scalar override value, typed as the dialect types plain scalars.
pub enum PropertyOption {
    Null,
    Bool(bool),
    Number(String),
    Text(String),
}

/// Specification image of a [`PropertyOption`].
pub enum PropOptV {
    Null,
    Bool(bool),
    Number(Seq<char>),
    Text(Seq<char>),
}

impl View for PropertyOption {
    type V = PropOptV;

    open spec fn view(&self) -> PropOptV {
        match self {
            PropertyOption::Null => PropOptV::Null,
            PropertyOption::Bool(b) => PropOptV::Bool(*b),
            PropertyOption::Number(t) => PropOptV::Number(t@),
            PropertyOption::Text(t) => PropOptV::Text(t@),
        }
    }
}

impl PropertyOption {
    /// The numeric token carried by a number value.
    pub fn get_number(&self) -> (r: Option<String>)
        ensures
            match self@ {
                PropOptV::Number(t) => r matches Some(v) && v@ == t,
                _ => r is None,
            },
    {
        match self {
            PropertyOption::Number(t) => Some(t.clone()),
            _ => None,
        }
    }
}

/// One property-path override: a target inside the prefab, a dotted path
/// and the value to write there.
pub struct ModificationProperty {
    pub target: FileReference,
    pub path: String,
    pub value: PropertyOption,
}

/// Specification image of a [`ModificationProperty`].
pub struct ModPropV {
    pub target: FileRefV,
    pub path: Seq<char>,
    pub value: PropOptV,
}

impl View for ModificationProperty {
    type V = ModPropV;

    open spec fn view(&self) -> ModPropV {
        ModPropV { target: self.target@, path: self.path@, value: self.value@ }
    }
}

pub open spec fn mods_view(ms: Seq<ModificationProperty>) -> Seq<ModPropV> {
    ms.map_values(|m: ModificationProperty| m@)
}

/// The modification carried by a prefab instance: the transform parent and
/// the override list.
pub struct PrefabModification {
    pub parent: FileReference,
    pub modifications: Vec<ModificationProperty>,
}

/// Specification image of a [`PrefabModification`].
pub struct PrefabModificationV {
    pub parent: FileRefV,
    pub modifications: Seq<ModPropV>,
}

impl View for PrefabModification {
    type V = PrefabModificationV;

    open spec fn view(&self) -> PrefabModificationV {
        PrefabModificationV {
            parent: self.parent@,
            modifications: mods_view(self.modifications@),
        }
    }
}

/// A prefab instance: the source document and its modification.
pub struct UnityPrefabInstance {
    pub source: FileReference,
    pub modification: PrefabModification,
}

/// Specification image of a [`UnityPrefabInstance`].
pub struct PrefabInstanceV {
    pub source: FileRefV,
    pub modification: PrefabModificationV,
}

impl View for UnityPrefabInstance {
    type V = PrefabInstanceV;

    open spec fn view(&self) -> PrefabInstanceV {
        PrefabInstanceV { source: self.source@, modification: self.modification@ }
    }
}

/// How an override scalar types: null, boolean, number token, or text.
pub open spec fn propopt_of_token(t: Seq<char>) -> PropOptV {
    if is_null_token(t) {
        PropOptV::Null
    } else if is_bool_token(t) {
        PropOptV::Bool(t == "true"@)
    } else if is_number_token(t) {
        PropOptV::Number(t)
    } else if is_quoted(t) {
        PropOptV::Text(unquote(t))
    } else {
        PropOptV::Text(t)
    }
}

/// Types an override scalar, per [`propopt_of_token`].
fn propopt_exec(t: &Vec<char>) -> (r: PropertyOption)
    ensures
        r@ == propopt_of_token(t@),
{
    let n = t.len();
    proof {
        assert(t@.subrange(0, t@.len() as int) =~= t@);
    }
    if is_null_token_exec(t, 0, n) {
        return PropertyOption::Null;
    }
    if is_bool_token_exec(t, 0, n) {
        return PropertyOption::Bool(crate::chars::range_eq_str(t, 0, n, "true"));
    }
    if is_number_exec(t) {
        return PropertyOption::Number(string_from_chars(t));
    }
    if n >= 2 && ((t[0] == '"' && t[n - 1] == '"') || (t[0] == '\'' && t[n - 1] == '\'')) {
        let inner = crate::record::copy_range(t, 1, n - 1);
        proof {
            assert(inner@ =~= unquote(t@));
        }
        return PropertyOption::Text(string_from_chars(&inner));
    }
    PropertyOption::Text(string_from_chars(t))
}

/// One override item of the modification list: the `target` reference on
/// the item line, a `propertyPath` (default empty) and a required `value`
/// among its continuation lines.
pub open spec fn mod_item_spec(fs: Seq<FieldV>, i: int, ie: int) -> Option<ModPropV> {
    let target = match inline_pairs(fs[i].value) {
        Some(ps) => fileref_spec(ps),
        None => None,
    };
    let path = match find_key_at(fs, i + 1, ie, 6, "propertyPath"@, "propertyPath"@) {
        None => Some(""@),
        Some(j) => str_of_token(fs[j].value),
    };
    let value = match find_key_at(fs, i + 1, ie, 6, "value"@, "value"@) {
        None => None,
        Some(j) => Some(propopt_of_token(fs[j].value)),
    };
    match (target, path, value) {
        (Some(t), Some(p), Some(v)) => Some(ModPropV { target: t, path: p, value: v }),
        _ => None,
    }
}

/// The items of the modification list, in order.
pub open spec fn mod_items(fs: Seq<FieldV>, i: int, end: int) -> Option<Seq<ModPropV>>
    decreases end - i when i <= end
{
    if i >= end {
        Some(Seq::empty())
    } else if fs[i].indent == 4 && fs[i].item {
        if fs[i].key == "target"@ {
            let ie = map_block_end(fs, i + 1, end, 4);
            match mod_item_spec(fs, i, ie) {
                Some(m) => {
                    if i + 1 <= ie <= end {
                        match mod_items(fs, ie, end) {
                            Some(r) => Some(seq![m] + r),
                            None => None,
                        }
                    } else {
                        None
                    }
                },
                None => None,
            }
        } else {
            None
        }
    } else if fs[i].indent > 4 {
        None
    } else {
        Some(Seq::empty())
    }
}

/// Decodes one override item, per [`mod_item_spec`].
fn decode_mod_item(fields: &Vec<RawField>, i: usize, ie: usize) -> (r: Option<
    ModificationProperty,
>)
    requires
        i < ie <= fields@.len(),
    ensures
        ({
            let fs = fields_view(fields@);
            match r {
                Some(m) => mod_item_spec(fs, i as int, ie as int) == Some(m@),
                None => mod_item_spec(fs, i as int, ie as int) is None,
            }
        }),
{
    let ghost fs = fields_view(fields@);
    proof {
        assert(fs[i as int] == fields@[i as int]@);
    }
    let f = &fields[i];
    let ps = match parse_inline_exec(&f.value) {
        Some(ps) => ps,
        None => {
            return None;
        },
    };
    let target = match decode_fileref(&ps) {
        Some(t) => t,
        None => {
            return None;
        },
    };
    let path = match find_key_exec(fields, i + 1, ie, 6, "propertyPath", "propertyPath") {
        None => String::from_str(""),
        Some(j) => {
            let g = &fields[j];
            proof {
                assert(fs[j as int] == fields@[j as int]@);
            }
            match str_of_token_exec(&g.value) {
                Some(v) => string_from_chars(&v),
                None => {
                    return None;
                },
            }
        },
    };
    let value = match find_key_exec(fields, i + 1, ie, 6, "value", "value") {
        None => {
            return None;
        },
        Some(j) => {
            let g = &fields[j];
            proof {
                assert(fs[j as int] == fields@[j as int]@);
            }
            propopt_exec(&g.value)
        },
    };
    Some(ModificationProperty { target, path, value })
}

/// Collects the override items, per [`mod_items`].
fn mod_items_exec(fields: &Vec<RawField>, from: usize, end: usize) -> (r: Option<
    Vec<ModificationProperty>,
>)
    requires
        from <= end <= fields@.len(),
    ensures
        ({
            let fs = fields_view(fields@);
            match r {
                Some(ms) => mod_items(fs, from as int, end as int) == Some(mods_view(ms@)),
                None => mod_items(fs, from as int, end as int) is None,
            }
        }),
    decreases end - from,
{
    let ghost fs = fields_view(fields@);
    proof {
        assert(fs.len() == fields@.len());
    }
    if from == end {
        let ms: Vec<ModificationProperty> = Vec::new();
        proof {
            assert(mods_view(ms@) =~= Seq::<ModPropV>::empty());
        }
        return Some(ms);
    }
    let f = &fields[from];
    proof {
        assert(fs[from as int] == fields@[from as int]@);
    }
    if f.indent == 4 && f.item {
        let kl = f.key.len();
        proof {
            assert(f.key@.subrange(0, f.key@.len() as int) =~= f.key@);
        }
        if !crate::chars::range_eq_str(&f.key, 0, kl, "target") {
            return None;
        }
        let ie = map_block_end_exec(fields, from + 1, end, 4);
        let m = match decode_mod_item(fields, from, ie) {
            Some(m) => m,
            None => {
                return None;
            },
        };
        match mod_items_exec(fields, ie, end) {
            Some(rest) => {
                let ghost restv = mods_view(rest@);
                let mut ms = rest;
                ms.insert(0, m);
                proof {
                    assert(mods_view(ms@) =~= seq![m@] + restv);
                }
                Some(ms)
            },
            None => None,
        }
    } else if f.indent > 4 {
        None
    } else {
        let ms: Vec<ModificationProperty> = Vec::new();
        proof {
            assert(mods_view(ms@) =~= Seq::<ModPropV>::empty());
        }
        Some(ms)
    }
}

/// How a prefab instance decodes: a required `m_SourcePrefab` reference
/// and a required `m_Modification` block holding `m_TransformParent` and
/// the `m_Modifications` list (default empty).
pub open spec fn prefabinstance_spec(fs: Seq<FieldV>, s: int, e: int) -> Option<PrefabInstanceV> {
    let source = ref_field_req(fs, s, e, "m_SourcePrefab"@, "m_SourcePrefab"@);
    match (source, find_key_at(fs, s, e, 2, "m_Modification"@, "m_Modification"@)) {
        (Some(src), Some(i)) => {
            if fs[i].value.len() == 0 {
                let be = block_end(fs, i + 1, e, 2);
                let parent = match find_key_at(
                    fs,
                    i + 1,
                    be,
                    4,
                    "m_TransformParent"@,
                    "m_TransformParent"@,
                ) {
                    None => None,
                    Some(j) => match inline_pairs(fs[j].value) {
                        Some(ps) => fileref_spec(ps),
                        None => None,
                    },
                };
                let mods = match find_key_at(
                    fs,
                    i + 1,
                    be,
                    4,
                    "m_Modifications"@,
                    "m_Modifications"@,
                ) {
                    None => Some(Seq::<ModPropV>::empty()),
                    Some(j) => {
                        if fs[j].value == "[]"@ {
                            Some(Seq::<ModPropV>::empty())
                        } else if fs[j].value.len() == 0 && j + 1 <= be {
                            mod_items(fs, j + 1, be)
                        } else {
                            None
                        }
                    },
                };
                match (parent, mods) {
                    (Some(p), Some(ms)) => Some(
                        PrefabInstanceV {
                            source: src,
                            modification: PrefabModificationV { parent: p, modifications: ms },
                        },
                    ),
                    _ => None,
                }
            } else {
                None
            }
        },
        _ => None,
    }
}

/// Decodes a prefab-instance record, per [`prefabinstance_spec`].
pub fn decode_prefabinstance(fields: &Vec<RawField>, start: usize, end: usize) -> (r: Option<
    UnityPrefabInstance,
>)
    requires
        start <= end <= fields@.len(),
    ensures
        ({
            let fs = fields_view(fields@);
            match r {
                Some(p) => prefabinstance_spec(fs, start as int, end as int) == Some(p@),
                None => prefabinstance_spec(fs, start as int, end as int) is None,
            }
        }),
{
    let ghost fs = fields_view(fields@);
    let source = match ref_field_exec(fields, start, end, "m_SourcePrefab", "m_SourcePrefab", true)
        {
        Some(s) => s,
        None => {
            return None;
        },
    };
    let i = match find_key_exec(fields, start, end, 2, "m_Modification", "m_Modification") {
        Some(i) => i,
        None => {
            return None;
        },
    };
    let f = &fields[i];
    proof {
        assert(fs[i as int] == fields@[i as int]@);
    }
    if f.value.len() != 0 {
        return None;
    }
    let be = block_end_exec(fields, i + 1, end, 2);
    let parent = match find_key_exec(fields, i + 1, be, 4, "m_TransformParent", "m_TransformParent")
        {
        None => {
            return None;
        },
        Some(j) => {
            let g = &fields[j];
            proof {
                assert(fs[j as int] == fields@[j as int]@);
            }
            match parse_inline_exec(&g.value) {
                Some(ps) => match decode_fileref(&ps) {
                    Some(p) => p,
                    None => {
                        return None;
                    },
                },
                None => {
                    return None;
                },
            }
        },
    };
    let modifications = match find_key_exec(fields, i + 1, be, 4, "m_Modifications",
        "m_Modifications") {
        None => Vec::new(),
        Some(j) => {
            let g = &fields[j];
            proof {
                assert(fs[j as int] == fields@[j as int]@);
                assert(g.value@.subrange(0, g.value@.len() as int) =~= g.value@);
            }
            let vl = g.value.len();
            if crate::chars::range_eq_str(&g.value, 0, vl, "[]") {
                Vec::new()
            } else if vl == 0 {
                match mod_items_exec(fields, j + 1, be) {
                    Some(ms) => ms,
                    None => {
                        return None;
                    },
                }
            } else {
                return None;
            }
        },
    };
    proof {
        assert(mods_view(Seq::<ModificationProperty>::empty()) =~= Seq::<ModPropV>::empty());
    }
    Some(UnityPrefabInstance {
        source,
        modification: PrefabModification { parent, modifications },
    })
}

} // verus!

verus! {

/// The first override whose path is `path`.
pub open spec fn find_mod(ms: Seq<ModPropV>, path: Seq<char>) -> Option<ModPropV>
    decreases ms.len(),
{
    if ms.len() == 0 {
        None
    } else if ms[0].path == path {
        Some(ms[0])
    } else {
        find_mod(ms.drop_first(), path)
    }
}

/// The target id of the first override whose path is `path`.
pub open spec fn find_mod_target(ms: Seq<ModPropV>, path: Seq<char>) -> Option<i64> {
    match find_mod(ms, path) {
        Some(m) => Some(m.target.file_id),
        None => None,
    }
}

/// The derived id of a record inside an instantiated prefab: the
/// instance's object id combined with the authored id by exclusive-or,
/// masked to 63 bits.  This reproduces the external editor's published
/// global-object-id derivation; mask and operand order are load-bearing.
pub open spec fn derived_id(instance_id: i64, authored_id: i64) -> i64 {
    (instance_id ^ authored_id) & 0x7fff_ffff_ffff_ffff
}

/// The value written over `path` by the override list: the last matching
/// override wins; a matching override that carries no number writes the
/// default back.
pub open spec fn axis_override(ms: Seq<ModPropV>, path: Seq<char>, def: Seq<char>) -> Seq<char>
    decreases ms.len(),
{
    if ms.len() == 0 {
        def
    } else if ms.last().path == path {
        match ms.last().value {
            PropOptV::Number(t) => t,
            _ => def,
        }
    } else {
        axis_override(ms.drop_last(), path, def)
    }
}

/// The local transform of a prefab instance: the position, rotation and
/// scale axis paths applied over identity defaults; unmatched axes keep
/// their defaults; no children and no owning instance.
pub open spec fn prefab_transform_spec(ms: Seq<ModPropV>) -> TransformV {
    TransformV {
        position: vec3_of(
            axis_override(ms, "m_LocalPosition.x"@, "0"@),
            axis_override(ms, "m_LocalPosition.y"@, "0"@),
            axis_override(ms, "m_LocalPosition.z"@, "0"@),
        ),
        rotation: QuaternionV {
            x: axis_override(ms, "m_LocalRotation.x"@, "0"@),
            y: axis_override(ms, "m_LocalRotation.y"@, "0"@),
            z: axis_override(ms, "m_LocalRotation.z"@, "0"@),
            w: axis_override(ms, "m_LocalRotation.w"@, "0"@),
        },
        scale: vec3_of(
            axis_override(ms, "m_LocalScale.x"@, "1"@),
            axis_override(ms, "m_LocalScale.y"@, "1"@),
            axis_override(ms, "m_LocalScale.z"@, "1"@),
        ),
        children: Seq::empty(),
        prefab_instance: fileref_default(),
    }
}

/// The number carried by an override value, or the given default.
fn number_or(v: &PropertyOption, def: &str) -> (r: String)
    ensures
        r@ == (match v@ {
            PropOptV::Number(t) => t,
            _ => def@,
        }),
{
    match v {
        PropertyOption::Number(t) => t.clone(),
        _ => String::from_str(def),
    }
}

impl UnityPrefabInstance {
    /// The first override under `path`, if any.
    pub(crate) fn find_modification(&self, path: &str) -> (r: Option<&ModificationProperty>)
        ensures
            match r {
                Some(m) => find_mod(self@.modification.modifications, path@) == Some(m@),
                None => find_mod(self@.modification.modifications, path@) is None,
            },
    {
        let ghost ms = mods_view(self.modification.modifications@);
        proof {
            assert(ms.len() == self.modification.modifications@.len());
            assert(ms.skip(0) =~= ms);
        }
        let n = self.modification.modifications.len();
        let mut i: usize = 0;
        while i < n
            invariant
                i <= n == self.modification.modifications@.len(),
                ms == mods_view(self.modification.modifications@),
                find_mod(ms, path@) == find_mod(ms.skip(i as int), path@),
            decreases n - i,
        {
            proof {
                assert(ms[i as int] == self.modification.modifications@[i as int]@);
                assert(ms.skip(i as int)[0] == ms[i as int]);
                assert(ms.skip(i as int).drop_first() =~= ms.skip(i + 1 as int));
            }
            let m = &self.modification.modifications[i];
            if str_eq(m.path.as_str(), path) {
                return Some(m);
            }
            i = i + 1;
        }
        proof {
            assert(ms.skip(n as int) =~= Seq::<ModPropV>::empty());
        }
        None
    }

    /// The derived id of the instantiated prefab's authored game object:
    /// the target of the `m_Name` override, combined with the instance's
    /// object id per [`derived_id`].
    pub fn get_local_id(&self, object_id: i64) -> (r: i64)
        requires
            find_mod_target(self@.modification.modifications, "m_Name"@) is Some,
        ensures
            r == derived_id(
                object_id,
                find_mod_target(self@.modification.modifications, "m_Name"@).unwrap(),
            ),
    {
        let m = match self.find_modification("m_Name") {
            Some(m) => m,
            None => {
                proof {
                    assert(false);
                }
                unreached()
            },
        };
        (object_id ^ m.target.file_id) & 0x7fff_ffff_ffff_ffff
    }

    /// The derived id and display name of the authored game object: the
    /// name is the text of the `m_Name` override, empty when it carries
    /// none.
    pub fn get_local_id_and_name(&self, object_id: i64) -> (r: (i64, String))
        requires
            find_mod_target(self@.modification.modifications, "m_Name"@) is Some,
        ensures
            r.0 == derived_id(
                object_id,
                find_mod_target(self@.modification.modifications, "m_Name"@).unwrap(),
            ),
            r.1@ == (match find_mod(self@.modification.modifications, "m_Name"@).unwrap().value {
                PropOptV::Text(t) => t,
                _ => ""@,
            }),
    {
        let m = match self.find_modification("m_Name") {
            Some(m) => m,
            None => {
                proof {
                    assert(false);
                }
                unreached()
            },
        };
        let name = match &m.value {
            PropertyOption::Text(t) => t.clone(),
            _ => String::from_str(""),
        };
        ((object_id ^ m.target.file_id) & 0x7fff_ffff_ffff_ffff, name)
    }

    /// The derived id of the instantiated prefab's authored transform:
    /// the target of the `m_LocalPosition.x` override, combined with the
    /// instance's object id per [`derived_id`].
    pub fn get_transform_id(&self, object_id: i64) -> (r: i64)
        requires
            find_mod_target(self@.modification.modifications, "m_LocalPosition.x"@) is Some,
        ensures
            r == derived_id(
                object_id,
                find_mod_target(self@.modification.modifications, "m_LocalPosition.x"@).unwrap(),
            ),
    {
        let m = match self.find_modification("m_LocalPosition.x") {
            Some(m) => m,
            None => {
                proof {
                    assert(false);
                }
                unreached()
            },
        };
        (object_id ^ m.target.file_id) & 0x7fff_ffff_ffff_ffff
    }

    /// The instance's local transform, per [`prefab_transform_spec`].
    #[verifier::rlimit(30)]
    pub fn get_transform_for_prefab(&self) -> (r: UnityTransform)
        ensures
            r@ == prefab_transform_spec(self@.modification.modifications),
    {
        let ghost ms = mods_view(self.modification.modifications@);
        proof {
            assert(ms.len() == self.modification.modifications@.len());
        }
        let mut t = UnityTransform::default_value();
        let n = self.modification.modifications.len();
        let mut i: usize = 0;
        while i < n
            invariant
                i <= n == self.modification.modifications@.len(),
                ms == mods_view(self.modification.modifications@),
                t.position@.x == axis_override(ms.take(i as int), "m_LocalPosition.x"@, "0"@),
                t.position@.y == axis_override(ms.take(i as int), "m_LocalPosition.y"@, "0"@),
                t.position@.z == axis_override(ms.take(i as int), "m_LocalPosition.z"@, "0"@),
                t.rotation@.x == axis_override(ms.take(i as int), "m_LocalRotation.x"@, "0"@),
                t.rotation@.y == axis_override(ms.take(i as int), "m_LocalRotation.y"@, "0"@),
                t.rotation@.z == axis_override(ms.take(i as int), "m_LocalRotation.z"@, "0"@),
                t.rotation@.w == axis_override(ms.take(i as int), "m_LocalRotation.w"@, "0"@),
                t.scale@.x == axis_override(ms.take(i as int), "m_LocalScale.x"@, "1"@),
                t.scale@.y == axis_override(ms.take(i as int), "m_LocalScale.y"@, "1"@),
                t.scale@.z == axis_override(ms.take(i as int), "m_LocalScale.z"@, "1"@),
                t@.children == Seq::<FileRefV>::empty(),
                t@.prefab_instance == fileref_default(),
            decreases n - i,
        {
            proof {
                reveal_strlit("m_LocalPosition.x");
                reveal_strlit("m_LocalPosition.y");
                reveal_strlit("m_LocalPosition.z");
                reveal_strlit("m_LocalRotation.x");
                reveal_strlit("m_LocalRotation.y");
                reveal_strlit("m_LocalRotation.z");
                reveal_strlit("m_LocalRotation.w");
                reveal_strlit("m_LocalScale.x");
                reveal_strlit("m_LocalScale.y");
                reveal_strlit("m_LocalScale.z");
                assert("m_LocalPosition.x"@.len() == 17 && "m_LocalPosition.x"@[7] == 'P'
                    && "m_LocalPosition.x"@[16] == 'x');
                assert("m_LocalPosition.y"@.len() == 17 && "m_LocalPosition.y"@[7] == 'P'
                    && "m_LocalPosition.y"@[16] == 'y');
                assert("m_LocalPosition.z"@.len() == 17 && "m_LocalPosition.z"@[7] == 'P'
                    && "m_LocalPosition.z"@[16] == 'z');
                assert("m_LocalRotation.x"@.len() == 17 && "m_LocalRotation.x"@[7] == 'R'
                    && "m_LocalRotation.x"@[16] == 'x');
                assert("m_LocalRotation.y"@.len() == 17 && "m_LocalRotation.y"@[7] == 'R'
                    && "m_LocalRotation.y"@[16] == 'y');
                assert("m_LocalRotation.z"@.len() == 17 && "m_LocalRotation.z"@[7] == 'R'
                    && "m_LocalRotation.z"@[16] == 'z');
                assert("m_LocalRotation.w"@.len() == 17 && "m_LocalRotation.w"@[7] == 'R'
                    && "m_LocalRotation.w"@[16] == 'w');
                assert("m_LocalScale.x"@.len() == 14 && "m_LocalScale.x"@[13] == 'x');
                assert("m_LocalScale.y"@.len() == 14 && "m_LocalScale.y"@[13] == 'y');
                assert("m_LocalScale.z"@.len() == 14 && "m_LocalScale.z"@[13] == 'z');
                assert(ms.take(i + 1 as int).drop_last() =~= ms.take(i as int));
                assert(ms.take(i + 1 as int).last() == ms[i as int]);
                assert(ms[i as int] == self.modification.modifications@[i as int]@);
            }
            let m = &self.modification.modifications[i];
            if str_eq(m.path.as_str(), "m_LocalPosition.x") {
                t.position.x = number_or(&m.value, "0");
            } else if str_eq(m.path.as_str(), "m_LocalPosition.y") {
                t.position.y = number_or(&m.value, "0");
            } else if str_eq(m.path.as_str(), "m_LocalPosition.z") {
                t.position.z = number_or(&m.value, "0");
            } else if str_eq(m.path.as_str(), "m_LocalRotation.x") {
                t.rotation.x = number_or(&m.value, "0");
            } else if str_eq(m.path.as_str(), "m_LocalRotation.y") {
                t.rotation.y = number_or(&m.value, "0");
            } else if str_eq(m.path.as_str(), "m_LocalRotation.z") {
                t.rotation.z = number_or(&m.value, "0");
            } else if str_eq(m.path.as_str(), "m_LocalRotation.w") {
                t.rotation.w = number_or(&m.value, "0");
            } else if str_eq(m.path.as_str(), "m_LocalScale.x") {
                t.scale.x = number_or(&m.value, "1");
            } else if str_eq(m.path.as_str(), "m_LocalScale.y") {
                t.scale.y = number_or(&m.value, "1");
            } else if str_eq(m.path.as_str(), "m_LocalScale.z") {
                t.scale.z = number_or(&m.value, "1");
            }
            i = i + 1;
        }
        proof {
            assert(ms.take(n as int) =~= ms);
        }
        t
    }
}

} // verus!

verus! {

/// Within one instantiation the derivation never collides: authored ids
/// that differ in the masked 63 bits derive to different ids.
pub proof fn lemma_derived_id_injective(i: i64, a: i64, b: i64)
    requires
        (a ^ b) & 0x7fff_ffff_ffff_ffff != 0,
    ensures
        derived_id(i, a) != derived_id(i, b),
{
    assert(((i ^ a) & 0x7fff_ffff_ffff_ffff) != ((i ^ b) & 0x7fff_ffff_ffff_ffff))
        by (bit_vector)
        requires
            (a ^ b) & 0x7fff_ffff_ffff_ffff != 0,
    ;
}

proof fn lemma_derived_cross(i1: i64, i2: i64, a: i64, b: i64)
    requires
        ((a ^ b) & 0x7fff_ffff_ffff_ffff) != ((i1 ^ i2) & 0x7fff_ffff_ffff_ffff),
    ensures
        derived_id(i1, a) != derived_id(i2, b),
{
    assert(((i1 ^ a) & 0x7fff_ffff_ffff_ffff) != ((i2 ^ b) & 0x7fff_ffff_ffff_ffff))
        by (bit_vector)
        requires
            ((a ^ b) & 0x7fff_ffff_ffff_ffff) != ((i1 ^ i2) & 0x7fff_ffff_ffff_ffff),
    ;
}

/// Two instantiations of one prefab re-key every authored id through
/// [`derived_id`].  Their derived ids are fully disjoint, provided no two
/// authored ids differ, in the masked 63 bits, by exactly the instance
/// ids' own difference — in particular the instance ids must differ
/// there, since each authored id differs from itself by zero.
pub proof fn lemma_prefab_instances_disjoint(i1: i64, i2: i64, ids: Seq<i64>)
    requires
        forall|a: int, b: int|
            #![trigger ids[a], ids[b]]
            0 <= a < ids.len() && 0 <= b < ids.len() ==> ((ids[a] ^ ids[b])
                & 0x7fff_ffff_ffff_ffff) != ((i1 ^ i2) & 0x7fff_ffff_ffff_ffff),
    ensures
        forall|a: int, b: int|
            #![trigger ids[a], ids[b]]
            0 <= a < ids.len() && 0 <= b < ids.len() ==> derived_id(i1, ids[a]) != derived_id(
                i2,
                ids[b],
            ),
{
    assert forall|a: int, b: int|
        #![trigger ids[a], ids[b]]
        0 <= a < ids.len() && 0 <= b < ids.len() implies derived_id(i1, ids[a]) != derived_id(
        i2,
        ids[b],
    ) by {
        lemma_derived_cross(i1, i2, ids[a], ids[b]);
    }
}

} // verus!
