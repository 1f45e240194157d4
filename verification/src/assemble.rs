//! The scene-graph assembler: turns a decoded scene into a spawn plan —
//! one planned entity per spawnable game object and per prefab instance,
//! the id maps the runtime host keeps, and the hierarchy attachments.
//! The host performs the plan; everything decided here is decided by the
//! scene alone.

use vstd::prelude::*;

use crate::chars::{append_str, chars_of, ends_with, str_ends_with, str_eq, string_from_chars};
use crate::gameobject::{components_view, UnityGameObject};
use crate::objects::{strs_view, SceneObjectV, UnitySceneObject};
use crate::prefabs::{
    derived_id, find_mod, prefab_transform_spec, ModPropV, PrefabInstanceV, PropOptV,
    UnityPrefabInstance,
};
use crate::reference::{FileReference, FileRefV};
use crate::scalar::{i64_dec_str, i64_to_chars};
use crate::scene::{entries_view, get_transform, get_transform_spec, scene_get, UnityScene};
use crate::transform::{TransformV, UnityTransform};
use crate::math::UnityVector3;
use crate::math::UnityQuaternion;

verus! {

/// Recursion bound on nested prefab expansion.  A chain of references
/// deeper than this expands to nothing: the source convention produces
/// shallow nestings, and a cyclic reference must not hang the assembler.
pub const PREFAB_DEPTH: u64 = 64;

/// The expansion of one prefab reference: component ids (re-keyed through
/// the derived-id scheme) to attach to the owning entity, an interchange
/// asset left to the host loader, and the nested instances, each a child
/// entity of the owner.
pub struct PrefabNode {
    pub components: Vec<i64>,
    pub pending_asset: Option<String>,
    pub nested: Vec<(UnityTransform, PrefabNode)>,
}

/// One entity the host is to spawn.
pub struct PlannedEntity {
    /// The id registered for the entity: the game object's own, or the
    /// prefab instance's derived id.
    pub object_id: i64,
    /// The transform record's id, the key the change tracker reports
    /// under.
    pub origin_id: i64,
    pub name: String,
    pub active: bool,
    pub transform: UnityTransform,
    /// Component ids to resolve and attach, in declaration order.
    pub components: Vec<i64>,
    /// The prefab expansion, for entities born from a prefab instance
    /// with a source GUID.
    pub expansion: Option<PrefabNode>,
}

/// The assembler's output.
pub struct SpawnPlan {
    pub entities: Vec<PlannedEntity>,
    /// Object id of each entity, to the entity's index.
    pub object_map: Vec<(i64, usize)>,
    /// Derived global-id string of each entity, to the entity's index.
    pub guid_map: Vec<(String, usize)>,
    /// Transform id of each entity, to the entity's index.
    pub transform_map: Vec<(i64, usize)>,
    /// Per game-object entity: its index and the indices of its resolved
    /// child entities, in declaration order.
    pub attachments: Vec<(usize, Vec<usize>)>,
    pub diagnostics: Vec<String>,
}

// ---------------------------------------------------------------------------
// The game-object pass.
// ---------------------------------------------------------------------------
/// What one spawnable game object contributes.
pub struct GoEntV {
    pub object_id: i64,
    pub origin_id: i64,
    pub name: Seq<char>,
    pub active: bool,
    pub transform: TransformV,
    pub components: Seq<i64>,
}

/// The component references that resolve to some record, as ids.
pub open spec fn resolvable_components(
    comps: Seq<FileRefV>,
    full: Seq<(i64, SceneObjectV)>,
) -> Seq<i64>
    decreases comps.len(),
{
    if comps.len() == 0 {
        Seq::empty()
    } else {
        let r = resolvable_components(comps.drop_last(), full);
        if scene_get(full, comps.last().file_id) is Some {
            r.push(comps.last().file_id)
        } else {
            r
        }
    }
}

/// The entities of the game-object pass: one per game object whose
/// transform resolves, in document order.
pub open spec fn go_entities(es: Seq<(i64, SceneObjectV)>, full: Seq<(i64, SceneObjectV)>) -> Seq<
    GoEntV,
>
    decreases es.len(),
{
    if es.len() == 0 {
        Seq::empty()
    } else {
        let r = go_entities(es.drop_last(), full);
        match es.last().1 {
            SceneObjectV::GameObject(g) => match get_transform_spec(g.components, full) {
                Some((cid, t)) => r.push(
                    GoEntV {
                        object_id: es.last().0,
                        origin_id: cid,
                        name: g.name,
                        active: g.active == 1,
                        transform: t,
                        components: resolvable_components(g.components, full),
                    },
                ),
                None => r,
            },
            _ => r,
        }
    }
}

/// The diagnostics of the game-object pass: one line per game object
/// without a resolvable transform.
pub open spec fn go_diags(es: Seq<(i64, SceneObjectV)>, full: Seq<(i64, SceneObjectV)>) -> Seq<
    Seq<char>,
>
    decreases es.len(),
{
    if es.len() == 0 {
        Seq::empty()
    } else {
        let r = go_diags(es.drop_last(), full);
        match es.last().1 {
            SceneObjectV::GameObject(g) => match get_transform_spec(g.components, full) {
                Some(_) => r,
                None => r.push("game object without a transform: "@ + g.name),
            },
            _ => r,
        }
    }
}

// ---------------------------------------------------------------------------
// The prefab pass.
// ---------------------------------------------------------------------------
/// What one prefab instance contributes.
pub struct PfEntV {
    /// The instance's own object id; nested expansion re-keys through it.
    pub instance_id: i64,
    pub object_id: i64,
    pub origin_id: i64,
    pub name: Seq<char>,
    pub transform: TransformV,
    pub guid: Option<Seq<char>>,
}

/// Whether an instance carries the overrides its derived ids come from.
pub open spec fn pf_ids_derivable(p: PrefabInstanceV) -> bool {
    &&& find_mod(p.modification.modifications, "m_Name"@) is Some
    &&& find_mod(p.modification.modifications, "m_LocalPosition.x"@) is Some
}

pub open spec fn pf_ent_of(id: i64, p: PrefabInstanceV) -> PfEntV {
    let ms = p.modification.modifications;
    PfEntV {
        instance_id: id,
        object_id: derived_id(id, find_mod(ms, "m_Name"@).unwrap().target.file_id),
        origin_id: derived_id(id, find_mod(ms, "m_LocalPosition.x"@).unwrap().target.file_id),
        name: match find_mod(ms, "m_Name"@).unwrap().value {
            PropOptV::Text(t) => t,
            _ => ""@,
        },
        transform: prefab_transform_spec(ms),
        guid: p.source.guid,
    }
}

/// The entities of the prefab pass: one per instance whose derived ids
/// can be computed, in document order.
pub open spec fn pf_entities(es: Seq<(i64, SceneObjectV)>) -> Seq<PfEntV>
    decreases es.len(),
{
    if es.len() == 0 {
        Seq::empty()
    } else {
        let r = pf_entities(es.drop_last());
        match es.last().1 {
            SceneObjectV::PrefabInstance(p) => {
                if pf_ids_derivable(p) {
                    r.push(pf_ent_of(es.last().0, p))
                } else {
                    r
                }
            },
            _ => r,
        }
    }
}

/// The diagnostics of the prefab pass: one line per instance skipped for
/// want of the overrides its ids derive from.
pub open spec fn pf_diags(es: Seq<(i64, SceneObjectV)>) -> Seq<Seq<char>>
    decreases es.len(),
{
    if es.len() == 0 {
        Seq::empty()
    } else {
        let r = pf_diags(es.drop_last());
        match es.last().1 {
            SceneObjectV::PrefabInstance(p) => {
                if pf_ids_derivable(p) {
                    r
                } else {
                    r.push("prefab instance without override targets"@)
                }
            },
            _ => r,
        }
    }
}

// ---------------------------------------------------------------------------
// Prefab expansion.
// ---------------------------------------------------------------------------
pub open spec fn paths_view(ps: Seq<(String, String)>) -> Seq<(Seq<char>, Seq<char>)> {
    ps.map_values(|p: (String, String)| (p.0@, p.1@))
}

pub open spec fn prefabs_view(ps: Seq<(String, UnityScene)>) -> Seq<
    (Seq<char>, Seq<(i64, SceneObjectV)>),
> {
    ps.map_values(|p: (String, UnityScene)| (p.0@, entries_view(p.1.entries@)))
}

/// First-match lookup among GUID-keyed paths.
pub open spec fn assoc_path(ps: Seq<(Seq<char>, Seq<char>)>, guid: Seq<char>) -> Option<Seq<char>>
    decreases ps.len(),
{
    if ps.len() == 0 {
        None
    } else if ps[0].0 == guid {
        Some(ps[0].1)
    } else {
        assoc_path(ps.drop_first(), guid)
    }
}

/// First-match lookup among GUID-keyed prefab documents.
pub open spec fn assoc_prefab(
    ps: Seq<(Seq<char>, Seq<(i64, SceneObjectV)>)>,
    guid: Seq<char>,
) -> Option<Seq<(i64, SceneObjectV)>>
    decreases ps.len(),
{
    if ps.len() == 0 {
        None
    } else if ps[0].0 == guid {
        Some(ps[0].1)
    } else {
        assoc_prefab(ps.drop_first(), guid)
    }
}

/// A prefab's resolvable component ids re-keyed through the derived-id
/// scheme.
pub open spec fn rekeyed_comps_of(
    comps: Seq<FileRefV>,
    full: Seq<(i64, SceneObjectV)>,
    scene_id: i64,
) -> Seq<i64>
    decreases comps.len(),
{
    if comps.len() == 0 {
        Seq::empty()
    } else {
        let r = rekeyed_comps_of(comps.drop_last(), full, scene_id);
        if scene_get(full, comps.last().file_id) is Some {
            r.push(derived_id(scene_id, comps.last().file_id))
        } else {
            r
        }
    }
}

/// Every game object's resolvable components inside a prefab document,
/// re-keyed, in document order.
pub open spec fn rekeyed_components(
    es: Seq<(i64, SceneObjectV)>,
    full: Seq<(i64, SceneObjectV)>,
    scene_id: i64,
) -> Seq<i64>
    decreases es.len(),
{
    if es.len() == 0 {
        Seq::empty()
    } else {
        let r = rekeyed_components(es.drop_last(), full, scene_id);
        match es.last().1 {
            SceneObjectV::GameObject(g) => r + rekeyed_comps_of(g.components, full, scene_id),
            _ => r,
        }
    }
}

/// The prefab instances inside a prefab document, in document order.
pub open spec fn prefab_instances(es: Seq<(i64, SceneObjectV)>) -> Seq<PrefabInstanceV>
    decreases es.len(),
{
    if es.len() == 0 {
        Seq::empty()
    } else {
        let r = prefab_instances(es.drop_last());
        match es.last().1 {
            SceneObjectV::PrefabInstance(p) => r.push(p),
            _ => r,
        }
    }
}

pub open spec fn empty_node(n: PrefabNode) -> bool {
    &&& n.components@.len() == 0
    &&& n.pending_asset is None
    &&& n.nested@.len() == 0
}

/// What a correct expansion of `guid` looks like: nothing for an unknown
/// GUID, an exhausted recursion bound, or a path of an unrecognized kind;
/// a pending asset for interchange content; for a prefab document, the
/// re-keyed components and one nested child per inner instance, expanded
/// recursively under the same scene id.
pub open spec fn node_ok(
    n: PrefabNode,
    scene_id: i64,
    guid: Seq<char>,
    prefabs: Seq<(Seq<char>, Seq<(i64, SceneObjectV)>)>,
    paths: Seq<(Seq<char>, Seq<char>)>,
    fuel: nat,
) -> bool
    decreases fuel,
{
    if fuel == 0 {
        empty_node(n)
    } else {
        match assoc_path(paths, guid) {
            None => empty_node(n),
            Some(path) => {
                if ends_with(path, ".glb"@) || ends_with(path, ".gltf"@) {
                    &&& n.components@.len() == 0
                    &&& n.nested@.len() == 0
                    &&& (match n.pending_asset {
                        Some(p) => p@ == path,
                        None => false,
                    })
                } else if ends_with(path, ".prefab"@) {
                    let content = match assoc_prefab(prefabs, guid) {
                        Some(c) => c,
                        None => Seq::empty(),
                    };
                    let insts = prefab_instances(content);
                    &&& n.pending_asset is None
                    &&& n.components@ == rekeyed_components(content, content, scene_id)
                    &&& n.nested@.len() == insts.len()
                    &&& forall|k: int|
                        0 <= k < insts.len() ==> {
                            &&& (#[trigger] n.nested@[k]).0@ == prefab_transform_spec(
                                insts[k].modification.modifications,
                            )
                            &&& (match insts[k].source.guid {
                                None => empty_node(n.nested@[k].1),
                                Some(g) => node_ok(
                                    n.nested@[k].1,
                                    scene_id,
                                    g,
                                    prefabs,
                                    paths,
                                    (fuel - 1) as nat,
                                ),
                            })
                        }
                } else {
                    empty_node(n)
                }
            },
        }
    }
}

} // verus!

verus! {

fn clone_opt_string(o: &Option<String>) -> (r: Option<String>)
    ensures
        match (r, o) {
            (Some(a), Some(b)) => a@ == b@,
            (None, None) => true,
            _ => false,
        },
{
    match o {
        Some(s) => Some(s.clone()),
        None => None,
    }
}

fn clone_fileref(f: &FileReference) -> (r: FileReference)
    ensures
        r@ == f@,
{
    FileReference { file_id: f.file_id, guid: clone_opt_string(&f.guid) }
}

fn clone_vector3(v: &UnityVector3) -> (r: UnityVector3)
    ensures
        r@ == v@,
{
    UnityVector3 { x: v.x.clone(), y: v.y.clone(), z: v.z.clone() }
}

fn clone_quaternion(q: &UnityQuaternion) -> (r: UnityQuaternion)
    ensures
        r@ == q@,
{
    UnityQuaternion { x: q.x.clone(), y: q.y.clone(), z: q.z.clone(), w: q.w.clone() }
}

fn clone_transform(t: &UnityTransform) -> (r: UnityTransform)
    ensures
        r@ == t@,
{
    let ghost crefs = crate::fields::refs_view(t.children@);
    let mut children: Vec<FileReference> = Vec::new();
    let n = t.children.len();
    let mut i: usize = 0;
    proof {
        assert(crefs.len() == t.children@.len());
        assert(crate::fields::refs_view(children@) =~= crefs.take(0));
    }
    while i < n
        invariant
            i <= n == t.children@.len(),
            crefs == crate::fields::refs_view(t.children@),
            crate::fields::refs_view(children@) =~= crefs.take(i as int),
        decreases n - i,
    {
        let ghost prev = children@;
        proof {
            assert(crate::fields::refs_view(prev).len() == prev.len());
            assert(crefs[i as int] == t.children@[i as int]@);
        }
        let c = clone_fileref(&t.children[i]);
        children.push(c);
        proof {
            assert(crate::fields::refs_view(children@) =~= crate::fields::refs_view(prev).push(
                crefs[i as int],
            ));
        }
        i = i + 1;
    }
    proof {
        assert(crefs.take(n as int) =~= crefs);
    }
    UnityTransform {
        position: clone_vector3(&t.position),
        rotation: clone_quaternion(&t.rotation),
        scale: clone_vector3(&t.scale),
        children,
        prefab_instance: clone_fileref(&t.prefab_instance),
    }
}

/// Looks a GUID up among the asset paths, per [`assoc_path`].
fn assoc_path_exec<'a>(paths: &'a Vec<(String, String)>, guid: &str) -> (r: Option<&'a String>)
    ensures
        match r {
            Some(p) => assoc_path(paths_view(paths@), guid@) == Some(p@),
            None => assoc_path(paths_view(paths@), guid@) is None,
        },
{
    let ghost pv = paths_view(paths@);
    proof {
        assert(pv.len() == paths@.len());
        assert(pv.skip(0) =~= pv);
    }
    let n = paths.len();
    let mut i: usize = 0;
    while i < n
        invariant
            i <= n == paths@.len(),
            pv == paths_view(paths@),
            assoc_path(pv, guid@) == assoc_path(pv.skip(i as int), guid@),
        decreases n - i,
    {
        proof {
            assert(pv[i as int] == (paths@[i as int].0@, paths@[i as int].1@));
            assert(pv.skip(i as int)[0] == pv[i as int]);
            assert(pv.skip(i as int).drop_first() =~= pv.skip(i + 1 as int));
        }
        if str_eq(paths[i].0.as_str(), guid) {
            return Some(&paths[i].1);
        }
        i = i + 1;
    }
    proof {
        assert(pv.skip(n as int) =~= Seq::<(Seq<char>, Seq<char>)>::empty());
    }
    None
}

/// Looks a GUID up among the loaded prefab documents, per
/// [`assoc_prefab`].
fn assoc_prefab_exec<'a>(prefabs: &'a Vec<(String, UnityScene)>, guid: &str) -> (r: Option<
    &'a UnityScene,
>)
    ensures
        match r {
            Some(sc) => assoc_prefab(prefabs_view(prefabs@), guid@) == Some(
                entries_view(sc.entries@),
            ),
            None => assoc_prefab(prefabs_view(prefabs@), guid@) is None,
        },
{
    let ghost pv = prefabs_view(prefabs@);
    proof {
        assert(pv.len() == prefabs@.len());
        assert(pv.skip(0) =~= pv);
    }
    let n = prefabs.len();
    let mut i: usize = 0;
    while i < n
        invariant
            i <= n == prefabs@.len(),
            pv == prefabs_view(prefabs@),
            assoc_prefab(pv, guid@) == assoc_prefab(pv.skip(i as int), guid@),
        decreases n - i,
    {
        proof {
            assert(pv[i as int] == (prefabs@[i as int].0@, entries_view(
                prefabs@[i as int].1.entries@,
            )));
            assert(pv.skip(i as int)[0] == pv[i as int]);
            assert(pv.skip(i as int).drop_first() =~= pv.skip(i + 1 as int));
        }
        if str_eq(prefabs[i].0.as_str(), guid) {
            return Some(&prefabs[i].1);
        }
        i = i + 1;
    }
    proof {
        assert(pv.skip(n as int) =~= Seq::<(Seq<char>, Seq<(i64, SceneObjectV)>)>::empty());
    }
    None
}

fn empty_prefab_node() -> (n: PrefabNode)
    ensures
        empty_node(n),
{
    PrefabNode { components: Vec::new(), pending_asset: None, nested: Vec::new() }
}

/// Expands one prefab reference, per [`node_ok`]: resolves the GUID to a
/// path, defers interchange assets to the host, re-keys a prefab
/// document's components and recurses into its nested instances.
#[verifier::rlimit(50)]
pub fn expand_prefab(
    scene_id: i64,
    guid: &str,
    prefabs: &Vec<(String, UnityScene)>,
    paths: &Vec<(String, String)>,
    fuel: u64,
) -> (n: PrefabNode)
    ensures
        node_ok(n, scene_id, guid@, prefabs_view(prefabs@), paths_view(paths@), fuel as nat),
    decreases fuel,
{
    if fuel == 0 {
        return empty_prefab_node();
    }
    let path = match assoc_path_exec(paths, guid) {
        Some(p) => p,
        None => {
            return empty_prefab_node();
        },
    };
    if str_ends_with(path.as_str(), ".glb") || str_ends_with(path.as_str(), ".gltf") {
        return PrefabNode {
            components: Vec::new(),
            pending_asset: Some(path.clone()),
            nested: Vec::new(),
        };
    }
    if !str_ends_with(path.as_str(), ".prefab") {
        return empty_prefab_node();
    }
    let ghost content = match assoc_prefab(prefabs_view(prefabs@), guid@) {
        Some(c) => c,
        None => Seq::empty(),
    };
    let doc = match assoc_prefab_exec(prefabs, guid) {
        Some(d) => d,
        None => {
            let n = empty_prefab_node();
            proof {
                assert(content =~= Seq::<(i64, SceneObjectV)>::empty());
                assert(rekeyed_components(content, content, scene_id) =~= Seq::<i64>::empty());
                assert(prefab_instances(content) =~= Seq::<PrefabInstanceV>::empty());
                assert(n.components@ =~= rekeyed_components(content, content, scene_id));
                assert(n.nested@.len() == prefab_instances(content).len());
            }
            return n;
        },
    };
    proof {
        assert(content == entries_view(doc.entries@));
        assert(content.len() == doc.entries@.len());
    }
    // re-keyed components of every game object
    let mut components: Vec<i64> = Vec::new();
    let ne = doc.entries.len();
    let mut i: usize = 0;
    proof {
        assert(components@ =~= rekeyed_components(content.take(0), content, scene_id));
    }
    while i < ne
        invariant
            i <= ne == content.len(),
            content == entries_view(doc.entries@),
            components@ =~= rekeyed_components(content.take(i as int), content, scene_id),
        decreases ne - i,
    {
        proof {
            assert(content[i as int] == (doc.entries@[i as int].0, doc.entries@[i as int].1@));
            assert(content.take(i + 1 as int).drop_last() =~= content.take(i as int));
            assert(content.take(i + 1 as int).last() == content[i as int]);
        }
        match &doc.entries[i].1 {
            UnitySceneObject::GameObject(g) => {
                let ghost comps = components_view(g.components@);
                let nc = g.components.len();
                let mut j: usize = 0;
                proof {
                    assert(comps.len() == g.components@.len());
                    assert(rekeyed_comps_of(comps.take(0), content, scene_id) =~= Seq::<
                        i64,
                    >::empty());
                    assert(components@ =~= rekeyed_components(content.take(i as int), content,
                        scene_id) + rekeyed_comps_of(comps.take(0), content, scene_id));
                }
                while j < nc
                    invariant
                        j <= nc == g.components@.len(),
                        comps == components_view(g.components@),
                        content == entries_view(doc.entries@),
                        components@ =~= rekeyed_components(
                            content.take(i as int),
                            content,
                            scene_id,
                        ) + rekeyed_comps_of(comps.take(j as int), content, scene_id),
                    decreases nc - j,
                {
                    proof {
                        assert(comps[j as int] == g.components@[j as int].component@);
                        assert(comps.take(j + 1 as int).drop_last() =~= comps.take(j as int));
                        assert(comps.take(j + 1 as int).last() == comps[j as int]);
                    }
                    let cid = g.components[j].component.file_id;
                    match doc.get(cid) {
                        Some(_) => {
                            components.push((scene_id ^ cid) & 0x7fff_ffff_ffff_ffff);
                        },
                        None => {},
                    }
                    j = j + 1;
                }
                proof {
                    assert(comps.take(nc as int) =~= comps);
                }
            },
            _ => {},
        }
        i = i + 1;
    }
    proof {
        assert(content.take(ne as int) =~= content);
    }
    // nested instances
    let ghost insts = prefab_instances(content);
    let mut nested: Vec<(UnityTransform, PrefabNode)> = Vec::new();
    let mut i2: usize = 0;
    while i2 < ne
        invariant
            fuel >= 1,
            i2 <= ne == content.len(),
            content == entries_view(doc.entries@),
            nested@.len() == prefab_instances(content.take(i2 as int)).len(),
            forall|k: int|
                0 <= k < nested@.len() ==> {
                    let inst = prefab_instances(content.take(i2 as int))[k];
                    &&& (#[trigger] nested@[k]).0@ == prefab_transform_spec(
                        inst.modification.modifications,
                    )
                    &&& (match inst.source.guid {
                        None => empty_node(nested@[k].1),
                        Some(g) => node_ok(
                            nested@[k].1,
                            scene_id,
                            g,
                            prefabs_view(prefabs@),
                            paths_view(paths@),
                            (fuel - 1) as nat,
                        ),
                    })
                },
        decreases ne - i2,
    {
        let ghost pre = prefab_instances(content.take(i2 as int));
        proof {
            assert(content[i2 as int] == (doc.entries@[i2 as int].0, doc.entries@[i2 as int].1@));
            assert(content.take(i2 + 1 as int).drop_last() =~= content.take(i2 as int));
            assert(content.take(i2 + 1 as int).last() == content[i2 as int]);
        }
        match &doc.entries[i2].1 {
            UnitySceneObject::PrefabInstance(p) => {
                let t = p.get_transform_for_prefab();
                let child = match &p.source.guid {
                    Some(g) => expand_prefab(scene_id, g.as_str(), prefabs, paths, fuel - 1),
                    None => empty_prefab_node(),
                };
                let ghost prevn = nested@;
                nested.push((t, child));
                proof {
                    let post = prefab_instances(content.take(i2 + 1 as int));
                    assert(post == pre.push(doc.entries@[i2 as int].1@->PrefabInstance_0));
                    assert forall|k: int| 0 <= k < nested@.len() implies {
                        let inst = post[k];
                        &&& (#[trigger] nested@[k]).0@ == prefab_transform_spec(
                            inst.modification.modifications,
                        )
                        &&& (match inst.source.guid {
                            None => empty_node(nested@[k].1),
                            Some(g) => node_ok(
                                nested@[k].1,
                                scene_id,
                                g,
                                prefabs_view(prefabs@),
                                paths_view(paths@),
                                (fuel - 1) as nat,
                            ),
                        })
                    } by {
                        if k < prevn.len() {
                            assert(nested@[k] == prevn[k]);
                            assert(post[k] == pre[k]);
                        } else {
                            assert(nested@[k] == (t, child));
                        }
                    }
                }
            },
            _ => {
                proof {
                    assert(prefab_instances(content.take(i2 + 1 as int)) == pre);
                }
            },
        }
        i2 = i2 + 1;
    }
    proof {
        assert(content.take(ne as int) =~= content);
    }
    PrefabNode { components, pending_asset: None, nested }
}

} // verus!

verus! {

/// Whether a planned entity is exactly what a spawnable game object
/// contributes.
pub open spec fn go_matches(e: PlannedEntity, g: GoEntV) -> bool {
    &&& e.object_id == g.object_id
    &&& e.origin_id == g.origin_id
    &&& e.name@ == g.name
    &&& e.active == g.active
    &&& e.transform@ == g.transform
    &&& e.components@ == g.components
    &&& e.expansion is None
}

/// Whether a planned entity is exactly what a prefab instance
/// contributes; with a source GUID its expansion satisfies [`node_ok`].
pub open spec fn pf_matches(
    e: PlannedEntity,
    p: PfEntV,
    prefabs: Seq<(Seq<char>, Seq<(i64, SceneObjectV)>)>,
    paths: Seq<(Seq<char>, Seq<char>)>,
) -> bool {
    &&& e.object_id == p.object_id
    &&& e.origin_id == p.origin_id
    &&& e.name@ == p.name
    &&& e.active == true
    &&& e.transform@ == p.transform
    &&& e.components@ == Seq::<i64>::empty()
    &&& (match p.guid {
        None => e.expansion is None,
        Some(g) => e.expansion matches Some(nd) && node_ok(
            nd,
            p.instance_id,
            g,
            prefabs,
            paths,
            PREFAB_DEPTH as nat,
        ),
    })
}

/// The game-object pass, per [`go_entities`] and [`go_diags`].
fn plan_game_objects(scene: &UnityScene) -> (r: (Vec<PlannedEntity>, Vec<String>))
    ensures
        ({
            let es = entries_view(scene.entries@);
            let gos = go_entities(es, es);
            &&& r.0@.len() == gos.len()
            &&& forall|i: int| 0 <= i < gos.len() ==> go_matches(#[trigger] r.0@[i], gos[i])
            &&& strs_view(r.1@) == go_diags(es, es)
        }),
{
    let ghost es = entries_view(scene.entries@);
    proof {
        assert(es.len() == scene.entries@.len());
    }
    let n = scene.entries.len();
    let mut ents: Vec<PlannedEntity> = Vec::new();
    let mut diags: Vec<String> = Vec::new();
    let mut i: usize = 0;
    proof {
        assert(go_entities(es.take(0), es) =~= Seq::<GoEntV>::empty());
        assert(strs_view(diags@) =~= go_diags(es.take(0), es));
    }
    while i < n
        invariant
            i <= n == scene.entries@.len(),
            es == entries_view(scene.entries@),
            ents@.len() == go_entities(es.take(i as int), es).len(),
            forall|k: int|
                0 <= k < ents@.len() ==> go_matches(
                    #[trigger] ents@[k],
                    go_entities(es.take(i as int), es)[k],
                ),
            strs_view(diags@) =~= go_diags(es.take(i as int), es),
        decreases n - i,
    {
        let ghost pre = go_entities(es.take(i as int), es);
        proof {
            assert(es[i as int] == (scene.entries@[i as int].0, scene.entries@[i as int].1@));
            assert(es.take(i + 1 as int).drop_last() =~= es.take(i as int));
            assert(es.take(i + 1 as int).last() == es[i as int]);
        }
        match &scene.entries[i].1 {
            UnitySceneObject::GameObject(g) => {
                match get_transform(g, scene) {
                    Some((cid, t)) => {
                        // the resolvable component ids, in order
                        let ghost comps = components_view(g.components@);
                        let mut cids: Vec<i64> = Vec::new();
                        let nc = g.components.len();
                        let mut j: usize = 0;
                        proof {
                            assert(comps.len() == g.components@.len());
                            assert(cids@ =~= resolvable_components(comps.take(0), es));
                        }
                        while j < nc
                            invariant
                                j <= nc == g.components@.len(),
                                comps == components_view(g.components@),
                                es == entries_view(scene.entries@),
                                cids@ =~= resolvable_components(comps.take(j as int), es),
                            decreases nc - j,
                        {
                            proof {
                                assert(comps[j as int] == g.components@[j as int].component@);
                                assert(comps.take(j + 1 as int).drop_last() =~= comps.take(
                                    j as int,
                                ));
                                assert(comps.take(j + 1 as int).last() == comps[j as int]);
                            }
                            let cidj = g.components[j].component.file_id;
                            match scene.get(cidj) {
                                Some(_) => {
                                    cids.push(cidj);
                                },
                                None => {},
                            }
                            j = j + 1;
                        }
                        proof {
                            assert(comps.take(nc as int) =~= comps);
                        }
                        let ghost preve = ents@;
                        ents.push(
                            PlannedEntity {
                                object_id: scene.entries[i].0,
                                origin_id: cid,
                                name: g.name.clone(),
                                active: g.is_active(),
                                transform: clone_transform(t),
                                components: cids,
                                expansion: None,
                            },
                        );
                        proof {
                            let post = go_entities(es.take(i + 1 as int), es);
                            assert(post == pre.push(
                                GoEntV {
                                    object_id: es[i as int].0,
                                    origin_id: cid,
                                    name: es[i as int].1->GameObject_0.name,
                                    active: es[i as int].1->GameObject_0.active == 1,
                                    transform: t@,
                                    components: resolvable_components(
                                        es[i as int].1->GameObject_0.components,
                                        es,
                                    ),
                                },
                            ));
                            assert forall|k: int| 0 <= k < ents@.len() implies go_matches(
                                #[trigger] ents@[k],
                                post[k],
                            ) by {
                                if k < preve.len() {
                                    assert(ents@[k] == preve[k]);
                                    assert(post[k] == pre[k]);
                                } else {
                                    assert(ents@[k] == ents@.last());
                                }
                            }
                        }
                    },
                    None => {
                        let mut d: Vec<char> = Vec::new();
                        append_str(&mut d, "game object without a transform: ");
                        let nm = chars_of(g.name.as_str());
                        let nl = nm.len();
                        crate::chars::append_range(&mut d, &nm, 0, nl);
                        let ghost prevd = diags@;
                        proof {
                            assert(strs_view(prevd).len() == prevd.len());
                            assert(nm@.subrange(0, nm@.len() as int) =~= nm@);
                        }
                        diags.push(string_from_chars(&d));
                        proof {
                            assert(strs_view(diags@) =~= strs_view(prevd).push(
                                "game object without a transform: "@ + g.name@,
                            ));
                        }
                    },
                }
            },
            _ => {},
        }
        proof {
            assert(strs_view(diags@) =~= go_diags(es.take(i + 1 as int), es));
        }
        i = i + 1;
    }
    proof {
        assert(es.take(n as int) =~= es);
    }
    (ents, diags)
}

} // verus!

verus! {

/// The prefab pass, per [`pf_entities`] and [`pf_diags`].
fn plan_prefabs(
    scene: &UnityScene,
    prefabs: &Vec<(String, UnityScene)>,
    paths: &Vec<(String, String)>,
) -> (r: (Vec<PlannedEntity>, Vec<String>))
    ensures
        ({
            let es = entries_view(scene.entries@);
            let pfs = pf_entities(es);
            &&& r.0@.len() == pfs.len()
            &&& forall|k: int|
                0 <= k < pfs.len() ==> pf_matches(
                    #[trigger] r.0@[k],
                    pfs[k],
                    prefabs_view(prefabs@),
                    paths_view(paths@),
                )
            &&& strs_view(r.1@) == pf_diags(es)
        }),
{
    let ghost es = entries_view(scene.entries@);
    proof {
        assert(es.len() == scene.entries@.len());
    }
    let n = scene.entries.len();
    let mut ents: Vec<PlannedEntity> = Vec::new();
    let mut diags: Vec<String> = Vec::new();
    let mut i: usize = 0;
    proof {
        assert(pf_entities(es.take(0)) =~= Seq::<PfEntV>::empty());
        assert(strs_view(diags@) =~= pf_diags(es.take(0)));
    }
    while i < n
        invariant
            i <= n == scene.entries@.len(),
            es == entries_view(scene.entries@),
            ents@.len() == pf_entities(es.take(i as int)).len(),
            forall|k: int|
                0 <= k < ents@.len() ==> pf_matches(
                    #[trigger] ents@[k],
                    pf_entities(es.take(i as int))[k],
                    prefabs_view(prefabs@),
                    paths_view(paths@),
                ),
            strs_view(diags@) =~= pf_diags(es.take(i as int)),
        decreases n - i,
    {
        let ghost pre = pf_entities(es.take(i as int));
        proof {
            assert(es[i as int] == (scene.entries@[i as int].0, scene.entries@[i as int].1@));
            assert(es.take(i + 1 as int).drop_last() =~= es.take(i as int));
            assert(es.take(i + 1 as int).last() == es[i as int]);
        }
        match &scene.entries[i].1 {
            UnitySceneObject::PrefabInstance(p) => {
                let has_name = p.find_modification("m_Name");
                let has_pos = p.find_modification("m_LocalPosition.x");
                let derivable = has_name.is_some() && has_pos.is_some();
                if derivable {
                    let id = scene.entries[i].0;
                    let (local_id, name) = p.get_local_id_and_name(id);
                    let transform_id = p.get_transform_id(id);
                    let transform = p.get_transform_for_prefab();
                    let expansion = match &p.source.guid {
                        Some(g) => Some(
                            expand_prefab(id, g.as_str(), prefabs, paths, PREFAB_DEPTH),
                        ),
                        None => None,
                    };
                    let ghost preve = ents@;
                    ents.push(
                        PlannedEntity {
                            object_id: local_id,
                            origin_id: transform_id,
                            name,
                            active: true,
                            transform,
                            components: Vec::new(),
                            expansion,
                        },
                    );
                    proof {
                        let post = pf_entities(es.take(i + 1 as int));
                        assert(post == pre.push(
                            pf_ent_of(es[i as int].0, es[i as int].1->PrefabInstance_0),
                        ));
                        assert forall|k: int| 0 <= k < ents@.len() implies pf_matches(
                            #[trigger] ents@[k],
                            post[k],
                            prefabs_view(prefabs@),
                            paths_view(paths@),
                        ) by {
                            if k < preve.len() {
                                assert(ents@[k] == preve[k]);
                                assert(post[k] == pre[k]);
                            } else {
                                assert(ents@[k] == ents@.last());
                                assert(ents@[k].components@ =~= Seq::<i64>::empty());
                            }
                        }
                    }
                } else {
                    let ghost prevd = diags@;
                    proof {
                        assert(strs_view(prevd).len() == prevd.len());
                    }
                    diags.push(String::from_str("prefab instance without override targets"));
                    proof {
                        assert(strs_view(diags@) =~= strs_view(prevd).push(
                            "prefab instance without override targets"@,
                        ));
                    }
                }
            },
            _ => {},
        }
        proof {
            assert(strs_view(diags@) =~= pf_diags(es.take(i + 1 as int)));
        }
        i = i + 1;
    }
    proof {
        assert(es.take(n as int) =~= es);
    }
    (ents, diags)
}

} // verus!

verus! {

/// The global-id string external tooling keys entities by.
pub open spec fn global_id_str(guid: Seq<char>, id: i64) -> Seq<char> {
    "GlobalObjectId_V1-2-"@ + guid + "-"@ + i64_dec_str(id) + "-0"@
}

/// Builds the global-id string, per [`global_id_str`].
fn make_global_id(guid: &str, id: i64) -> (r: String)
    ensures
        r@ == global_id_str(guid@, id),
{
    let mut out: Vec<char> = Vec::new();
    append_str(&mut out, "GlobalObjectId_V1-2-");
    let g = chars_of(guid);
    let gl = g.len();
    crate::chars::append_range(&mut out, &g, 0, gl);
    proof {
        assert(g@.subrange(0, g@.len() as int) =~= g@);
    }
    append_str(&mut out, "-");
    let d = i64_to_chars(id);
    let dl = d.len();
    crate::chars::append_range(&mut out, &d, 0, dl);
    proof {
        assert(d@.subrange(0, d@.len() as int) =~= d@);
    }
    append_str(&mut out, "-0");
    string_from_chars(&out)
}

/// The first entity whose transform id is `id`.
pub open spec fn origin_find(ents: Seq<PlannedEntity>, id: i64) -> Option<int>
    decreases ents.len(),
{
    if ents.len() == 0 {
        None
    } else if ents[0].origin_id == id {
        Some(0)
    } else {
        match origin_find(ents.drop_first(), id) {
            Some(j) => Some(j + 1),
            None => None,
        }
    }
}

/// Child references resolved to entity indices; unresolvable ones are
/// dropped.
pub open spec fn child_indices(children: Seq<FileRefV>, ents: Seq<PlannedEntity>) -> Seq<int>
    decreases children.len(),
{
    if children.len() == 0 {
        Seq::empty()
    } else {
        let r = child_indices(children.drop_last(), ents);
        match origin_find(ents, children.last().file_id) {
            Some(j) => r.push(j),
            None => r,
        }
    }
}

proof fn lemma_origin_find_bounds(ents: Seq<PlannedEntity>, id: i64)
    ensures
        match origin_find(ents, id) {
            Some(j) => 0 <= j < ents.len() && ents[j].origin_id == id,
            None => true,
        },
    decreases ents.len(),
{
    if ents.len() > 0 && ents[0].origin_id != id {
        lemma_origin_find_bounds(ents.drop_first(), id);
    }
}

/// Scans for the first entity under a transform id, per [`origin_find`].
fn origin_find_exec(ents: &Vec<PlannedEntity>, id: i64) -> (r: Option<usize>)
    ensures
        match r {
            Some(j) => origin_find(ents@, id) == Some(j as int),
            None => origin_find(ents@, id) is None,
        },
{
    let n = ents.len();
    let mut i: usize = 0;
    while i < n
        invariant
            i <= n == ents@.len(),
            forall|k: int| 0 <= k < i ==> (#[trigger] ents@[k]).origin_id != id,
        decreases n - i,
    {
        if ents[i].origin_id == id {
            proof {
                lemma_origin_find_first(ents@, id, i as int);
            }
            return Some(i);
        }
        i = i + 1;
    }
    proof {
        lemma_origin_find_none(ents@, id);
    }
    None
}

/// When every entity misses, nothing is found.
proof fn lemma_origin_find_none(ents: Seq<PlannedEntity>, id: i64)
    requires
        forall|k: int| 0 <= k < ents.len() ==> (#[trigger] ents[k]).origin_id != id,
    ensures
        origin_find(ents, id) is None,
    decreases ents.len(),
{
    if ents.len() > 0 {
        assert(forall|k: int|
            0 <= k < ents.len() - 1 ==> (#[trigger] ents.drop_first()[k]).origin_id != id);
        lemma_origin_find_none(ents.drop_first(), id);
    }
}

/// When every entity before `i` misses and `i` hits, the find is `i`.
proof fn lemma_origin_find_first(ents: Seq<PlannedEntity>, id: i64, i: int)
    requires
        0 <= i < ents.len(),
        ents[i].origin_id == id,
        forall|k: int| 0 <= k < i ==> (#[trigger] ents[k]).origin_id != id,
    ensures
        origin_find(ents, id) == Some(i),
    decreases i,
{
    if i > 0 {
        assert(ents.drop_first()[i - 1] == ents[i]);
        assert(forall|k: int|
            0 <= k < i - 1 ==> (#[trigger] ents.drop_first()[k]).origin_id != id);
        lemma_origin_find_first(ents.drop_first(), id, i - 1);
    }
}

/// Assembles a decoded scene into a spawn plan: the game-object pass, the
/// prefab pass, the id maps in entity order, and one hierarchy attachment
/// per game-object entity.
#[verifier::rlimit(50)]
pub fn assemble_scene(
    scene: &UnityScene,
    prefabs: &Vec<(String, UnityScene)>,
    paths: &Vec<(String, String)>,
) -> (r: SpawnPlan)
    ensures
        ({
            let es = entries_view(scene.entries@);
            let gos = go_entities(es, es);
            let pfs = pf_entities(es);
            &&& r.entities@.len() == gos.len() + pfs.len()
            &&& forall|i: int| 0 <= i < gos.len() ==> go_matches(#[trigger] r.entities@[i], gos[i])
            &&& forall|k: int|
                0 <= k < pfs.len() ==> pf_matches(
                    #[trigger] r.entities@[gos.len() + k],
                    pfs[k],
                    prefabs_view(prefabs@),
                    paths_view(paths@),
                )
            &&& strs_view(r.diagnostics@) == go_diags(es, es) + pf_diags(es)
            &&& r.object_map@.len() == r.entities@.len()
            &&& forall|i: int|
                0 <= i < r.entities@.len() ==> (#[trigger] r.object_map@[i]).0 == r.entities@[i].object_id
                    && r.object_map@[i].1 == i
            &&& r.transform_map@.len() == r.entities@.len()
            &&& forall|i: int|
                0 <= i < r.entities@.len() ==> (#[trigger] r.transform_map@[i]).0
                    == r.entities@[i].origin_id && r.transform_map@[i].1 == i
            &&& r.guid_map@.len() == r.entities@.len()
            &&& forall|i: int|
                0 <= i < r.entities@.len() ==> (#[trigger] r.guid_map@[i]).0@ == global_id_str(
                    scene.guid@,
                    r.entities@[i].object_id,
                ) && r.guid_map@[i].1 == i
            &&& r.attachments@.len() == gos.len()
            &&& forall|i: int|
                0 <= i < gos.len() ==> (#[trigger] r.attachments@[i]).0 == i
                    && r.attachments@[i].1@.map_values(|x: usize| x as int) == child_indices(
                    crate::fields::refs_view(r.entities@[i].transform.children@),
                    r.entities@,
                )
        }),
{
    let (mut entities, mut diagnostics) = plan_game_objects(scene);
    let go_count = entities.len();
    let (mut pents, mut pdiags) = plan_prefabs(scene, prefabs, paths);
    let ghost gos_ents = entities@;
    let ghost pf_ents = pents@;
    entities.append(&mut pents);
    diagnostics.append(&mut pdiags);
    proof {
        let es = entries_view(scene.entries@);
        assert(strs_view(diagnostics@) =~= go_diags(es, es) + pf_diags(es));
        assert(forall|i: int|
            0 <= i < gos_ents.len() ==> #[trigger] entities@[i] == gos_ents[i]);
        assert(forall|k: int|
            0 <= k < pf_ents.len() ==> #[trigger] entities@[gos_ents.len() + k] == pf_ents[k]);
    }
    let total = entities.len();
    let mut object_map: Vec<(i64, usize)> = Vec::new();
    let mut transform_map: Vec<(i64, usize)> = Vec::new();
    let mut guid_map: Vec<(String, usize)> = Vec::new();
    let mut i: usize = 0;
    while i < total
        invariant
            i <= total == entities@.len(),
            object_map@.len() == i,
            transform_map@.len() == i,
            guid_map@.len() == i,
            forall|k: int|
                0 <= k < i ==> (#[trigger] object_map@[k]).0 == entities@[k].object_id
                    && object_map@[k].1 == k,
            forall|k: int|
                0 <= k < i ==> (#[trigger] transform_map@[k]).0 == entities@[k].origin_id
                    && transform_map@[k].1 == k,
            forall|k: int|
                0 <= k < i ==> (#[trigger] guid_map@[k]).0@ == global_id_str(
                    scene.guid@,
                    entities@[k].object_id,
                ) && guid_map@[k].1 == k,
        decreases total - i,
    {
        let e = &entities[i];
        object_map.push((e.object_id, i));
        transform_map.push((e.origin_id, i));
        guid_map.push((make_global_id(scene.guid.as_str(), e.object_id), i));
        i = i + 1;
    }
    let mut attachments: Vec<(usize, Vec<usize>)> = Vec::new();
    let mut gi: usize = 0;
    while gi < go_count
        invariant
            gi <= go_count <= entities@.len(),
            attachments@.len() == gi,
            forall|k: int|
                0 <= k < gi ==> (#[trigger] attachments@[k]).0 == k
                    && attachments@[k].1@.map_values(|x: usize| x as int) == child_indices(
                    crate::fields::refs_view(entities@[k].transform.children@),
                    entities@,
                ),
        decreases go_count - gi,
    {
        let ghost crefs = crate::fields::refs_view(entities@[gi as int].transform.children@);
        let mut kids: Vec<usize> = Vec::new();
        let nc = entities[gi].transform.children.len();
        let mut j: usize = 0;
        proof {
            assert(crefs.len() == entities@[gi as int].transform.children@.len());
            assert(kids@.map_values(|x: usize| x as int) =~= child_indices(crefs.take(0),
                entities@));
        }
        while j < nc
            invariant
                gi < entities@.len(),
                j <= nc == entities@[gi as int].transform.children@.len(),
                crefs == crate::fields::refs_view(entities@[gi as int].transform.children@),
                kids@.map_values(|x: usize| x as int) =~= child_indices(
                    crefs.take(j as int),
                    entities@,
                ),
            decreases nc - j,
        {
            proof {
                assert(crefs[j as int] == entities@[gi as int].transform.children@[j as int]@);
                assert(crefs.take(j + 1 as int).drop_last() =~= crefs.take(j as int));
                assert(crefs.take(j + 1 as int).last() == crefs[j as int]);
            }
            let cid = entities[gi].transform.children[j].file_id;
            match origin_find_exec(&entities, cid) {
                Some(ix) => {
                    let ghost prevk = kids@;
                    kids.push(ix);
                    proof {
                        assert(kids@.map_values(|x: usize| x as int) =~= prevk.map_values(
                            |x: usize| x as int,
                        ).push(ix as int));
                    }
                },
                None => {},
            }
            j = j + 1;
        }
        proof {
            assert(crefs.take(nc as int) =~= crefs);
        }
        attachments.push((gi, kids));
        gi = gi + 1;
    }
    SpawnPlan { entities, object_map, guid_map, transform_map, attachments, diagnostics }
}

} // verus!

verus! {

/// A game object without a resolvable transform yields no entity and one
/// diagnostic, without touching the rest of the assembly: the pass plans
/// exactly the entities it plans for the scene with that record removed.
pub proof fn lemma_skipped_gameobject_is_local(
    es: Seq<(i64, SceneObjectV)>,
    full: Seq<(i64, SceneObjectV)>,
    i: int,
)
    requires
        0 <= i < es.len(),
        es[i].1 is GameObject,
        get_transform_spec(es[i].1->GameObject_0.components, full) is None,
    ensures
        go_entities(es, full) == go_entities(es.remove(i), full),
        go_diags(es, full).len() == go_diags(es.remove(i), full).len() + 1,
    decreases es.len(),
{
    if i == es.len() - 1 {
        assert(es.remove(i) =~= es.drop_last());
    } else {
        assert(es.remove(i).drop_last() =~= es.drop_last().remove(i));
        assert(es.remove(i).last() == es.last());
        lemma_skipped_gameobject_is_local(es.drop_last(), full, i);
    }
}

} // verus!

verus! {

/// One scheduling-tick step for an entity whose interchange asset is
/// pending: once the host reports the subtree populated, the one-time
/// axis-convention correction is applied and the marker clears; until
/// then the entity stays pending.  After the marker clears it never
/// reapplies, so the correction is idempotent across ticks.
pub fn pending_asset_step(pending: bool, subtree_populated: bool) -> (r: (bool, bool))
    ensures
        r.0 == (pending && subtree_populated),
        r.1 == (pending && !subtree_populated),
{
    (pending && subtree_populated, pending && !subtree_populated)
}

/// Whether the active-scene selector calls for a full respawn: a scene is
/// selected and it is not the one already loaded.  Live edits never come
/// through here; they mutate spawned entities directly.
pub fn scene_selection_changed(current: &Option<String>, loaded: &Option<String>) -> (r: bool)
    ensures
        r == (match (current, loaded) {
            (Some(c), Some(l)) => c@ != l@,
            (Some(c), None) => true,
            (None, _) => false,
        }),
{
    match (current, loaded) {
        (Some(c), Some(l)) => !crate::chars::str_eq(c.as_str(), l.as_str()),
        (Some(_), None) => true,
        (None, _) => false,
    }
}

} // verus!
