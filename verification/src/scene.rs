//! Scenes: a document identity plus the decoded records, and the parse
//! pipeline from raw dialect text to a scene.

use vstd::prelude::*;

use crate::chars::chars_of;
use crate::objects::{decode_record, record_spec, SceneObjectV, UnitySceneObject};
use crate::record::{
    fields_view, group_records, grouped_ok, is_blank, record_starts, span_ok, tokenize_line,
    tokenize_spec, FieldV, RawField,
};
use crate::render::UnityRenderSettings;
use crate::scalar::parse_i64_spec;
use crate::yaml::{cleanup_spec, cleanup_unity_yaml, doc_lines, views};

verus! {

/// A structurally invalid known-typed record, or a document that is not
/// shaped as an id-keyed mapping.  One such record fails the whole
/// document: identity derivation needs every id decoded.
#[derive(Clone, Copy, Debug, PartialEq, Eq, Structural)]
pub struct DecodeError;

/// A decoded scene: the document's GUID and the decoded records in
/// document order, ids unique.
pub struct UnityScene {
    pub guid: String,
    pub entries: Vec<(i64, UnitySceneObject)>,
}

pub open spec fn entries_view(es: Seq<(i64, UnitySceneObject)>) -> Seq<(i64, SceneObjectV)> {
    es.map_values(|e: (i64, UnitySceneObject)| (e.0, e.1@))
}

/// The tokenized non-blank lines.
pub open spec fn tok_fields(ls: Seq<Seq<char>>) -> Seq<FieldV>
    decreases ls.len(),
{
    if ls.len() == 0 {
        Seq::empty()
    } else {
        tok_fields(ls.drop_last()) + if is_blank(ls.last()) {
            Seq::empty()
        } else {
            seq![tokenize_spec(ls.last())]
        }
    }
}

/// The tokenized lines of a whole normalized document.
pub open spec fn doc_fields(s: Seq<char>) -> Seq<FieldV> {
    tok_fields(doc_lines(s))
}

/// The id of the `k`-th record.
pub open spec fn rec_id(fs: Seq<FieldV>, starts: Seq<int>, k: int) -> i64 {
    parse_i64_spec(fs[starts[k]].key).unwrap()
}

/// The decoded body of the `k`-th record.
pub open spec fn record_of(fs: Seq<FieldV>, starts: Seq<int>, k: int) -> Option<SceneObjectV> {
    let en = if k + 1 < starts.len() {
        starts[k + 1]
    } else {
        fs.len() as int
    };
    record_spec(fs, starts[k] + 1, en)
}

/// Record ids are pairwise distinct.
pub open spec fn ids_unique(fs: Seq<FieldV>, starts: Seq<int>) -> bool {
    forall|k1: int, k2: int|
        0 <= k1 < k2 < starts.len() ==> rec_id(fs, starts, k1) != rec_id(fs, starts, k2)
}

/// What a normalized document decodes to: its records in order, each
/// under its id.  It fails when the document is not an id-keyed mapping,
/// holds no record at all, repeats an id, or holds a known-typed record
/// with a structurally wrong field.
pub open spec fn scene_entries_spec(s: Seq<char>) -> Option<Seq<(i64, SceneObjectV)>> {
    let fs = doc_fields(s);
    let starts = record_starts(fs);
    if grouped_ok(fs) && starts.len() > 0 && ids_unique(fs, starts) && (forall|k: int|
        0 <= k < starts.len() ==> record_of(fs, starts, k) is Some) {
        Some(
            Seq::new(
                starts.len() as nat,
                |k: int| (rec_id(fs, starts, k), record_of(fs, starts, k).unwrap()),
            ),
        )
    } else {
        None
    }
}

/// Whether a line is blank, per [`is_blank`].
fn is_blank_exec(l: &Vec<char>) -> (b: bool)
    ensures
        b == is_blank(l@),
{
    let n = l.len();
    let mut i: usize = 0;
    while i < n
        invariant
            i <= n == l@.len(),
            crate::record::find_nonspace(l@, 0) == crate::record::find_nonspace(l@, i as int),
        decreases n - i,
    {
        if l[i] != ' ' {
            return false;
        }
        i = i + 1;
    }
    true
}

/// Tokenizes the non-blank lines, per [`tok_fields`].
pub fn tokenize_lines_pub(lines: Vec<Vec<char>>) -> (r: Vec<RawField>)
    ensures
        fields_view(r@) == tok_fields(views(lines@)),
{
    let ghost lsv = views(lines@);
    proof {
        assert(lsv.len() == lines@.len());
    }
    let n = lines.len();
    let mut lines = lines;
    let mut fields: Vec<RawField> = Vec::new();
    let mut i: usize = 0;
    proof {
        assert(fields_view(fields@) =~= tok_fields(lsv.take(0)));
    }
    while i < n
        invariant
            i <= n == lsv.len(),
            lines@.len() == n - i,
            forall|k: int| 0 <= k < n - i ==> (#[trigger] lines@[k])@ == lsv[i + k],
            fields_view(fields@) =~= tok_fields(lsv.take(i as int)),
        decreases n - i,
    {
        proof {
            assert(lines@[0]@ == lsv[i as int]);
            assert(lsv.take(i + 1 as int).drop_last() =~= lsv.take(i as int));
            assert(lsv.take(i + 1 as int).last() == lsv[i as int]);
        }
        let l = lines.remove(0);
        if is_blank_exec(&l) {
            proof {
                assert(fields_view(fields@) =~= tok_fields(lsv.take(i + 1 as int)));
            }
        } else {
            let ghost prev = fields@;
            proof {
                assert(fields_view(prev).len() == prev.len());
            }
            let f = tokenize_line(l);
            fields.push(f);
            proof {
                assert(fields_view(fields@) =~= fields_view(prev).push(
                    tokenize_spec(lsv[i as int]),
                ));
                assert(fields_view(fields@) =~= tok_fields(lsv.take(i + 1 as int)));
            }
        }
        i = i + 1;
    }
    proof {
        assert(lsv.take(n as int) =~= lsv);
    }
    fields
}

/// Parses a raw dialect document: normalizes it, then decodes the
/// records, per [`scene_entries_spec`] over the normalized text.
#[verifier::rlimit(100)]
pub fn parse_unity_yaml(file: &str) -> (r: Result<Vec<(i64, UnitySceneObject)>, DecodeError>)
    ensures
        match r {
            Ok(es) => scene_entries_spec(cleanup_spec(file@)) == Some(entries_view(es@)),
            Err(_) => scene_entries_spec(cleanup_spec(file@)) is None,
        },
{
    let cleaned = cleanup_unity_yaml(file);
    let v = chars_of(cleaned.as_str());
    let lines = crate::yaml::split_into_lines(&v);
    let fields = tokenize_lines_pub(lines);
    let ghost fs = fields_view(fields@);
    proof {
        assert(fs == doc_fields(cleanup_spec(file@)));
        assert(fs.len() == fields@.len());
    }
    let spans = match group_records(&fields) {
        Some(spans) => spans,
        None => {
            return Err(DecodeError);
        },
    };
    let ghost starts = record_starts(fs);
    let nrec = spans.len();
    if nrec == 0 {
        return Err(DecodeError);
    }
    // every id distinct
    let mut k1: usize = 0;
    while k1 < nrec
        invariant
            k1 <= nrec == spans@.len(),
            fs == fields_view(fields@),
            fs == doc_fields(cleanup_spec(file@)),
            starts == record_starts(fs),
            spans@.len() == starts.len(),
            forall|k: int| 0 <= k < starts.len() ==> span_ok(fs, starts, k, #[trigger] spans@[k]),
            forall|a: int, b: int|
                0 <= a < b < starts.len() && a < k1 ==> rec_id(fs, starts, a) != rec_id(
                    fs,
                    starts,
                    b,
                ),
        decreases nrec - k1,
    {
        let mut k2: usize = k1 + 1;
        while k2 < nrec
            invariant
                k1 < k2 <= nrec == spans@.len(),
                fs == fields_view(fields@),
                fs == doc_fields(cleanup_spec(file@)),
                starts == record_starts(fs),
                spans@.len() == starts.len(),
                forall|k: int|
                    0 <= k < starts.len() ==> span_ok(fs, starts, k, #[trigger] spans@[k]),
                forall|b: int|
                    k1 < b < k2 ==> rec_id(fs, starts, k1 as int) != rec_id(fs, starts, b),
            decreases nrec - k2,
        {
            if spans[k1].id == spans[k2].id {
                proof {
                    assert(Some(spans@[k1 as int].id) == parse_i64_spec(
                        fs[starts[k1 as int]].key,
                    ));
                    assert(Some(spans@[k2 as int].id) == parse_i64_spec(
                        fs[starts[k2 as int]].key,
                    ));
                    assert(rec_id(fs, starts, k1 as int) == rec_id(fs, starts, k2 as int));
                    assert(!ids_unique(fs, starts));
                }
                return Err(DecodeError);
            }
            proof {
                assert(Some(spans@[k1 as int].id) == parse_i64_spec(fs[starts[k1 as int]].key));
                assert(Some(spans@[k2 as int].id) == parse_i64_spec(fs[starts[k2 as int]].key));
            }
            k2 = k2 + 1;
        }
        k1 = k1 + 1;
    }
    proof {
        assert(ids_unique(fs, starts));
    }
    // decode every record
    let mut entries: Vec<(i64, UnitySceneObject)> = Vec::new();
    let mut k: usize = 0;
    while k < nrec
        invariant
            k <= nrec == spans@.len(),
            fs == fields_view(fields@),
            fs == doc_fields(cleanup_spec(file@)),
            fs.len() == fields@.len(),
            starts == record_starts(fs),
            spans@.len() == starts.len(),
            forall|j: int| 0 <= j < starts.len() ==> span_ok(fs, starts, j, #[trigger] spans@[j]),
            entries@.len() == k,
            forall|j: int|
                0 <= j < k ==> record_of(fs, starts, j) is Some,
            forall|j: int|
                0 <= j < k ==> (#[trigger] entries_view(entries@)[j]) == (
                rec_id(fs, starts, j),
                record_of(fs, starts, j).unwrap(),
            ),
        decreases nrec - k,
    {
        let sp = &spans[k];
        proof {
            crate::record::lemma_record_starts_bounds_pub(fs, k as int);
            if k as int + 1 < starts.len() {
                crate::record::lemma_record_starts_bounds_pub(fs, k as int + 1);
            }
            assert(span_ok(fs, starts, k as int, spans@[k as int]));
        }
        let o = match decode_record(&fields, sp.start + 1, sp.end) {
            Some(o) => o,
            None => {
                proof {
                    assert(record_of(fs, starts, k as int) is None);
                }
                return Err(DecodeError);
            },
        };
        let ghost prev = entries@;
        entries.push((sp.id, o));
        proof {
            assert(entries_view(entries@).len() == k + 1);
            assert forall|j: int| 0 <= j < k + 1 implies (#[trigger] entries_view(entries@)[j])
                == (rec_id(fs, starts, j), record_of(fs, starts, j).unwrap()) by {
                if j < k {
                    assert(entries@[j] == prev[j]);
                    assert(entries_view(prev)[j] == (
                        rec_id(fs, starts, j),
                        record_of(fs, starts, j).unwrap(),
                    ));
                } else {
                    assert(entries@[j] == (sp.id, o));
                }
            }
        }
        k = k + 1;
    }
    proof {
        let expected = Seq::new(
            starts.len() as nat,
            |j: int| (rec_id(fs, starts, j), record_of(fs, starts, j).unwrap()),
        );
        assert(entries_view(entries@) =~= expected);
    }
    Ok(entries)
}

/// Parses a scene document under its GUID.
pub fn parse_scene(guid: &str, scene: &str) -> (r: Result<UnityScene, DecodeError>)
    ensures
        match r {
            Ok(sc) => {
                &&& sc.guid@ == guid@
                &&& scene_entries_spec(cleanup_spec(scene@)) == Some(entries_view(sc.entries@))
            },
            Err(_) => scene_entries_spec(cleanup_spec(scene@)) is None,
        },
{
    match parse_unity_yaml(scene) {
        Ok(entries) => Ok(UnityScene { guid: String::from_str(guid), entries }),
        Err(e) => Err(e),
    }
}

/// The first render-settings record of a scene.
pub open spec fn first_rendersettings(es: Seq<(i64, SceneObjectV)>) -> Option<
    crate::render::RenderSettingsV,
>
    decreases es.len(),
{
    if es.len() == 0 {
        None
    } else {
        match es[0].1 {
            SceneObjectV::RenderSettings(r) => Some(r),
            _ => first_rendersettings(es.drop_first()),
        }
    }
}

impl UnityScene {
    /// The scene's render settings: the first render-settings record, in
    /// document order.
    pub fn get_render_settings(&self) -> (r: Option<&UnityRenderSettings>)
        ensures
            match r {
                Some(rs) => first_rendersettings(entries_view(self.entries@)) == Some(rs@),
                None => first_rendersettings(entries_view(self.entries@)) is None,
            },
    {
        let ghost es = entries_view(self.entries@);
        proof {
            assert(es.len() == self.entries@.len());
            assert(es.skip(0) =~= es);
        }
        let n = self.entries.len();
        let mut i: usize = 0;
        while i < n
            invariant
                i <= n == self.entries@.len(),
                es == entries_view(self.entries@),
                first_rendersettings(es) == first_rendersettings(es.skip(i as int)),
            decreases n - i,
        {
            proof {
                assert(es[i as int] == (self.entries@[i as int].0, self.entries@[i as int].1@));
                assert(es.skip(i as int)[0] == es[i as int]);
                assert(es.skip(i as int).drop_first() =~= es.skip(i + 1 as int));
            }
            match &self.entries[i].1 {
                UnitySceneObject::RenderSettings(r) => {
                    return Some(r);
                },
                _ => {},
            }
            i = i + 1;
        }
        proof {
            assert(es.skip(n as int) =~= Seq::<(i64, SceneObjectV)>::empty());
        }
        None
    }
}

} // verus!

verus! {

use crate::gameobject::UnityGameObject;
use crate::reference::FileRefV;
use crate::transform::{TransformV, UnityTransform};

/// The first record under `id`, in document order.  Decoded scenes hold
/// each id once, so the first match is the only one.
pub open spec fn scene_get(es: Seq<(i64, SceneObjectV)>, id: i64) -> Option<SceneObjectV>
    decreases es.len(),
{
    if es.len() == 0 {
        None
    } else if es[0].0 == id {
        Some(es[0].1)
    } else {
        scene_get(es.drop_first(), id)
    }
}

impl UnityScene {
    /// Looks a record up by id, per [`scene_get`].
    pub fn get(&self, id: i64) -> (r: Option<&UnitySceneObject>)
        ensures
            match r {
                Some(o) => scene_get(entries_view(self.entries@), id) == Some(o@),
                None => scene_get(entries_view(self.entries@), id) is None,
            },
    {
        let ghost es = entries_view(self.entries@);
        proof {
            assert(es.len() == self.entries@.len());
            assert(es.skip(0) =~= es);
        }
        let n = self.entries.len();
        let mut i: usize = 0;
        while i < n
            invariant
                i <= n == self.entries@.len(),
                es == entries_view(self.entries@),
                scene_get(es, id) == scene_get(es.skip(i as int), id),
            decreases n - i,
        {
            proof {
                assert(es[i as int] == (self.entries@[i as int].0, self.entries@[i as int].1@));
                assert(es.skip(i as int)[0] == es[i as int]);
                assert(es.skip(i as int).drop_first() =~= es.skip(i + 1 as int));
            }
            if self.entries[i].0 == id {
                return Some(&self.entries[i].1);
            }
            i = i + 1;
        }
        proof {
            assert(es.skip(n as int) =~= Seq::<(i64, SceneObjectV)>::empty());
        }
        None
    }
}

/// The first component reference that resolves to a transform record:
/// its id and the transform.  References that resolve to nothing, or to
/// another kind, are passed over.
pub open spec fn get_transform_spec(comps: Seq<FileRefV>, es: Seq<(i64, SceneObjectV)>) -> Option<
    (i64, TransformV),
>
    decreases comps.len(),
{
    if comps.len() == 0 {
        None
    } else {
        match scene_get(es, comps[0].file_id) {
            Some(SceneObjectV::Transform(t)) => Some((comps[0].file_id, t)),
            _ => get_transform_spec(comps.drop_first(), es),
        }
    }
}

/// Locates a game object's transform among its component references,
/// first match wins, per [`get_transform_spec`].
pub fn get_transform<'a>(game_object: &UnityGameObject, scene: &'a UnityScene) -> (r: Option<
    (i64, &'a UnityTransform),
>)
    ensures
        ({
            let sr = get_transform_spec(
                crate::gameobject::components_view(game_object.components@),
                entries_view(scene.entries@),
            );
            match r {
                Some((cid, t)) => sr == Some((cid, t@)),
                None => sr is None,
            }
        }),
{
    let ghost comps = crate::gameobject::components_view(game_object.components@);
    let ghost es = entries_view(scene.entries@);
    proof {
        assert(comps.len() == game_object.components@.len());
        assert(comps.skip(0) =~= comps);
    }
    let n = game_object.components.len();
    let mut i: usize = 0;
    while i < n
        invariant
            i <= n == game_object.components@.len(),
            comps == crate::gameobject::components_view(game_object.components@),
            es == entries_view(scene.entries@),
            get_transform_spec(comps, es) == get_transform_spec(comps.skip(i as int), es),
        decreases n - i,
    {
        proof {
            assert(comps[i as int] == game_object.components@[i as int].component@);
            assert(comps.skip(i as int)[0] == comps[i as int]);
            assert(comps.skip(i as int).drop_first() =~= comps.skip(i + 1 as int));
        }
        let cid = game_object.components[i].component.file_id;
        match scene.get(cid) {
            Some(o) => {
                match o {
                    UnitySceneObject::Transform(t) => {
                        return Some((cid, t));
                    },
                    _ => {},
                }
            },
            None => {},
        }
        i = i + 1;
    }
    proof {
        assert(comps.skip(n as int) =~= Seq::<FileRefV>::empty());
    }
    None
}

} // verus!

verus! {

/// A decoded scene holds each object id once: parsing enforces the
/// key-uniqueness invariant.
pub proof fn lemma_scene_ids_unique(s: Seq<char>)
    requires
        scene_entries_spec(s) is Some,
    ensures
        ({
            let es = scene_entries_spec(s).unwrap();
            forall|k1: int, k2: int| 0 <= k1 < k2 < es.len() ==> es[k1].0 != es[k2].0
        }),
{
    let fs = doc_fields(s);
    let starts = record_starts(fs);
    let es = scene_entries_spec(s).unwrap();
    assert forall|k1: int, k2: int| 0 <= k1 < k2 < es.len() implies es[k1].0 != es[k2].0 by {
        assert(es[k1].0 == rec_id(fs, starts, k1));
        assert(es[k2].0 == rec_id(fs, starts, k2));
    }
}

} // verus!
