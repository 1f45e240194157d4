//! The live sync channel and the change tracker.
//!
//! One bidirectional text stream multiplexes framed lines
//! `EDITOR_CHANGE|<kind>|<payload>`.  Inbound, a kind-0 line carries a
//! change batch applied to spawned entities; a malformed line or an
//! unknown id drops only itself.  Outbound, the tracker buffers one
//! change per origin id per tick (last write wins), acknowledged inbound
//! writes go out as a kind-1 batch, and all buffers clear at tick end.

use vstd::prelude::*;

use crate::chars::{append_range, append_str, chars_of, string_from_chars};
use crate::record::find_nonspace;
use crate::scalar::{i64_dec_str, i64_to_chars, parse_i64_spec, parse_i64_chars};

verus! {

/// One entry of an inbound or outbound change batch: an object id and the
/// serialized component payload.
pub struct ChangeObject {
    pub object_id: i64,
    pub serialized: String,
}

pub open spec fn changes_view(es: Seq<ChangeObject>) -> Seq<(i64, Seq<char>)> {
    es.map_values(|e: ChangeObject| (e.object_id, e.serialized@))
}

// ---------------------------------------------------------------------------
// Frame parsing.
// ---------------------------------------------------------------------------
/// `s` split at every `|`; always at least one piece.
pub open spec fn split_bar(s: Seq<char>) -> Seq<Seq<char>>
    decreases s.len(),
{
    if s.len() == 0 {
        seq![Seq::<char>::empty()]
    } else {
        let parts = split_bar(s.drop_last());
        if s.last() == '|' {
            parts.push(Seq::<char>::empty())
        } else {
            parts.drop_last().push(parts.last().push(s.last()))
        }
    }
}

/// Whether `sub` occurs inside `s` at position `i` or later.
pub open spec fn contains_at(s: Seq<char>, sub: Seq<char>, i: int) -> bool
    decreases s.len() - i when 0 <= i <= s.len()
{
    if sub.len() == 0 {
        true
    } else if i + sub.len() > s.len() {
        false
    } else if s.subrange(i, i + sub.len()) == sub {
        true
    } else {
        contains_at(s, sub, i + 1)
    }
}

/// How a framed line reads: the piece before the first `|` must carry the
/// frame marker, the second piece is the kind, the third the payload.  A
/// line with fewer pieces, or whose kind is no 32-bit integer, is
/// discarded.
pub open spec fn frame_spec(l: Seq<char>) -> Option<(i32, Seq<char>)> {
    let parts = split_bar(l);
    if !contains_at(parts[0], "EDITOR_CHANGE"@, 0) {
        None
    } else if parts.len() < 3 {
        None
    } else {
        match parse_i64_spec(parts[1]) {
            Some(k) => if i32::MIN <= k <= i32::MAX {
                Some((k as i32, parts[2]))
            } else {
                None
            },
            None => None,
        }
    }
}

/// Cuts a line at every `|`, per [`split_bar`].
fn split_bar_exec(v: &Vec<char>) -> (r: Vec<Vec<char>>)
    ensures
        crate::yaml::views(r@) == split_bar(v@),
        r@.len() >= 1,
{
    let n = v.len();
    let mut done: Vec<Vec<char>> = Vec::new();
    let mut cur: Vec<char> = Vec::new();
    let mut j: usize = 0;
    while j < n
        invariant
            j <= n == v@.len(),
            crate::yaml::views(done@).push(cur@) =~= split_bar(v@.take(j as int)),
        decreases n - j,
    {
        let ghost parts = split_bar(v@.take(j as int));
        proof {
            assert(v@.take(j + 1 as int).drop_last() =~= v@.take(j as int));
        }
        let c = v[j];
        if c == '|' {
            let ghost prev = done@;
            done.push(cur);
            cur = Vec::new();
            proof {
                assert(crate::yaml::views(done@) =~= crate::yaml::views(prev).push(
                    parts.last(),
                ));
                assert(crate::yaml::views(done@).push(cur@) =~= split_bar(
                    v@.take(j + 1 as int),
                ));
            }
        } else {
            cur.push(c);
            proof {
                let parts2 = split_bar(v@.take(j + 1 as int));
                assert(parts2 == parts.drop_last().push(parts.last().push(c)));
                assert(crate::yaml::views(done@).push(cur@) =~= parts2);
            }
        }
        j = j + 1;
    }
    proof {
        assert(v@.take(n as int) =~= v@);
    }
    done.push(cur);
    done
}

/// Scans for an occurrence of `sub`, per [`contains_at`].
fn contains_exec(v: &Vec<char>, sub: &str) -> (b: bool)
    ensures
        b == contains_at(v@, sub@, 0),
{
    let n = v.len();
    let m = sub.unicode_len();
    if m == 0 {
        return true;
    }
    if m > n {
        return false;
    }
    let bound = n - m;
    let mut i: usize = 0;
    while i <= bound
        invariant
            i <= bound + 1,
            bound == n - m,
            1 <= m <= n == v@.len(),
            m == sub@.len(),
            contains_at(v@, sub@, 0) == contains_at(v@, sub@, i as int),
        decreases bound + 1 - i,
    {
        if crate::chars::range_eq_str(v, i, i + m, sub) {
            return true;
        }
        i = i + 1;
    }
    false
}

/// Parses one framed line, per [`frame_spec`]: the kind and the payload,
/// or nothing for a line that is not a well-formed frame.
pub fn parse_editor_line(line: &str) -> (r: Option<(i32, String)>)
    ensures
        match r {
            Some((k, p)) => frame_spec(line@) == Some((k, p@)),
            None => frame_spec(line@) is None,
        },
{
    let v = chars_of(line);
    let parts = split_bar_exec(&v);
    let ghost pv = crate::yaml::views(parts@);
    proof {
        assert(pv.len() == parts@.len());
        assert(pv[0] == parts@[0]@);
    }
    if !contains_exec(&parts[0], "EDITOR_CHANGE") {
        return None;
    }
    if parts.len() < 3 {
        return None;
    }
    proof {
        assert(pv[1] == parts@[1]@);
        assert(pv[2] == parts@[2]@);
        assert(parts@[1]@.subrange(0, parts@[1]@.len() as int) =~= parts@[1]@);
    }
    let kind = match parse_i64_chars(&parts[1], 0, parts[1].len()) {
        Some(k) => k,
        None => {
            return None;
        },
    };
    if kind < i32::MIN as i64 || kind > i32::MAX as i64 {
        return None;
    }
    Some((kind as i32, string_from_chars(&parts[2])))
}

} // verus!

verus! {

// ---------------------------------------------------------------------------
// Inbound change batches.
// ---------------------------------------------------------------------------
/// What a kind-0 payload parses to: the entries of a JSON array of
/// `{object_id, serialized}` objects.  The result depends on the text
/// alone; nothing more is assumed of it.
pub uninterp spec fn change_entries_of(s: Seq<char>) -> Option<Seq<(i64, Seq<char>)>>;

/// The key of a one-entry JSON object, selecting the serialized variant.
/// The result depends on the text alone.
pub uninterp spec fn json_object_key_of(s: Seq<char>) -> Option<Seq<char>>;

/// Relies on `serde_json::from_str` and the `Value` accessors
/// `as_array`, `get`, `as_i64` and `as_str`: parses a JSON array of
/// objects carrying an integer `object_id` and a string `serialized`.
#[verifier::external_body]
pub fn parse_change_entries(s: &str) -> (r: Option<Vec<ChangeObject>>)
    ensures
        match r {
            Some(es) => change_entries_of(s@) == Some(changes_view(es@)),
            None => change_entries_of(s@) is None,
        },
{
    let v: serde_json::Value = match serde_json::from_str(s) {
        Ok(v) => v,
        Err(_) => return None,
    };
    let arr = v.as_array()?;
    let mut out = Vec::new();
    for e in arr {
        let id = e.get("object_id")?.as_i64()?;
        let ser = e.get("serialized")?.as_str()?;
        out.push(ChangeObject { object_id: id, serialized: ser.to_string() });
    }
    Some(out)
}

/// Relies on `serde_json::from_str` and `Value::as_object`: the key of a
/// JSON object with exactly one entry.
#[verifier::external_body]
pub fn json_object_key(s: &str) -> (r: Option<String>)
    ensures
        match r {
            Some(k) => json_object_key_of(s@) == Some(k@),
            None => json_object_key_of(s@) is None,
        },
{
    let v: serde_json::Value = match serde_json::from_str(s) {
        Ok(v) => v,
        Err(_) => return None,
    };
    let obj = v.as_object()?;
    if obj.len() == 1 {
        obj.keys().next().cloned()
    } else {
        None
    }
}

/// One decided inbound update, for the host to perform.
pub enum InboundAction {
    /// Replace the entity's transform from the serialized payload.
    UpdateTransform { entity: usize, serialized: String },
    /// Hand the serialized payload to the entity's behavior.
    UpdateBehavior { entity: usize, serialized: String },
}

/// Specification image of an [`InboundAction`].
pub enum ActionV {
    UpdateTransform(int, Seq<char>),
    UpdateBehavior(int, Seq<char>),
}

impl View for InboundAction {
    type V = ActionV;

    open spec fn view(&self) -> ActionV {
        match self {
            InboundAction::UpdateTransform { entity, serialized } => ActionV::UpdateTransform(
                *entity as int,
                serialized@,
            ),
            InboundAction::UpdateBehavior { entity, serialized } => ActionV::UpdateBehavior(
                *entity as int,
                serialized@,
            ),
        }
    }
}

pub open spec fn actions_view(a: Seq<InboundAction>) -> Seq<ActionV> {
    a.map_values(|x: InboundAction| x@)
}

/// First-match lookup in an id-to-entity map.
pub open spec fn map_find(m: Seq<(i64, usize)>, id: i64) -> Option<usize>
    decreases m.len(),
{
    if m.len() == 0 {
        None
    } else if m[0].0 == id {
        Some(m[0].1)
    } else {
        map_find(m.drop_first(), id)
    }
}

/// The actions a change batch decides: per entry, nothing for an unknown
/// id or an unreadable payload; a transform or behavior update for a
/// recognized variant; nothing for any other variant.
pub open spec fn batch_actions(entries: Seq<(i64, Seq<char>)>, m: Seq<(i64, usize)>) -> Seq<
    ActionV,
>
    decreases entries.len(),
{
    if entries.len() == 0 {
        Seq::empty()
    } else {
        let r = batch_actions(entries.drop_last(), m);
        let e = entries.last();
        match map_find(m, e.0) {
            None => r,
            Some(ent) => match json_object_key_of(e.1) {
                Some(k) => if k == "Transform"@ {
                    r.push(ActionV::UpdateTransform(ent as int, e.1))
                } else if k == "MonoBehaviour"@ {
                    r.push(ActionV::UpdateBehavior(ent as int, e.1))
                } else {
                    r
                },
                None => r,
            },
        }
    }
}

/// The diagnostics a change batch produces: one line per unknown id and
/// per unreadable payload.
pub open spec fn batch_diags(entries: Seq<(i64, Seq<char>)>, m: Seq<(i64, usize)>) -> Seq<
    Seq<char>,
>
    decreases entries.len(),
{
    if entries.len() == 0 {
        Seq::empty()
    } else {
        let r = batch_diags(entries.drop_last(), m);
        let e = entries.last();
        match map_find(m, e.0) {
            None => r.push("got an unknown object_id: "@ + i64_dec_str(e.0)),
            Some(_) => match json_object_key_of(e.1) {
                Some(_) => r,
                None => r.push("failed to parse change object: "@ + e.1),
            },
        }
    }
}

/// Looks an object id up, per [`map_find`].
pub fn map_find_exec(m: &Vec<(i64, usize)>, id: i64) -> (r: Option<usize>)
    ensures
        r == map_find(m@, id),
{
    proof {
        assert(m@.skip(0) =~= m@);
    }
    let n = m.len();
    let mut i: usize = 0;
    while i < n
        invariant
            i <= n == m@.len(),
            map_find(m@, id) == map_find(m@.skip(i as int), id),
        decreases n - i,
    {
        proof {
            assert(m@.skip(i as int)[0] == m@[i as int]);
            assert(m@.skip(i as int).drop_first() =~= m@.skip(i + 1 as int));
        }
        if m[i].0 == id {
            return Some(m[i].1);
        }
        i = i + 1;
    }
    proof {
        assert(m@.skip(n as int) =~= Seq::<(i64, usize)>::empty());
    }
    None
}

/// Applies a kind-0 change batch to the entity map: decides one action
/// per applicable entry and one diagnostic per dropped entry, per
/// [`batch_actions`] and [`batch_diags`].  A bad entry never affects its
/// siblings.
pub fn apply_change_batch(entries: &Vec<ChangeObject>, object_map: &Vec<(i64, usize)>) -> (r: (
    Vec<InboundAction>,
    Vec<String>,
))
    ensures
        actions_view(r.0@) == batch_actions(changes_view(entries@), object_map@),
        crate::objects::strs_view(r.1@) == batch_diags(changes_view(entries@), object_map@),
{
    let ghost ev = changes_view(entries@);
    proof {
        assert(ev.len() == entries@.len());
    }
    let n = entries.len();
    let mut actions: Vec<InboundAction> = Vec::new();
    let mut diags: Vec<String> = Vec::new();
    let mut i: usize = 0;
    proof {
        assert(actions_view(actions@) =~= batch_actions(ev.take(0), object_map@));
        assert(crate::objects::strs_view(diags@) =~= batch_diags(ev.take(0), object_map@));
    }
    while i < n
        invariant
            i <= n == entries@.len(),
            ev == changes_view(entries@),
            actions_view(actions@) =~= batch_actions(ev.take(i as int), object_map@),
            crate::objects::strs_view(diags@) =~= batch_diags(ev.take(i as int), object_map@),
        decreases n - i,
    {
        proof {
            assert(ev[i as int] == (entries@[i as int].object_id, entries@[i as int].serialized@));
            assert(ev.take(i + 1 as int).drop_last() =~= ev.take(i as int));
            assert(ev.take(i + 1 as int).last() == ev[i as int]);
        }
        let e = &entries[i];
        match map_find_exec(object_map, e.object_id) {
            None => {
                let mut d: Vec<char> = Vec::new();
                append_str(&mut d, "got an unknown object_id: ");
                let num = i64_to_chars(e.object_id);
                let nl = num.len();
                append_range(&mut d, &num, 0, nl);
                let ghost prevd = diags@;
                proof {
                    assert(crate::objects::strs_view(prevd).len() == prevd.len());
                    assert(num@.subrange(0, num@.len() as int) =~= num@);
                }
                diags.push(string_from_chars(&d));
                proof {
                    assert(crate::objects::strs_view(diags@) =~= crate::objects::strs_view(
                        prevd,
                    ).push("got an unknown object_id: "@ + i64_dec_str(e.object_id)));
                }
            },
            Some(ent) => {
                match json_object_key(e.serialized.as_str()) {
                    Some(k) => {
                        let ghost preva = actions@;
                        proof {
                            assert(actions_view(preva).len() == preva.len());
                        }
                        if crate::chars::str_eq(k.as_str(), "Transform") {
                            actions.push(
                                InboundAction::UpdateTransform {
                                    entity: ent,
                                    serialized: e.serialized.clone(),
                                },
                            );
                            proof {
                                assert(actions_view(actions@) =~= actions_view(preva).push(
                                    ActionV::UpdateTransform(ent as int, e.serialized@),
                                ));
                            }
                        } else if crate::chars::str_eq(k.as_str(), "MonoBehaviour") {
                            actions.push(
                                InboundAction::UpdateBehavior {
                                    entity: ent,
                                    serialized: e.serialized.clone(),
                                },
                            );
                            proof {
                                assert(actions_view(actions@) =~= actions_view(preva).push(
                                    ActionV::UpdateBehavior(ent as int, e.serialized@),
                                ));
                            }
                        }
                    },
                    None => {
                        let mut d: Vec<char> = Vec::new();
                        append_str(&mut d, "failed to parse change object: ");
                        let pc = chars_of(e.serialized.as_str());
                        let pl = pc.len();
                        append_range(&mut d, &pc, 0, pl);
                        let ghost prevd = diags@;
                        proof {
                            assert(crate::objects::strs_view(prevd).len() == prevd.len());
                            assert(pc@.subrange(0, pc@.len() as int) =~= pc@);
                        }
                        diags.push(string_from_chars(&d));
                        proof {
                            assert(crate::objects::strs_view(diags@)
                                =~= crate::objects::strs_view(prevd).push(
                                "failed to parse change object: "@ + e.serialized@,
                            ));
                        }
                    },
                }
            },
        }
        proof {
            assert(actions_view(actions@) =~= batch_actions(ev.take(i + 1 as int), object_map@));
            assert(crate::objects::strs_view(diags@) =~= batch_diags(
                ev.take(i + 1 as int),
                object_map@,
            ));
        }
        i = i + 1;
    }
    proof {
        assert(ev.take(n as int) =~= ev);
    }
    (actions, diags)
}

/// An entry whose id the map does not know drops only itself: the batch
/// decides the same actions as the batch with that entry removed.
pub proof fn lemma_unknown_id_drops_only_itself(
    entries: Seq<(i64, Seq<char>)>,
    m: Seq<(i64, usize)>,
    i: int,
)
    requires
        0 <= i < entries.len(),
        map_find(m, entries[i].0) is None,
    ensures
        batch_actions(entries, m) == batch_actions(entries.remove(i), m),
    decreases entries.len(),
{
    if i == entries.len() - 1 {
        assert(entries.remove(i) =~= entries.drop_last());
    } else {
        assert(entries.remove(i).drop_last() =~= entries.drop_last().remove(i));
        assert(entries.remove(i).last() == entries.last());
        lemma_unknown_id_drops_only_itself(entries.drop_last(), m, i);
    }
}

/// Handles one inbound line: parses the frame, and for a kind-0 line
/// decides the batch; every other well-formed kind, and every malformed
/// line or payload, decides nothing.
pub fn handle_editor_line(line: &str, object_map: &Vec<(i64, usize)>) -> (r: (
    Vec<InboundAction>,
    Vec<String>,
))
    ensures
        ({
            match frame_spec(line@) {
                Some((k, payload)) => {
                    if k == 0 {
                        match change_entries_of(payload) {
                            Some(es) => {
                                &&& actions_view(r.0@) == batch_actions(es, object_map@)
                                &&& crate::objects::strs_view(r.1@) == batch_diags(es, object_map@)
                            },
                            None => r.0@.len() == 0 && crate::objects::strs_view(r.1@) == seq![
                                "failed to parse change list"@,
                            ],
                        }
                    } else {
                        r.0@.len() == 0 && r.1@.len() == 0
                    }
                },
                None => r.0@.len() == 0 && r.1@.len() == 0,
            }
        }),
{
    let (kind, payload) = match parse_editor_line(line) {
        Some(kp) => kp,
        None => {
            return (Vec::new(), Vec::new());
        },
    };
    if kind != 0 {
        return (Vec::new(), Vec::new());
    }
    let entries = match parse_change_entries(payload.as_str()) {
        Some(es) => es,
        None => {
            let mut diags: Vec<String> = Vec::new();
            diags.push(String::from_str("failed to parse change list"));
            proof {
                assert(crate::objects::strs_view(diags@) =~= seq!["failed to parse change list"@]);
            }
            return (Vec::new(), diags);
        },
    };
    apply_change_batch(&entries, object_map)
}

} // verus!

verus! {

// ---------------------------------------------------------------------------
// The change tracker and the outbound lines.
// ---------------------------------------------------------------------------
pub open spec fn sm_view(m: Seq<(i64, String)>) -> Seq<(i64, Seq<char>)> {
    m.map_values(|e: (i64, String)| (e.0, e.1@))
}

/// First-match lookup in an id-to-payload map.
pub open spec fn sm_find(m: Seq<(i64, Seq<char>)>, id: i64) -> Option<Seq<char>>
    decreases m.len(),
{
    if m.len() == 0 {
        None
    } else if m[0].0 == id {
        Some(m[0].1)
    } else {
        sm_find(m.drop_first(), id)
    }
}

/// The map with `id` bound to `v`: updated in place when present, else
/// appended.
pub open spec fn sm_upsert(m: Seq<(i64, Seq<char>)>, id: i64, v: Seq<char>) -> Seq<
    (i64, Seq<char>),
>
    decreases m.len(),
{
    if m.len() == 0 {
        seq![(id, v)]
    } else if m[0].0 == id {
        seq![(id, v)] + m.drop_first()
    } else {
        seq![m[0]] + sm_upsert(m.drop_first(), id, v)
    }
}

/// The id set with `id` added once.
pub open spec fn ids_insert(s: Seq<i64>, id: i64) -> Seq<i64> {
    if s.contains(id) {
        s
    } else {
        s.push(id)
    }
}

/// The per-tick change buffers, and the last value observed per origin
/// id across ticks.
pub struct UnityChangeMap {
    /// Outgoing serialized changes, one per origin id, last write wins.
    pub changes: Vec<(i64, String)>,
    /// Origin ids whose inbound writes are to be acknowledged.
    pub dirty: Vec<i64>,
    /// The last value observed per origin id; survives tick ends.
    pub observed: Vec<(i64, String)>,
}

impl UnityChangeMap {
    /// Empty buffers, nothing yet observed.
    pub fn new() -> (r: UnityChangeMap)
        ensures
            r.changes@.len() == 0,
            r.dirty@.len() == 0,
            r.observed@.len() == 0,
    {
        UnityChangeMap { changes: Vec::new(), dirty: Vec::new(), observed: Vec::new() }
    }

    /// Clears the per-tick buffers; what was observed stays observed.
    pub fn clear_changes(&mut self)
        ensures
            final(self).changes@.len() == 0,
            final(self).dirty@.len() == 0,
            final(self).observed@ == old(self).observed@,
    {
        self.changes.clear();
        self.dirty.clear();
    }

    fn observed_find(&self, id: i64) -> (r: Option<&String>)
        ensures
            match r {
                Some(v) => sm_find(sm_view(self.observed@), id) == Some(v@),
                None => sm_find(sm_view(self.observed@), id) is None,
            },
    {
        let ghost mv = sm_view(self.observed@);
        proof {
            assert(mv.len() == self.observed@.len());
            assert(mv.skip(0) =~= mv);
        }
        let n = self.observed.len();
        let mut i: usize = 0;
        while i < n
            invariant
                i <= n == self.observed@.len(),
                mv == sm_view(self.observed@),
                sm_find(mv, id) == sm_find(mv.skip(i as int), id),
            decreases n - i,
        {
            proof {
                assert(mv[i as int] == (self.observed@[i as int].0, self.observed@[i as int].1@));
                assert(mv.skip(i as int)[0] == mv[i as int]);
                assert(mv.skip(i as int).drop_first() =~= mv.skip(i + 1 as int));
            }
            if self.observed[i].0 == id {
                return Some(&self.observed[i].1);
            }
            i = i + 1;
        }
        proof {
            assert(mv.skip(n as int) =~= Seq::<(i64, Seq<char>)>::empty());
        }
        None
    }

    /// Observes one tracked component this tick.  An inbound-written
    /// component is queued for acknowledgement; otherwise a value that
    /// differs from the last observation is buffered as an outgoing
    /// change, overwriting any prior same-tick value; an unchanged value
    /// buffers nothing.
    pub fn track_change(&mut self, origin_id: i64, serialized: String, dirty: bool)
        ensures
            ({
                let prev = sm_find(sm_view(old(self).observed@), origin_id);
                let changed = prev != Some(serialized@);
                &&& sm_view(final(self).observed@) == sm_upsert(
                    sm_view(old(self).observed@),
                    origin_id,
                    serialized@,
                )
                &&& (if dirty {
                    &&& final(self).changes@ == old(self).changes@
                    &&& final(self).dirty@ == ids_insert(old(self).dirty@, origin_id)
                } else if changed {
                    &&& sm_view(final(self).changes@) == sm_upsert(
                        sm_view(old(self).changes@),
                        origin_id,
                        serialized@,
                    )
                    &&& final(self).dirty@ == old(self).dirty@
                } else {
                    &&& final(self).changes@ == old(self).changes@
                    &&& final(self).dirty@ == old(self).dirty@
                })
            }),
    {
        let changed = match self.observed_find(origin_id) {
            Some(v) => !crate::chars::str_eq(v.as_str(), serialized.as_str()),
            None => true,
        };
        if dirty {
            let mut present = false;
            let n = self.dirty.len();
            let mut i: usize = 0;
            while i < n
                invariant
                    i <= n == self.dirty@.len(),
                    present == self.dirty@.take(i as int).contains(origin_id),
                decreases n - i,
            {
                let hit = self.dirty[i] == origin_id;
                if hit {
                    present = true;
                }
                proof {
                    let t1 = self.dirty@.take(i + 1 as int);
                    let t0 = self.dirty@.take(i as int);
                    assert(t1 =~= t0.push(self.dirty@[i as int]));
                    if hit {
                        assert(t1[i as int] == origin_id);
                        assert(t1.contains(origin_id));
                    } else {
                        if t1.contains(origin_id) {
                            let k = choose|k: int| 0 <= k < t1.len() && t1[k] == origin_id;
                            assert(t0[k] == origin_id);
                            assert(t0.contains(origin_id));
                        }
                        if t0.contains(origin_id) {
                            let k = choose|k: int| 0 <= k < t0.len() && t0[k] == origin_id;
                            assert(t1[k] == origin_id);
                            assert(t1.contains(origin_id));
                        }
                    }
                }
                i = i + 1;
            }
            proof {
                assert(self.dirty@.take(n as int) =~= self.dirty@);
            }
            if !present {
                self.dirty.push(origin_id);
            }
        } else if changed {
            sm_upsert_exec(&mut self.changes, origin_id, serialized.clone());
        }
        sm_upsert_exec(&mut self.observed, origin_id, serialized);
    }
}

/// Binds `id` to `v`, per [`sm_upsert`].
fn sm_upsert_exec(m: &mut Vec<(i64, String)>, id: i64, v: String)
    ensures
        sm_view(final(m)@) == sm_upsert(sm_view(old(m)@), id, v@),
{
    let ghost mv = sm_view(old(m)@);
    proof {
        assert(mv.len() == old(m)@.len());
    }
    let n = m.len();
    let mut i: usize = 0;
    while i < n
        invariant
            i <= n == m@.len(),
            m@ == old(m)@,
            mv == sm_view(m@),
            forall|k: int| 0 <= k < i ==> (#[trigger] mv[k]).0 != id,
        decreases n - i,
    {
        proof {
            assert(mv[i as int] == (m@[i as int].0, m@[i as int].1@));
        }
        if m[i].0 == id {
            let _ = m.remove(i);
            m.insert(i, (id, v));
            proof {
                lemma_sm_upsert_at(mv, id, v@, i as int);
                assert(sm_view(m@) =~= mv.update(i as int, (id, v@)));
            }
            return ;
        }
        i = i + 1;
    }
    m.push((id, v));
    proof {
        lemma_sm_upsert_missing(mv, id, v@);
        assert(sm_view(m@) =~= mv.push((id, v@)));
    }
}

/// Updating a present key rebinds it in place.
proof fn lemma_sm_upsert_at(m: Seq<(i64, Seq<char>)>, id: i64, v: Seq<char>, i: int)
    requires
        0 <= i < m.len(),
        m[i].0 == id,
        forall|k: int| 0 <= k < i ==> (#[trigger] m[k]).0 != id,
    ensures
        sm_upsert(m, id, v) == m.update(i, (id, v)),
    decreases i,
{
    if i == 0 {
        assert(sm_upsert(m, id, v) =~= m.update(0, (id, v)));
    } else {
        assert(m.drop_first()[i - 1] == m[i]);
        assert(forall|k: int| 0 <= k < i - 1 ==> (#[trigger] m.drop_first()[k]).0 != id);
        lemma_sm_upsert_at(m.drop_first(), id, v, i - 1);
        assert(sm_upsert(m, id, v) =~= m.update(i, (id, v)));
    }
}

/// Updating an absent key appends it.
proof fn lemma_sm_upsert_missing(m: Seq<(i64, Seq<char>)>, id: i64, v: Seq<char>)
    requires
        forall|k: int| 0 <= k < m.len() ==> (#[trigger] m[k]).0 != id,
    ensures
        sm_upsert(m, id, v) == m.push((id, v)),
    decreases m.len(),
{
    if m.len() == 0 {
        assert(sm_upsert(m, id, v) =~= m.push((id, v)));
    } else {
        assert(forall|k: int|
            0 <= k < m.len() - 1 ==> (#[trigger] m.drop_first()[k]).0 != id);
        lemma_sm_upsert_missing(m.drop_first(), id, v);
        assert(sm_upsert(m, id, v) =~= m.push((id, v)));
    }
}

} // verus!

verus! {

/// A hexadecimal digit, lowercase.
pub open spec fn hex_char(d: nat) -> char {
    if d < 10 {
        ((48 + d) as u8) as char
    } else {
        ((87 + d) as u8) as char
    }
}

/// How one character is written inside a JSON string on the wire: the
/// quote, the backslash and the named control characters get their short
/// escapes, every other control character its `\u00XX` form.
pub open spec fn esc_char(c: char) -> Seq<char> {
    if c == '"' {
        seq!['\\', '"']
    } else if c == '\\' {
        seq!['\\', '\\']
    } else if c == '\u{8}' {
        seq!['\\', 'b']
    } else if c == '\t' {
        seq!['\\', 't']
    } else if c == '\n' {
        seq!['\\', 'n']
    } else if c == '\u{c}' {
        seq!['\\', 'f']
    } else if c == '\r' {
        seq!['\\', 'r']
    } else if (c as u32) < 32 {
        seq!['\\', 'u', '0', '0', hex_char((c as u32 / 16) as nat), hex_char(
            (c as u32 % 16) as nat,
        )]
    } else {
        seq![c]
    }
}

/// A payload escaped for a JSON string.
pub open spec fn json_escape(s: Seq<char>) -> Seq<char>
    decreases s.len(),
{
    if s.len() == 0 {
        Seq::empty()
    } else {
        json_escape(s.drop_last()) + esc_char(s.last())
    }
}

pub open spec fn ack_item(id: i64) -> Seq<char> {
    "{\"object_id\":"@ + i64_dec_str(id) + "}"@
}

pub open spec fn change_item(id: i64, v: Seq<char>) -> Seq<char> {
    "{\"object_id\":"@ + i64_dec_str(id) + ",\"serialized\":\""@ + json_escape(v) + "\"}"@
}

pub open spec fn acks_body(ds: Seq<i64>) -> Seq<char>
    decreases ds.len(),
{
    if ds.len() == 0 {
        Seq::empty()
    } else if ds.len() == 1 {
        ack_item(ds[0])
    } else {
        acks_body(ds.drop_last()) + seq![','] + ack_item(ds.last())
    }
}

pub open spec fn changes_body(cs: Seq<(i64, Seq<char>)>) -> Seq<char>
    decreases cs.len(),
{
    if cs.len() == 0 {
        Seq::empty()
    } else if cs.len() == 1 {
        change_item(cs[0].0, cs[0].1)
    } else {
        changes_body(cs.drop_last()) + seq![','] + change_item(cs.last().0, cs.last().1)
    }
}

pub open spec fn ack_line(ds: Seq<i64>) -> Seq<char> {
    "EDITOR_CHANGE|1|["@ + acks_body(ds) + "]"@
}

pub open spec fn changes_line(cs: Seq<(i64, Seq<char>)>) -> Seq<char> {
    "EDITOR_CHANGE|0|["@ + changes_body(cs) + "]"@
}

/// What one tick sends: the acknowledgement line when anything is dirty,
/// then the change line when anything changed; nothing for empty buffers.
pub open spec fn send_lines(cs: Seq<(i64, Seq<char>)>, ds: Seq<i64>) -> Seq<Seq<char>> {
    (if ds.len() > 0 {
        seq![ack_line(ds)]
    } else {
        Seq::empty()
    }) + (if cs.len() > 0 {
        seq![changes_line(cs)]
    } else {
        Seq::empty()
    })
}

/// One hexadecimal digit, per [`hex_char`].
fn hex_char_exec(d: u32) -> (c: char)
    requires
        d < 16,
    ensures
        c == hex_char(d as nat),
{
    if d < 10 {
        (48 + d as u8) as char
    } else {
        (87 + d as u8) as char
    }
}

fn escape_into(out: &mut Vec<char>, s: &String)
    ensures
        final(out)@ == old(out)@ + json_escape(s@),
{
    let sc = chars_of(s.as_str());
    let n = sc.len();
    let mut j: usize = 0;
    proof {
        assert(out@ =~= old(out)@ + json_escape(sc@.take(0)));
    }
    while j < n
        invariant
            j <= n == sc@.len(),
            sc@ == s@,
            out@ == old(out)@ + json_escape(sc@.take(j as int)),
        decreases n - j,
    {
        proof {
            assert(sc@.take(j + 1 as int).drop_last() =~= sc@.take(j as int));
            assert(sc@.take(j + 1 as int).last() == sc@[j as int]);
        }
        let c = sc[j];
        if c == '"' {
            out.push('\\');
            out.push('"');
        } else if c == '\\' {
            out.push('\\');
            out.push('\\');
        } else if c == '\u{8}' {
            out.push('\\');
            out.push('b');
        } else if c == '\t' {
            out.push('\\');
            out.push('t');
        } else if c == '\n' {
            out.push('\\');
            out.push('n');
        } else if c == '\u{c}' {
            out.push('\\');
            out.push('f');
        } else if c == '\r' {
            out.push('\\');
            out.push('r');
        } else if (c as u32) < 32 {
            out.push('\\');
            out.push('u');
            out.push('0');
            out.push('0');
            let code = c as u32;
            out.push(hex_char_exec(code / 16));
            out.push(hex_char_exec(code % 16));
        } else {
            out.push(c);
        }
        proof {
            assert(out@ =~= old(out)@ + json_escape(sc@.take(j + 1 as int)));
        }
        j = j + 1;
    }
    proof {
        assert(sc@.take(n as int) =~= sc@);
    }
}

impl UnityChangeMap {
    /// The lines to send this tick, per [`send_lines`]: acknowledgements
    /// first, then changes, in buffer order.
    #[verifier::rlimit(30)]
    pub fn send_changes(&self) -> (r: Vec<String>)
        ensures
            crate::objects::strs_view(r@) == send_lines(sm_view(self.changes@), self.dirty@),
    {
        let mut lines: Vec<String> = Vec::new();
        if self.dirty.len() > 0 {
            let mut out: Vec<char> = Vec::new();
            append_str(&mut out, "EDITOR_CHANGE|1|[");
            let nd = self.dirty.len();
            let mut j: usize = 0;
            while j < nd
                invariant
                    j <= nd == self.dirty@.len(),
                    out@ == "EDITOR_CHANGE|1|["@ + acks_body(self.dirty@.take(j as int)),
                decreases nd - j,
            {
                proof {
                    assert(self.dirty@.take(j + 1 as int).drop_last() =~= self.dirty@.take(
                        j as int,
                    ));
                    assert(self.dirty@.take(j + 1 as int).last() == self.dirty@[j as int]);
                }
                if j > 0 {
                    out.push(',');
                }
                append_str(&mut out, "{\"object_id\":");
                let num = i64_to_chars(self.dirty[j]);
                let nl = num.len();
                append_range(&mut out, &num, 0, nl);
                proof {
                    assert(num@.subrange(0, num@.len() as int) =~= num@);
                }
                append_str(&mut out, "}");
                proof {
                    if j == 0 {
                        assert(out@ =~= "EDITOR_CHANGE|1|["@ + acks_body(self.dirty@.take(1)));
                    } else {
                        assert(out@ =~= "EDITOR_CHANGE|1|["@ + acks_body(
                            self.dirty@.take(j + 1 as int),
                        ));
                    }
                }
                j = j + 1;
            }
            proof {
                assert(self.dirty@.take(nd as int) =~= self.dirty@);
            }
            append_str(&mut out, "]");
            lines.push(string_from_chars(&out));
            proof {
                assert(crate::objects::strs_view(lines@) =~= seq![ack_line(self.dirty@)]);
            }
        }
        let ghost after_acks = crate::objects::strs_view(lines@);
        if self.changes.len() > 0 {
            let ghost cv = sm_view(self.changes@);
            proof {
                assert(cv.len() == self.changes@.len());
            }
            let mut out: Vec<char> = Vec::new();
            append_str(&mut out, "EDITOR_CHANGE|0|[");
            let nc = self.changes.len();
            let mut j: usize = 0;
            while j < nc
                invariant
                    j <= nc == self.changes@.len(),
                    cv == sm_view(self.changes@),
                    out@ == "EDITOR_CHANGE|0|["@ + changes_body(cv.take(j as int)),
                decreases nc - j,
            {
                proof {
                    assert(cv[j as int] == (self.changes@[j as int].0, self.changes@[j as int].1@));
                    assert(cv.take(j + 1 as int).drop_last() =~= cv.take(j as int));
                    assert(cv.take(j + 1 as int).last() == cv[j as int]);
                }
                if j > 0 {
                    out.push(',');
                }
                append_str(&mut out, "{\"object_id\":");
                let num = i64_to_chars(self.changes[j].0);
                let nl = num.len();
                append_range(&mut out, &num, 0, nl);
                proof {
                    assert(num@.subrange(0, num@.len() as int) =~= num@);
                }
                append_str(&mut out, ",\"serialized\":\"");
                escape_into(&mut out, &self.changes[j].1);
                append_str(&mut out, "\"}");
                proof {
                    if j == 0 {
                        assert(out@ =~= "EDITOR_CHANGE|0|["@ + changes_body(cv.take(1)));
                    } else {
                        assert(out@ =~= "EDITOR_CHANGE|0|["@ + changes_body(
                            cv.take(j + 1 as int),
                        ));
                    }
                }
                j = j + 1;
            }
            proof {
                assert(cv.take(nc as int) =~= cv);
            }
            append_str(&mut out, "]");
            let ghost prevl = lines@;
            lines.push(string_from_chars(&out));
            proof {
                assert(crate::objects::strs_view(lines@) =~= after_acks.push(
                    changes_line(sm_view(self.changes@)),
                ));
            }
        }
        proof {
            assert(crate::objects::strs_view(lines@) =~= send_lines(
                sm_view(self.changes@),
                self.dirty@,
            ));
        }
        lines
    }
}

} // verus!
