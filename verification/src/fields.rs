//! Looking fields up inside one record, and parsing inline `{key: value}`
//! maps.

use vstd::prelude::*;

use crate::chars::range_eq_str;
use crate::record::{find_colon_sp, FieldV, RawField};

verus! {

// ---------------------------------------------------------------------------
// Field lookup.
// ---------------------------------------------------------------------------
/// Whether field `f` is a mapping entry at indent `d` under one of the two
/// accepted names.
pub open spec fn key_matches(f: FieldV, d: nat, k1: Seq<char>, k2: Seq<char>) -> bool {
    f.indent == d && !f.item && (f.key == k1 || f.key == k2)
}

/// The first position in `[i, end)` holding a mapping entry at indent `d`
/// under one of the two names.
pub open spec fn find_key_at(
    fs: Seq<FieldV>,
    i: int,
    end: int,
    d: nat,
    k1: Seq<char>,
    k2: Seq<char>,
) -> Option<int>
    decreases end - i when i <= end
{
    if i >= end {
        None
    } else if key_matches(fs[i], d, k1, k2) {
        Some(i)
    } else {
        find_key_at(fs, i + 1, end, d, k1, k2)
    }
}

/// Scans for a field named `k1` or `k2` at indent `d`, per [`find_key_at`].
pub fn find_key_exec(
    fields: &Vec<RawField>,
    start: usize,
    end: usize,
    d: usize,
    k1: &str,
    k2: &str,
) -> (r: Option<usize>)
    requires
        start <= end <= fields@.len(),
    ensures
        ({
            let fs = crate::record::fields_view(fields@);
            match r {
                Some(i) => {
                    &&& start <= i < end
                    &&& find_key_at(fs, start as int, end as int, d as nat, k1@, k2@) == Some(
                        i as int,
                    )
                },
                None => find_key_at(fs, start as int, end as int, d as nat, k1@, k2@) is None,
            }
        }),
{
    let ghost fs = crate::record::fields_view(fields@);
    proof {
        assert(fs.len() == fields@.len());
    }
    let mut i = start;
    while i < end
        invariant
            start <= i <= end <= fields@.len(),
            fs == crate::record::fields_view(fields@),
            find_key_at(fs, start as int, end as int, d as nat, k1@, k2@) == find_key_at(
                fs,
                i as int,
                end as int,
                d as nat,
                k1@,
                k2@,
            ),
        decreases end - i,
    {
        let f = &fields[i];
        proof {
            assert(fs[i as int] == fields@[i as int]@);
        }
        if f.indent == d && !f.item {
            let kl = f.key.len();
            proof {
                assert(f.key@.subrange(0, f.key@.len() as int) =~= f.key@);
            }
            if range_eq_str(&f.key, 0, kl, k1) || range_eq_str(&f.key, 0, kl, k2) {
                return Some(i);
            }
        }
        i = i + 1;
    }
    None
}

// ---------------------------------------------------------------------------
// Blocks: the lines that belong to a field.
// ---------------------------------------------------------------------------
/// End of the block opened by a field at indent `d` at position `i`: the
/// run of following lines that are more deeply indented, or are list items
/// at the same indent.
pub open spec fn block_end(fs: Seq<FieldV>, i: int, end: int, d: nat) -> int
    decreases end - i when i <= end
{
    if i >= end {
        end
    } else if fs[i].indent > d || (fs[i].indent == d && fs[i].item) {
        block_end(fs, i + 1, end, d)
    } else {
        i
    }
}

/// Scans for the end of a block, per [`block_end`].
pub fn block_end_exec(fields: &Vec<RawField>, from: usize, end: usize, d: usize) -> (r: usize)
    requires
        from <= end <= fields@.len(),
    ensures
        ({
            let fs = crate::record::fields_view(fields@);
            &&& from <= r <= end
            &&& r as int == block_end(fs, from as int, end as int, d as nat)
        }),
{
    let ghost fs = crate::record::fields_view(fields@);
    proof {
        assert(fs.len() == fields@.len());
    }
    let mut i = from;
    while i < end
        invariant
            from <= i <= end <= fields@.len(),
            fs == crate::record::fields_view(fields@),
            block_end(fs, from as int, end as int, d as nat) == block_end(
                fs,
                i as int,
                end as int,
                d as nat,
            ),
        decreases end - i,
    {
        let f = &fields[i];
        proof {
            assert(fs[i as int] == fields@[i as int]@);
        }
        if !(f.indent > d || (f.indent == d && f.item)) {
            return i;
        }
        i = i + 1;
    }
    i
}

// ---------------------------------------------------------------------------
// Inline maps: `{key: value, key: value}`.
// ---------------------------------------------------------------------------
/// The first position at or after `i` where `", "` occurs, or the end.
pub open spec fn find_comma_sp(l: Seq<char>, i: int) -> int
    decreases l.len() - i when 0 <= i <= l.len()
{
    if i >= l.len() {
        l.len() as int
    } else if l[i] == ',' && i + 1 < l.len() && l[i + 1] == ' ' {
        i
    } else {
        find_comma_sp(l, i + 1)
    }
}

/// One `key: value` piece of an inline map.
pub open spec fn parse_pair(q: Seq<char>) -> Option<(Seq<char>, Seq<char>)> {
    let c = find_colon_sp(q, 0);
    if c < q.len() {
        Some((q.take(c), q.skip(c + 2)))
    } else {
        None
    }
}

/// The pieces of an inline map's inside, split at every `", "`.
pub open spec fn split_pairs(t: Seq<char>) -> Option<Seq<(Seq<char>, Seq<char>)>>
    decreases t.len(),
{
    if t.len() == 0 {
        Some(Seq::empty())
    } else {
        let c = find_comma_sp(t, 0);
        if 0 <= c && c + 2 <= t.len() {
            match parse_pair(t.take(c)) {
                Some(p) => {
                    match split_pairs(t.skip(c + 2)) {
                        Some(r) => Some(seq![p] + r),
                        None => None,
                    }
                },
                None => None,
            }
        } else {
            match parse_pair(t) {
                Some(p) => Some(seq![p]),
                None => None,
            }
        }
    }
}

/// The pairs of an inline map value `{ ... }`, or nothing when the value
/// is not shaped as one.
pub open spec fn inline_pairs(s: Seq<char>) -> Option<Seq<(Seq<char>, Seq<char>)>> {
    if s.len() >= 2 && s[0] == '{' && s.last() == '}' {
        split_pairs(s.subrange(1, s.len() - 1))
    } else {
        None
    }
}

pub open spec fn pairs_view(ps: Seq<(Vec<char>, Vec<char>)>) -> Seq<(Seq<char>, Seq<char>)> {
    ps.map_values(|p: (Vec<char>, Vec<char>)| (p.0@, p.1@))
}

/// Splits the inside of an inline map, per [`split_pairs`].
fn split_pairs_exec(v: &Vec<char>, from: usize, to: usize) -> (r: Option<
    Vec<(Vec<char>, Vec<char>)>,
>)
    requires
        from <= to <= v@.len(),
    ensures
        ({
            let t = v@.subrange(from as int, to as int);
            match r {
                Some(ps) => split_pairs(t) == Some(pairs_view(ps@)),
                None => split_pairs(t) is None,
            }
        }),
    decreases to - from,
{
    let ghost t = v@.subrange(from as int, to as int);
    if from == to {
        let ps: Vec<(Vec<char>, Vec<char>)> = Vec::new();
        proof {
            assert(pairs_view(ps@) =~= Seq::<(Seq<char>, Seq<char>)>::empty());
        }
        return Some(ps);
    }
    // find the first ", "
    let mut c = from;
    while c < to && !(v[c] == ',' && c + 1 < to && v[c + 1] == ' ')
        invariant
            from <= c <= to <= v@.len(),
            t == v@.subrange(from as int, to as int),
            find_comma_sp(t, 0) == find_comma_sp(t, c - from),
        decreases to - c,
    {
        proof {
            assert(t[c - from] == v@[c as int]);
            assert(c + 1 < to ==> t[c - from + 1] == v@[c + 1 as int]);
        }
        c = c + 1;
    }
    proof {
        if c < to {
            assert(t[c - from] == v@[c as int]);
            assert(t[c - from + 1] == v@[c + 1 as int]);
        }
        assert(find_comma_sp(t, 0) == c - from);
    }
    // split the pair at its ": "
    let ghost q = t.take(c - from);
    proof {
        assert(q =~= v@.subrange(from as int, c as int));
    }
    let mut k = from;
    while k < c && !(v[k] == ':' && k + 1 < c && v[k + 1] == ' ')
        invariant
            from <= k <= c <= to <= v@.len(),
            q == v@.subrange(from as int, c as int),
            find_colon_sp(q, 0) == find_colon_sp(q, k - from),
        decreases c - k,
    {
        proof {
            assert(q[k - from] == v@[k as int]);
            assert(k + 1 < c ==> q[k - from + 1] == v@[k + 1 as int]);
        }
        k = k + 1;
    }
    proof {
        if k < c {
            assert(q[k - from] == v@[k as int]);
            assert(q[k - from + 1] == v@[k + 1 as int]);
        }
        assert(find_colon_sp(q, 0) == k - from);
    }
    if k == c {
        proof {
            assert(parse_pair(q) is None);
        }
        return None;
    }
    let key = crate::record::copy_range(v, from, k);
    let val = crate::record::copy_range(v, k + 2, c);
    proof {
        assert(key@ =~= q.take(k - from));
        assert(val@ =~= q.skip(k - from + 2));
        assert(parse_pair(q) == Some((key@, val@)));
    }
    if c == to {
        let mut ps: Vec<(Vec<char>, Vec<char>)> = Vec::new();
        ps.push((key, val));
        proof {
            assert(pairs_view(ps@) =~= seq![(key@, val@)]);
        }
        return Some(ps);
    }
    proof {
        assert(v@.subrange(c + 2 as int, to as int) =~= t.skip(c - from + 2));
    }
    match split_pairs_exec(v, c + 2, to) {
        Some(rest) => {
            let ghost restv = pairs_view(rest@);
            let mut ps = rest;
            ps.insert(0, (key, val));
            proof {
                assert(pairs_view(ps@) =~= seq![(key@, val@)] + restv);
            }
            Some(ps)
        },
        None => None,
    }
}

} // verus!

verus! {

use crate::scalar::{
    is_bool_token, is_bool_token_exec, is_int_token, is_null_token, is_null_token_exec,
    is_number_token, is_int_token_exec, is_float_token_exec,
};

/// The value under `name` among an inline map's pairs, first match wins.
pub open spec fn pair_value(ps: Seq<(Seq<char>, Seq<char>)>, name: Seq<char>) -> Option<Seq<char>>
    decreases ps.len(),
{
    if ps.len() == 0 {
        None
    } else if ps[0].0 == name {
        Some(ps[0].1)
    } else {
        pair_value(ps.drop_first(), name)
    }
}

/// Looks a name up among inline pairs, per [`pair_value`].
pub fn pair_value_exec<'a>(ps: &'a Vec<(Vec<char>, Vec<char>)>, name: &str) -> (r: Option<
    &'a Vec<char>,
>)
    ensures
        match r {
            Some(v) => pair_value(pairs_view(ps@), name@) == Some(v@),
            None => pair_value(pairs_view(ps@), name@) is None,
        },
{
    let ghost pv = pairs_view(ps@);
    proof {
        assert(pv.len() == ps@.len());
    }
    let n = ps.len();
    proof {
        assert(pv.skip(0) =~= pv);
    }
    let mut i: usize = 0;
    while i < n
        invariant
            i <= n == ps@.len(),
            pv == pairs_view(ps@),
            pair_value(pv, name@) == pair_value(pv.skip(i as int), name@),
        decreases n - i,
    {
        proof {
            assert(pv[i as int] == (ps@[i as int].0@, ps@[i as int].1@));
            assert(pv.skip(i as int)[0] == pv[i as int]);
            assert(pv.skip(i as int).drop_first() =~= pv.skip(i + 1 as int));
        }
        let k = &ps[i].0;
        let kl = k.len();
        proof {
            assert(k@.subrange(0, k@.len() as int) =~= k@);
        }
        if range_eq_str(k, 0, kl, name) {
            return Some(&ps[i].1);
        }
        i = i + 1;
    }
    proof {
        assert(pv.skip(n as int) =~= Seq::<(Seq<char>, Seq<char>)>::empty());
    }
    None
}

// ---------------------------------------------------------------------------
// Scalar typing.
// ---------------------------------------------------------------------------
/// A quoted scalar.
pub open spec fn is_quoted(t: Seq<char>) -> bool {
    t.len() >= 2 && ((t[0] == '"' && t.last() == '"') || (t[0] == '\'' && t.last() == '\''))
}

pub open spec fn unquote(t: Seq<char>) -> Seq<char> {
    t.subrange(1, t.len() - 1)
}

/// How a scalar decodes as a string: quoted contents, or the bare token
/// unless the dialect types it as a number, boolean or null.
pub open spec fn str_of_token(t: Seq<char>) -> Option<Seq<char>> {
    if is_quoted(t) {
        Some(unquote(t))
    } else if is_number_token(t) || is_bool_token(t) || is_null_token(t) {
        None
    } else {
        Some(t)
    }
}

/// Decodes a scalar as a string, per [`str_of_token`].
pub fn str_of_token_exec(t: &Vec<char>) -> (r: Option<Vec<char>>)
    ensures
        match r {
            Some(v) => str_of_token(t@) == Some(v@),
            None => str_of_token(t@) is None,
        },
{
    let n = t.len();
    if n >= 2 && ((t[0] == '"' && t[n - 1] == '"') || (t[0] == '\'' && t[n - 1] == '\'')) {
        let inner = crate::record::copy_range(t, 1, n - 1);
        proof {
            assert(inner@ =~= unquote(t@));
        }
        return Some(inner);
    }
    proof {
        assert(t@.subrange(0, t@.len() as int) =~= t@);
    }
    if is_int_token_exec(t, 0, n) || is_float_token_exec(t, 0, n) || is_bool_token_exec(t, 0, n)
        || is_null_token_exec(t, 0, n) {
        return None;
    }
    Some(crate::chars::clone_chars(t))
}

} // verus!

verus! {

use crate::reference::{decode_fileref, fileref_default, fileref_spec, FileReference, FileRefV};
use crate::scalar::{parse_i64_chars, parse_i64_spec, parse_u64_chars, parse_u64_spec};
use crate::record::fields_view;

/// The inline pairs of a whole value, when it is shaped `{ ... }`.
pub fn parse_inline_exec(v: &Vec<char>) -> (r: Option<Vec<(Vec<char>, Vec<char>)>>)
    ensures
        match r {
            Some(ps) => inline_pairs(v@) == Some(pairs_view(ps@)),
            None => inline_pairs(v@) is None,
        },
{
    let n = v.len();
    if n >= 2 && v[0] == '{' && v[n - 1] == '}' {
        proof {
            assert(v@.subrange(1, v@.len() - 1) =~= v@.subrange(1, n - 1 as int));
        }
        split_pairs_exec(v, 1, n - 1)
    } else {
        None
    }
}

/// The first field under one of the two names at the record level.
pub open spec fn field_of(
    fs: Seq<FieldV>,
    s: int,
    e: int,
    k1: Seq<char>,
    k2: Seq<char>,
) -> Option<FieldV> {
    match find_key_at(fs, s, e, 2, k1, k2) {
        Some(i) => Some(fs[i]),
        None => None,
    }
}

/// An integer field with a default: absent means the default, present
/// must parse as a decimal integer.
pub open spec fn i64_field(
    fs: Seq<FieldV>,
    s: int,
    e: int,
    k1: Seq<char>,
    k2: Seq<char>,
    def: i64,
) -> Option<i64> {
    match field_of(fs, s, e, k1, k2) {
        None => Some(def),
        Some(f) => parse_i64_spec(f.value),
    }
}

/// A required integer field: absent fails.
pub open spec fn i64_field_req(
    fs: Seq<FieldV>,
    s: int,
    e: int,
    k1: Seq<char>,
    k2: Seq<char>,
) -> Option<i64> {
    match field_of(fs, s, e, k1, k2) {
        None => None,
        Some(f) => parse_i64_spec(f.value),
    }
}

/// A numeric field kept as its raw token, with a default.
pub open spec fn num_field(
    fs: Seq<FieldV>,
    s: int,
    e: int,
    k1: Seq<char>,
    k2: Seq<char>,
    def: Seq<char>,
) -> Option<Seq<char>> {
    match field_of(fs, s, e, k1, k2) {
        None => Some(def),
        Some(f) => if is_number_token(f.value) {
            Some(f.value)
        } else {
            None
        },
    }
}

/// A required numeric field kept as its raw token.
pub open spec fn num_field_req(
    fs: Seq<FieldV>,
    s: int,
    e: int,
    k1: Seq<char>,
    k2: Seq<char>,
) -> Option<Seq<char>> {
    match field_of(fs, s, e, k1, k2) {
        None => None,
        Some(f) => if is_number_token(f.value) {
            Some(f.value)
        } else {
            None
        },
    }
}

/// A string field with a default.
pub open spec fn str_field(
    fs: Seq<FieldV>,
    s: int,
    e: int,
    k1: Seq<char>,
    k2: Seq<char>,
    def: Seq<char>,
) -> Option<Seq<char>> {
    match field_of(fs, s, e, k1, k2) {
        None => Some(def),
        Some(f) => str_of_token(f.value),
    }
}

/// A required string field.
pub open spec fn str_field_req(
    fs: Seq<FieldV>,
    s: int,
    e: int,
    k1: Seq<char>,
    k2: Seq<char>,
) -> Option<Seq<char>> {
    match field_of(fs, s, e, k1, k2) {
        None => None,
        Some(f) => str_of_token(f.value),
    }
}

/// A reference field holding an inline map, with the default reference
/// when absent.
pub open spec fn ref_field(
    fs: Seq<FieldV>,
    s: int,
    e: int,
    k1: Seq<char>,
    k2: Seq<char>,
) -> Option<FileRefV> {
    match field_of(fs, s, e, k1, k2) {
        None => Some(fileref_default()),
        Some(f) => match inline_pairs(f.value) {
            Some(ps) => fileref_spec(ps),
            None => None,
        },
    }
}

/// A required reference field holding an inline map.
pub open spec fn ref_field_req(
    fs: Seq<FieldV>,
    s: int,
    e: int,
    k1: Seq<char>,
    k2: Seq<char>,
) -> Option<FileRefV> {
    match field_of(fs, s, e, k1, k2) {
        None => None,
        Some(f) => match inline_pairs(f.value) {
            Some(ps) => fileref_spec(ps),
            None => None,
        },
    }
}

/// Looks a record-level field up, per [`field_of`].
pub fn field_of_exec<'a>(
    fields: &'a Vec<RawField>,
    start: usize,
    end: usize,
    k1: &str,
    k2: &str,
) -> (r: Option<&'a RawField>)
    requires
        start <= end <= fields@.len(),
    ensures
        ({
            let fs = fields_view(fields@);
            match r {
                Some(f) => field_of(fs, start as int, end as int, k1@, k2@) == Some(f@),
                None => field_of(fs, start as int, end as int, k1@, k2@) is None,
            }
        }),
{
    let ghost fs = fields_view(fields@);
    match find_key_exec(fields, start, end, 2, k1, k2) {
        Some(i) => {
            proof {
                assert(fs[i as int] == fields@[i as int]@);
            }
            Some(&fields[i])
        },
        None => None,
    }
}

/// Decodes an integer field, per [`i64_field`] / [`i64_field_req`].
pub fn i64_field_exec(
    fields: &Vec<RawField>,
    start: usize,
    end: usize,
    k1: &str,
    k2: &str,
    def: Option<i64>,
) -> (r: Option<i64>)
    requires
        start <= end <= fields@.len(),
    ensures
        ({
            let fs = fields_view(fields@);
            r == (match def {
                Some(d) => i64_field(fs, start as int, end as int, k1@, k2@, d),
                None => i64_field_req(fs, start as int, end as int, k1@, k2@),
            })
        }),
{
    match field_of_exec(fields, start, end, k1, k2) {
        None => def,
        Some(f) => {
            proof {
                assert(f.value@.subrange(0, f.value@.len() as int) =~= f.value@);
            }
            parse_i64_chars(&f.value, 0, f.value.len())
        },
    }
}

/// Decodes a numeric field as its raw token, per [`num_field`] /
/// [`num_field_req`].
pub fn num_field_exec(
    fields: &Vec<RawField>,
    start: usize,
    end: usize,
    k1: &str,
    k2: &str,
    def: Option<&str>,
) -> (r: Option<String>)
    requires
        start <= end <= fields@.len(),
    ensures
        ({
            let fs = fields_view(fields@);
            let sr = match def {
                Some(d) => num_field(fs, start as int, end as int, k1@, k2@, d@),
                None => num_field_req(fs, start as int, end as int, k1@, k2@),
            };
            match r {
                Some(v) => sr == Some(v@),
                None => sr is None,
            }
        }),
{
    match field_of_exec(fields, start, end, k1, k2) {
        None => match def {
            Some(d) => Some(String::from_str(d)),
            None => None,
        },
        Some(f) => {
            if crate::scalar::is_number_exec(&f.value) {
                Some(crate::chars::string_from_chars(&f.value))
            } else {
                None
            }
        },
    }
}

/// Decodes a string field, per [`str_field`] / [`str_field_req`].
pub fn str_field_exec(
    fields: &Vec<RawField>,
    start: usize,
    end: usize,
    k1: &str,
    k2: &str,
    def: Option<&str>,
) -> (r: Option<String>)
    requires
        start <= end <= fields@.len(),
    ensures
        ({
            let fs = fields_view(fields@);
            let sr = match def {
                Some(d) => str_field(fs, start as int, end as int, k1@, k2@, d@),
                None => str_field_req(fs, start as int, end as int, k1@, k2@),
            };
            match r {
                Some(v) => sr == Some(v@),
                None => sr is None,
            }
        }),
{
    match field_of_exec(fields, start, end, k1, k2) {
        None => match def {
            Some(d) => Some(String::from_str(d)),
            None => None,
        },
        Some(f) => match str_of_token_exec(&f.value) {
            Some(v) => Some(crate::chars::string_from_chars(&v)),
            None => None,
        },
    }
}

/// Decodes a reference field, per [`ref_field`] / [`ref_field_req`].
pub fn ref_field_exec(
    fields: &Vec<RawField>,
    start: usize,
    end: usize,
    k1: &str,
    k2: &str,
    required: bool,
) -> (r: Option<FileReference>)
    requires
        start <= end <= fields@.len(),
    ensures
        ({
            let fs = fields_view(fields@);
            let sr = if required {
                ref_field_req(fs, start as int, end as int, k1@, k2@)
            } else {
                ref_field(fs, start as int, end as int, k1@, k2@)
            };
            match r {
                Some(v) => sr == Some(v@),
                None => sr is None,
            }
        }),
{
    match field_of_exec(fields, start, end, k1, k2) {
        None => {
            if required {
                None
            } else {
                Some(crate::reference::default_fileref())
            }
        },
        Some(f) => match parse_inline_exec(&f.value) {
            Some(ps) => decode_fileref(&ps),
            None => None,
        },
    }
}

} // verus!

verus! {

use crate::math::{
    decode_quat, decode_vec3, quat_spec, vec3_spec, QuaternionV, UnityQuaternion, UnityVector3,
    Vector3V,
};
use crate::color::{color_spec, decode_color, ColorV, UnityColor};

/// A vector field holding an inline map, with a default when absent.
pub open spec fn vec3_field(
    fs: Seq<FieldV>,
    s: int,
    e: int,
    k1: Seq<char>,
    k2: Seq<char>,
    def: Vector3V,
) -> Option<Vector3V> {
    match field_of(fs, s, e, k1, k2) {
        None => Some(def),
        Some(f) => match inline_pairs(f.value) {
            Some(ps) => vec3_spec(ps),
            None => None,
        },
    }
}

/// A rotation field holding an inline map, with a default when absent.
pub open spec fn quat_field(
    fs: Seq<FieldV>,
    s: int,
    e: int,
    k1: Seq<char>,
    k2: Seq<char>,
    def: QuaternionV,
) -> Option<QuaternionV> {
    match field_of(fs, s, e, k1, k2) {
        None => Some(def),
        Some(f) => match inline_pairs(f.value) {
            Some(ps) => quat_spec(ps),
            None => None,
        },
    }
}

/// A required color field holding an inline map.
pub open spec fn color_field_req(
    fs: Seq<FieldV>,
    s: int,
    e: int,
    k1: Seq<char>,
    k2: Seq<char>,
) -> Option<ColorV> {
    match field_of(fs, s, e, k1, k2) {
        None => None,
        Some(f) => match inline_pairs(f.value) {
            Some(ps) => color_spec(ps),
            None => None,
        },
    }
}

/// Decodes a vector field, per [`vec3_field`].  The default is handed in
/// as a value whose view is the spec-level default.
pub fn vec3_field_exec(
    fields: &Vec<RawField>,
    start: usize,
    end: usize,
    k1: &str,
    k2: &str,
    def: UnityVector3,
) -> (r: Option<UnityVector3>)
    requires
        start <= end <= fields@.len(),
    ensures
        ({
            let fs = fields_view(fields@);
            let sr = vec3_field(fs, start as int, end as int, k1@, k2@, def@);
            match r {
                Some(v) => sr == Some(v@),
                None => sr is None,
            }
        }),
{
    match field_of_exec(fields, start, end, k1, k2) {
        None => Some(def),
        Some(f) => match parse_inline_exec(&f.value) {
            Some(ps) => decode_vec3(&ps),
            None => None,
        },
    }
}

/// Decodes a rotation field, per [`quat_field`].
pub fn quat_field_exec(
    fields: &Vec<RawField>,
    start: usize,
    end: usize,
    k1: &str,
    k2: &str,
    def: UnityQuaternion,
) -> (r: Option<UnityQuaternion>)
    requires
        start <= end <= fields@.len(),
    ensures
        ({
            let fs = fields_view(fields@);
            let sr = quat_field(fs, start as int, end as int, k1@, k2@, def@);
            match r {
                Some(v) => sr == Some(v@),
                None => sr is None,
            }
        }),
{
    match field_of_exec(fields, start, end, k1, k2) {
        None => Some(def),
        Some(f) => match parse_inline_exec(&f.value) {
            Some(ps) => decode_quat(&ps),
            None => None,
        },
    }
}

/// Decodes a required color field, per [`color_field_req`].
pub fn color_field_exec(fields: &Vec<RawField>, start: usize, end: usize, k1: &str, k2: &str) -> (r:
    Option<UnityColor>)
    requires
        start <= end <= fields@.len(),
    ensures
        ({
            let fs = fields_view(fields@);
            let sr = color_field_req(fs, start as int, end as int, k1@, k2@);
            match r {
                Some(v) => sr == Some(v@),
                None => sr is None,
            }
        }),
{
    match field_of_exec(fields, start, end, k1, k2) {
        None => None,
        Some(f) => match parse_inline_exec(&f.value) {
            Some(ps) => decode_color(&ps),
            None => None,
        },
    }
}

// ---------------------------------------------------------------------------
// Lists of references.
// ---------------------------------------------------------------------------
/// The single-line items of a reference list: each is an item line at
/// indent `d` under `item_key` (empty for bare items) holding an inline
/// reference.  The list ends at the next field; a more deeply indented
/// stray line fails it.
pub open spec fn ref_items(
    fs: Seq<FieldV>,
    i: int,
    end: int,
    d: nat,
    item_key: Seq<char>,
) -> Option<Seq<FileRefV>>
    decreases end - i when i <= end
{
    if i >= end {
        Some(Seq::empty())
    } else if fs[i].indent == d && fs[i].item {
        if fs[i].key == item_key {
            match inline_pairs(fs[i].value) {
                Some(ps) => match fileref_spec(ps) {
                    Some(fr) => match ref_items(fs, i + 1, end, d, item_key) {
                        Some(r) => Some(seq![fr] + r),
                        None => None,
                    },
                    None => None,
                },
                None => None,
            }
        } else {
            None
        }
    } else if fs[i].indent > d {
        None
    } else {
        Some(Seq::empty())
    }
}

pub open spec fn refs_view(rs: Seq<FileReference>) -> Seq<FileRefV> {
    rs.map_values(|r: FileReference| r@)
}

/// Collects the items of a reference list, per [`ref_items`].
pub fn ref_items_exec(
    fields: &Vec<RawField>,
    from: usize,
    end: usize,
    d: usize,
    item_key: &str,
) -> (r: Option<Vec<FileReference>>)
    requires
        from <= end <= fields@.len(),
    ensures
        ({
            let fs = fields_view(fields@);
            match r {
                Some(rs) => ref_items(fs, from as int, end as int, d as nat, item_key@) == Some(
                    refs_view(rs@),
                ),
                None => ref_items(fs, from as int, end as int, d as nat, item_key@) is None,
            }
        }),
    decreases end - from,
{
    let ghost fs = fields_view(fields@);
    proof {
        assert(fs.len() == fields@.len());
    }
    if from == end {
        let rs: Vec<FileReference> = Vec::new();
        proof {
            assert(refs_view(rs@) =~= Seq::<FileRefV>::empty());
        }
        return Some(rs);
    }
    let f = &fields[from];
    proof {
        assert(fs[from as int] == fields@[from as int]@);
    }
    if f.indent == d && f.item {
        let kl = f.key.len();
        proof {
            assert(f.key@.subrange(0, f.key@.len() as int) =~= f.key@);
        }
        if !range_eq_str(&f.key, 0, kl, item_key) {
            return None;
        }
        let ps = match parse_inline_exec(&f.value) {
            Some(ps) => ps,
            None => {
                return None;
            },
        };
        let fr = match decode_fileref(&ps) {
            Some(fr) => fr,
            None => {
                return None;
            },
        };
        match ref_items_exec(fields, from + 1, end, d, item_key) {
            Some(rest) => {
                let ghost restv = refs_view(rest@);
                let mut rs = rest;
                rs.insert(0, fr);
                proof {
                    assert(refs_view(rs@) =~= seq![fr@] + restv);
                }
                Some(rs)
            },
            None => None,
        }
    } else if f.indent > d {
        None
    } else {
        let rs: Vec<FileReference> = Vec::new();
        proof {
            assert(refs_view(rs@) =~= Seq::<FileRefV>::empty());
        }
        Some(rs)
    }
}

/// A reference-list field: absent means empty (or fails when required);
/// `[]` means empty; an opened block holds the items.
pub open spec fn ref_list_field(
    fs: Seq<FieldV>,
    s: int,
    e: int,
    k1: Seq<char>,
    k2: Seq<char>,
    item_key: Seq<char>,
    required: bool,
) -> Option<Seq<FileRefV>> {
    match find_key_at(fs, s, e, 2, k1, k2) {
        None => if required {
            None
        } else {
            Some(Seq::empty())
        },
        Some(i) => {
            let f = fs[i];
            if f.value == "[]"@ {
                Some(Seq::empty())
            } else if f.value.len() == 0 {
                ref_items(fs, i + 1, e, 2, item_key)
            } else {
                None
            }
        },
    }
}

/// Decodes a reference-list field, per [`ref_list_field`].
pub fn ref_list_field_exec(
    fields: &Vec<RawField>,
    start: usize,
    end: usize,
    k1: &str,
    k2: &str,
    item_key: &str,
    required: bool,
) -> (r: Option<Vec<FileReference>>)
    requires
        start <= end <= fields@.len(),
    ensures
        ({
            let fs = fields_view(fields@);
            let sr = ref_list_field(
                fs,
                start as int,
                end as int,
                k1@,
                k2@,
                item_key@,
                required,
            );
            match r {
                Some(rs) => sr == Some(refs_view(rs@)),
                None => sr is None,
            }
        }),
{
    let ghost fs = fields_view(fields@);
    match find_key_exec(fields, start, end, 2, k1, k2) {
        None => {
            if required {
                None
            } else {
                let rs: Vec<FileReference> = Vec::new();
                proof {
                    assert(refs_view(rs@) =~= Seq::<FileRefV>::empty());
                }
                Some(rs)
            }
        },
        Some(i) => {
            let f = &fields[i];
            proof {
                assert(fs[i as int] == fields@[i as int]@);
                assert(f.value@.subrange(0, f.value@.len() as int) =~= f.value@);
            }
            let vl = f.value.len();
            if range_eq_str(&f.value, 0, vl, "[]") {
                let rs: Vec<FileReference> = Vec::new();
                proof {
                    assert(refs_view(rs@) =~= Seq::<FileRefV>::empty());
                }
                Some(rs)
            } else if vl == 0 {
                ref_items_exec(fields, i + 1, end, 2, item_key)
            } else {
                None
            }
        },
    }
}

} // verus!

verus! {

/// A required integer living one level down: under `k` either as a nested
/// block entry named `sub`, or inside an inline map under `sub`.
pub open spec fn nested_i64_field_req(
    fs: Seq<FieldV>,
    s: int,
    e: int,
    k: Seq<char>,
    sub: Seq<char>,
) -> Option<i64> {
    match find_key_at(fs, s, e, 2, k, k) {
        None => None,
        Some(i) => {
            let f = fs[i];
            if f.value.len() == 0 {
                let be = block_end(fs, i + 1, e, 2);
                match find_key_at(fs, i + 1, be, 4, sub, sub) {
                    None => None,
                    Some(j) => parse_i64_spec(fs[j].value),
                }
            } else {
                match inline_pairs(f.value) {
                    Some(ps) => match pair_value(ps, sub) {
                        Some(t) => parse_i64_spec(t),
                        None => None,
                    },
                    None => None,
                }
            }
        },
    }
}

/// Decodes a required nested integer, per [`nested_i64_field_req`].
pub fn nested_i64_field_exec(
    fields: &Vec<RawField>,
    start: usize,
    end: usize,
    k: &str,
    sub: &str,
) -> (r: Option<i64>)
    requires
        start <= end <= fields@.len(),
    ensures
        ({
            let fs = fields_view(fields@);
            r == nested_i64_field_req(fs, start as int, end as int, k@, sub@)
        }),
{
    let ghost fs = fields_view(fields@);
    let i = match find_key_exec(fields, start, end, 2, k, k) {
        Some(i) => i,
        None => {
            return None;
        },
    };
    let f = &fields[i];
    proof {
        assert(fs[i as int] == fields@[i as int]@);
    }
    if f.value.len() == 0 {
        let be = block_end_exec(fields, i + 1, end, 2);
        let j = match find_key_exec(fields, i + 1, be, 4, sub, sub) {
            Some(j) => j,
            None => {
                return None;
            },
        };
        let g = &fields[j];
        proof {
            assert(fs[j as int] == fields@[j as int]@);
            assert(g.value@.subrange(0, g.value@.len() as int) =~= g.value@);
        }
        parse_i64_chars(&g.value, 0, g.value.len())
    } else {
        let ps = match parse_inline_exec(&f.value) {
            Some(ps) => ps,
            None => {
                return None;
            },
        };
        let t = match pair_value_exec(&ps, sub) {
            Some(t) => t,
            None => {
                return None;
            },
        };
        proof {
            assert(t@.subrange(0, t@.len() as int) =~= t@);
        }
        parse_i64_chars(t, 0, t.len())
    }
}

/// Turns a decoded integer into an `i32` when it fits.
pub open spec fn as_i32(r: Option<i64>) -> Option<i32> {
    match r {
        Some(v) => if i32::MIN <= v <= i32::MAX {
            Some(v as i32)
        } else {
            None
        },
        None => None,
    }
}

/// Range-checks an integer into an `i32`, per [`as_i32`].
pub fn as_i32_exec(r: Option<i64>) -> (o: Option<i32>)
    ensures
        o == as_i32(r),
{
    match r {
        Some(v) => {
            if v >= i32::MIN as i64 && v <= i32::MAX as i64 {
                Some(v as i32)
            } else {
                None
            }
        },
        None => None,
    }
}

} // verus!

verus! {

/// End of a nested map block: the run of lines more deeply indented than
/// `d`.
pub open spec fn map_block_end(fs: Seq<FieldV>, i: int, end: int, d: nat) -> int
    decreases end - i when i <= end
{
    if i >= end {
        end
    } else if fs[i].indent > d {
        map_block_end(fs, i + 1, end, d)
    } else {
        i
    }
}

/// Scans for the end of a nested map block, per [`map_block_end`].
pub fn map_block_end_exec(fields: &Vec<RawField>, from: usize, end: usize, d: usize) -> (r: usize)
    requires
        from <= end <= fields@.len(),
    ensures
        ({
            let fs = fields_view(fields@);
            &&& from <= r <= end
            &&& r as int == map_block_end(fs, from as int, end as int, d as nat)
        }),
{
    let ghost fs = fields_view(fields@);
    proof {
        assert(fs.len() == fields@.len());
    }
    let mut i = from;
    while i < end
        invariant
            from <= i <= end <= fields@.len(),
            fs == fields_view(fields@),
            map_block_end(fs, from as int, end as int, d as nat) == map_block_end(
                fs,
                i as int,
                end as int,
                d as nat,
            ),
        decreases end - i,
    {
        let f = &fields[i];
        proof {
            assert(fs[i as int] == fields@[i as int]@);
        }
        if !(f.indent > d) {
            return i;
        }
        i = i + 1;
    }
    i
}

} // verus!
