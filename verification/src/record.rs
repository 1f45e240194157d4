//! Tokenizing normalized documents into records.
//!
//! A normalized document is a sequence of lines.  Each non-blank line is
//! tokenized into a [`RawField`]: its indentation, whether it opens a list
//! item (`- `), a key and a raw scalar value.  Records are the runs of
//! lines between top-level (indent zero) id lines.

use vstd::prelude::*;

use crate::chars::append_range;
use crate::scalar::{parse_i64_spec, parse_i64_chars};

verus! {

/// One tokenized line of a normalized document.
pub struct RawField {
    /// Number of leading spaces.
    pub indent: usize,
    /// Whether the line opens a list item (`- ` after the indent).
    pub item: bool,
    /// The mapping key, empty for bare values.
    pub key: Vec<char>,
    /// The raw scalar or inline value, empty when a block follows.
    pub value: Vec<char>,
    /// The whole line as it stood in the document.
    pub raw: Vec<char>,
}

/// Specification image of a tokenized line.
pub struct FieldV {
    pub indent: nat,
    pub item: bool,
    pub key: Seq<char>,
    pub value: Seq<char>,
    pub raw: Seq<char>,
}

impl View for RawField {
    type V = FieldV;

    open spec fn view(&self) -> FieldV {
        FieldV {
            indent: self.indent as nat,
            item: self.item,
            key: self.key@,
            value: self.value@,
            raw: self.raw@,
        }
    }
}

pub open spec fn fields_view(fs: Seq<RawField>) -> Seq<FieldV> {
    fs.map_values(|f: RawField| f@)
}

/// The first position at or after `i` holding something other than a
/// space, or the line's end.
pub open spec fn find_nonspace(l: Seq<char>, i: int) -> int
    decreases l.len() - i when 0 <= i <= l.len()
{
    if i >= l.len() {
        l.len() as int
    } else if l[i] == ' ' {
        find_nonspace(l, i + 1)
    } else {
        i
    }
}

/// The first position at or after `i` where `": "` occurs, or the line's
/// end.
pub open spec fn find_colon_sp(l: Seq<char>, i: int) -> int
    decreases l.len() - i when 0 <= i <= l.len()
{
    if i >= l.len() {
        l.len() as int
    } else if l[i] == ':' && i + 1 < l.len() && l[i + 1] == ' ' {
        i
    } else {
        find_colon_sp(l, i + 1)
    }
}

/// How one line tokenizes: indentation, list-item marker, then either a
/// bare inline value (`{`/`[`), a `key: value` split at the first `": "`,
/// a `key:` opening a block, or a bare scalar.
pub open spec fn tokenize_spec(l: Seq<char>) -> FieldV {
    let ind = find_nonspace(l, 0);
    let item = l.len() >= ind + 2 && l[ind] == '-' && l[ind + 1] == ' ';
    let b = if item {
        ind + 2
    } else {
        ind
    };
    let rest = l.skip(b);
    if rest.len() > 0 && (rest[0] == '{' || rest[0] == '[') {
        FieldV { indent: ind as nat, item, key: Seq::empty(), value: rest, raw: l }
    } else {
        let c = find_colon_sp(rest, 0);
        if c < rest.len() {
            FieldV {
                indent: ind as nat,
                item,
                key: rest.take(c),
                value: rest.skip(c + 2),
                raw: l,
            }
        } else if rest.len() > 0 && rest.last() == ':' {
            FieldV { indent: ind as nat, item, key: rest.drop_last(), value: Seq::empty(), raw: l }
        } else {
            FieldV { indent: ind as nat, item, key: Seq::empty(), value: rest, raw: l }
        }
    }
}

/// A blank line: empty, or spaces only.
pub open spec fn is_blank(l: Seq<char>) -> bool {
    find_nonspace(l, 0) == l.len()
}

pub fn copy_range(v: &Vec<char>, from: usize, to: usize) -> (r: Vec<char>)
    requires
        from <= to <= v@.len(),
    ensures
        r@ == v@.subrange(from as int, to as int),
{
    let mut r: Vec<char> = Vec::new();
    append_range(&mut r, v, from, to);
    r
}

/// Tokenizes one line, per [`tokenize_spec`].
pub fn tokenize_line(l: Vec<char>) -> (r: RawField)
    ensures
        r@ == tokenize_spec(l@),
{
    let n = l.len();
    let mut i: usize = 0;
    while i < n && l[i] == ' '
        invariant
            i <= n == l@.len(),
            find_nonspace(l@, 0) == find_nonspace(l@, i as int),
        decreases n - i,
    {
        i = i + 1;
    }
    assert(find_nonspace(l@, 0) == i as int);
    let ind = i;
    let item = n - ind >= 2 && l[ind] == '-' && l[ind + 1] == ' ';
    let b = if item {
        ind + 2
    } else {
        ind
    };
    let ghost rest = l@.skip(b as int);
    assert(rest =~= l@.subrange(b as int, n as int));
    if b < n && (l[b] == '{' || l[b] == '[') {
        let value = copy_range(&l, b, n);
        return RawField { indent: ind, item, key: Vec::new(), value, raw: l };
    }
    let mut c: usize = b;
    while c < n && !(l[c] == ':' && c + 1 < n && l[c + 1] == ' ')
        invariant
            b <= c <= n == l@.len(),
            rest == l@.skip(b as int),
            find_colon_sp(rest, 0) == find_colon_sp(rest, c - b),
        decreases n - c,
    {
        proof {
            assert(rest[c - b] == l@[c as int]);
            assert(c + 1 < n ==> rest[c - b + 1] == l@[c + 1 as int]);
        }
        c = c + 1;
    }
    proof {
        if c < n {
            assert(rest[c - b] == l@[c as int]);
            assert(rest[c - b + 1] == l@[c + 1 as int]);
        }
        assert(find_colon_sp(rest, 0) == c - b);
    }
    if c < n {
        let key = copy_range(&l, b, c);
        let value = copy_range(&l, c + 2, n);
        proof {
            assert(key@ =~= rest.take(c - b));
            assert(value@ =~= rest.skip(c - b + 2));
        }
        RawField { indent: ind, item, key, value, raw: l }
    } else if n > b && l[n - 1] == ':' {
        proof {
            assert(rest.last() == l@[n - 1]);
        }
        let key = copy_range(&l, b, n - 1);
        proof {
            assert(key@ =~= rest.drop_last());
        }
        RawField { indent: ind, item, key, value: Vec::new(), raw: l }
    } else {
        let value = copy_range(&l, b, n);
        RawField { indent: ind, item, key: Vec::new(), value, raw: l }
    }
}

} // verus!

verus! {

/// A top-level id line: indent zero, no item marker, no inline value, and
/// a key that parses as a decimal object id.
pub open spec fn is_id_line(f: FieldV) -> bool {
    f.indent == 0 && !f.item && f.value.len() == 0 && parse_i64_spec(f.key) is Some
}

/// Positions of the top-level lines, each of which opens a record.
pub open spec fn record_starts(fs: Seq<FieldV>) -> Seq<int>
    decreases fs.len(),
{
    if fs.len() == 0 {
        Seq::empty()
    } else {
        record_starts(fs.drop_last()) + if fs.last().indent == 0 {
            seq![fs.len() - 1]
        } else {
            Seq::empty()
        }
    }
}

/// A well-grouped document: it opens with a top-level line, and every
/// top-level line is an id line.
pub open spec fn grouped_ok(fs: Seq<FieldV>) -> bool {
    &&& fs.len() > 0 ==> fs[0].indent == 0
    &&& forall|j: int| 0 <= j < fs.len() && (#[trigger] fs[j]).indent == 0 ==> is_id_line(fs[j])
}

/// One record: its object id and the token range holding its body.
pub struct RecordSpan {
    pub id: i64,
    pub start: usize,
    pub end: usize,
}

/// The `k`-th record spans from its id line to the next id line (or the
/// document's end) and carries the id its key parses to.
pub open spec fn span_ok(fs: Seq<FieldV>, starts: Seq<int>, k: int, sp: RecordSpan) -> bool {
    &&& sp.start as int == starts[k]
    &&& sp.end as int == if k + 1 < starts.len() {
        starts[k + 1]
    } else {
        fs.len() as int
    }
    &&& Some(sp.id) == parse_i64_spec(fs[starts[k]].key)
}

pub proof fn lemma_record_starts_bounds_pub(fs: Seq<FieldV>, k: int)
    requires
        0 <= k < record_starts(fs).len(),
    ensures
        0 <= record_starts(fs)[k] < fs.len(),
        k + 1 < record_starts(fs).len() ==> record_starts(fs)[k] < record_starts(fs)[k + 1],
    decreases fs.len(),
{
    if fs.len() > 0 {
        let pre = record_starts(fs.drop_last());
        if k < pre.len() {
            lemma_record_starts_bounds_pub(fs.drop_last(), k);
            if k + 1 < pre.len() {
                lemma_record_starts_bounds_pub(fs.drop_last(), k + 1);
            }
        }
    }
}

/// Groups the tokenized lines into records, one per top-level id line.
/// Fails exactly when the lines are not well grouped.
pub fn group_records(fields: &Vec<RawField>) -> (r: Option<Vec<RecordSpan>>)
    ensures
        match r {
            Some(spans) => {
                let fs = fields_view(fields@);
                let starts = record_starts(fs);
                &&& grouped_ok(fs)
                &&& spans@.len() == starts.len()
                &&& forall|k: int|
                    0 <= k < starts.len() ==> span_ok(fs, starts, k, #[trigger] spans@[k])
            },
            None => !grouped_ok(fields_view(fields@)),
        },
{
    let ghost fs = fields_view(fields@);
    let n = fields.len();
    proof {
        assert(fs.len() == fields@.len());
    }
    let mut spans: Vec<RecordSpan> = Vec::new();
    let mut cur: Option<(i64, usize)> = None;
    let mut j: usize = 0;
    while j < n
        invariant
            j <= n == fields@.len(),
            fs == fields_view(fields@),
            grouped_ok(fs.take(j as int)),
            ({
                let starts = record_starts(fs.take(j as int));
                &&& (match cur {
                    Some((id, st)) => {
                        &&& starts.len() > 0
                        &&& st as int == starts.last()
                        &&& st < j
                        &&& Some(id) == parse_i64_spec(fs[st as int].key)
                        &&& spans@.len() == starts.len() - 1
                    },
                    None => starts.len() == 0 && spans@.len() == 0 && j == 0,
                })
                &&& forall|k: int|
                    0 <= k < spans@.len() ==> span_ok(fs.take(j as int), starts, k, #[trigger] spans@[k])
            }),
        decreases n - j,
    {
        let ghost starts = record_starts(fs.take(j as int));
        proof {
            assert(fs.take(j + 1 as int).drop_last() =~= fs.take(j as int));
            assert(fs[j as int] == fields@[j as int]@);
        }
        let ghost starts2 = record_starts(fs.take(j + 1 as int));
        let f = &fields[j];
        if f.indent == 0 {
            proof {
                assert(starts2 =~= starts.push(j as int));
            }
            let klen = f.key.len();
            let id = if f.item || f.value.len() > 0 {
                None
            } else {
                proof {
                    assert(f.key@.subrange(0, f.key@.len() as int) =~= f.key@);
                }
                parse_i64_chars(&f.key, 0, klen)
            };
            match id {
                Some(id) => {
                    match cur {
                        Some((pid, pst)) => {
                            spans.push(RecordSpan { id: pid, start: pst, end: j });
                            proof {
                                assert forall|k: int| 0 <= k < spans@.len() implies span_ok(
                                    fs.take(j + 1 as int),
                                    starts2,
                                    k,
                                    #[trigger] spans@[k],
                                ) by {
                                    if k < spans@.len() - 1 {
                                        assert(span_ok(fs.take(j as int), starts, k, spans@[k]));
                                        assert(starts2[k] == starts[k]);
                                        assert(starts2[k + 1] == starts[k + 1]);
                                        assert(fs.take(j as int)[starts[k]] == fs.take(
                                            j + 1 as int,
                                        )[starts[k]]) by {
                                            lemma_record_starts_bounds_pub(fs.take(j as int), k);
                                        }
                                    } else {
                                        assert(starts2[k] == starts.last());
                                        assert(starts2[k + 1] == j as int);
                                        assert(fs.take(j as int)[pst as int] == fs.take(
                                            j + 1 as int,
                                        )[pst as int]);
                                    }
                                }
                            }
                        },
                        None => {},
                    }
                    cur = Some((id, j));
                    proof {
                        assert(is_id_line(fs[j as int]));
                        assert(grouped_ok(fs.take(j + 1 as int))) by {
                            assert(forall|x: int|
                                0 <= x < j ==> fs.take(j + 1 as int)[x] == #[trigger] fs.take(
                                    j as int,
                                )[x]);
                        }
                        assert(fs.take(j + 1 as int)[j as int] == fs[j as int]);
                    }
                },
                None => {
                    proof {
                        assert(fs[j as int].indent == 0 && !is_id_line(fs[j as int]));
                        assert(!grouped_ok(fs));
                    }
                    return None;
                },
            }
        } else {
            proof {
                assert(starts2 =~= starts);
                if j == 0 {
                    assert(fs.take(1)[0] == fs[0]);
                    assert(!grouped_ok(fs)) by {
                        assert(fs[0].indent != 0);
                    }
                }
            }
            if j == 0 {
                return None;
            }
            proof {
                assert(grouped_ok(fs.take(j + 1 as int))) by {
                    assert(forall|x: int|
                        0 <= x <= j ==> fs.take(j + 1 as int)[x] == #[trigger] fs[x]);
                    assert(forall|x: int|
                        0 <= x < j ==> fs.take(j as int)[x] == #[trigger] fs[x]);
                }
                assert forall|k: int| 0 <= k < spans@.len() implies span_ok(
                    fs.take(j + 1 as int),
                    starts2,
                    k,
                    #[trigger] spans@[k],
                ) by {
                    assert(span_ok(fs.take(j as int), starts, k, spans@[k]));
                    lemma_record_starts_bounds_pub(fs.take(j as int), k);
                }
            }
        }
        j = j + 1;
    }
    proof {
        assert(fs.take(n as int) =~= fs);
    }
    match cur {
        Some((pid, pst)) => {
            spans.push(RecordSpan { id: pid, start: pst, end: n });
            proof {
                let starts = record_starts(fs);
                assert forall|k: int| 0 <= k < starts.len() implies span_ok(
                    fs,
                    starts,
                    k,
                    #[trigger] spans@[k],
                ) by {
                    lemma_record_starts_bounds_pub(fs, k);
                }
            }
            Some(spans)
        },
        None => {
            let spans: Vec<RecordSpan> = Vec::new();
            Some(spans)
        },
    }
}

} // verus!
