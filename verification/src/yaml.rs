//! Normalizer for the editor's scene dialect.
//!
//! The raw documents use two non-standard conventions: leading directive
//! lines (`%YAML`, `%TAG`) that must be discarded, and document separators
//! `--- !u!<typeNumber> &<objectId>` followed by an unindented type-name
//! line.  [`cleanup_unity_yaml`] rewrites such a document into one standard
//! mapping whose top-level keys are object ids and whose values carry an
//! `object_type` discriminator.

use vstd::prelude::*;

use crate::chars::{
    append_range, append_str, chars_of, clone_chars, has_prefix, starts_with, string_from_chars,
};
use crate::scalar::{parse_u64_chars, parse_u64_spec, u64_dec_str, u64_to_chars};

verus! {

// ---------------------------------------------------------------------------
// The line model: how a document is cut into lines.
// ---------------------------------------------------------------------------
/// A line with a trailing carriage return removed.
pub open spec fn strip_cr(l: Seq<char>) -> Seq<char> {
    if l.len() > 0 && l.last() == '\r' {
        l.drop_last()
    } else {
        l
    }
}

/// `s` split at every newline; always at least one (possibly empty) piece.
pub open spec fn split_nl(s: Seq<char>) -> Seq<Seq<char>>
    decreases s.len(),
{
    if s.len() == 0 {
        seq![Seq::<char>::empty()]
    } else {
        let parts = split_nl(s.drop_last());
        if s.last() == '\n' {
            parts.push(Seq::<char>::empty())
        } else {
            parts.drop_last().push(parts.last().push(s.last()))
        }
    }
}

/// Every line of `ss` with its trailing carriage return removed.
pub open spec fn strip_all(ss: Seq<Seq<char>>) -> Seq<Seq<char>> {
    ss.map_values(|l: Seq<char>| strip_cr(l))
}

/// The lines of `s` as `str::lines` yields them: pieces between newlines,
/// no empty piece after a trailing newline, carriage returns stripped.
pub open spec fn doc_lines(s: Seq<char>) -> Seq<Seq<char>> {
    let parts = if s.len() == 0 {
        Seq::<Seq<char>>::empty()
    } else if s.last() == '\n' {
        split_nl(s).drop_last()
    } else {
        split_nl(s)
    };
    strip_all(parts)
}

pub open spec fn views(ss: Seq<Vec<char>>) -> Seq<Seq<char>> {
    ss.map_values(|v: Vec<char>| v@)
}

fn strip_cr_vec(cur: Vec<char>) -> (r: Vec<char>)
    ensures
        r@ == strip_cr(cur@),
{
    let mut c = cur;
    let ghost orig = c@;
    if c.len() > 0 && c[c.len() - 1] == '\r' {
        c.pop();
        proof {
            assert(c@ =~= strip_cr(orig));
        }
    }
    c
}

/// Cuts `v` into lines, per [`doc_lines`].
pub fn split_into_lines(v: &Vec<char>) -> (r: Vec<Vec<char>>)
    ensures
        views(r@) == doc_lines(v@),
{
    let n = v.len();
    let mut done: Vec<Vec<char>> = Vec::new();
    let mut cur: Vec<char> = Vec::new();
    let mut j: usize = 0;
    while j < n
        invariant
            j <= n == v@.len(),
            views(done@) =~= strip_all(split_nl(v@.take(j as int)).drop_last()),
            cur@ == split_nl(v@.take(j as int)).last(),
        decreases n - j,
    {
        let ghost parts = split_nl(v@.take(j as int));
        proof {
            assert(v@.take(j + 1 as int).drop_last() =~= v@.take(j as int));
        }
        let c = v[j];
        if c == '\n' {
            let finished = strip_cr_vec(cur);
            let ghost prev = done@;
            done.push(finished);
            cur = Vec::new();
            proof {
                let parts2 = split_nl(v@.take(j + 1 as int));
                assert(parts2 == parts.push(Seq::<char>::empty()));
                assert(parts2.drop_last() =~= parts);
                assert(done@ == prev.push(finished));
                assert(views(prev).len() == prev.len());
                assert(strip_all(parts.drop_last()).len() == parts.len() - 1);
                assert(prev.len() == parts.len() - 1);
                assert(views(done@).len() == parts.len());
                assert forall|i: int| 0 <= i < parts.len() implies views(done@)[i]
                    == strip_all(parts)[i] by {
                    if i < parts.len() - 1 {
                        assert(views(done@)[i] == done@[i]@);
                        assert(done@[i] == prev[i]);
                        assert(prev[i]@ == views(prev)[i]);
                        assert(views(prev)[i] == strip_all(parts.drop_last())[i]);
                        assert(strip_all(parts.drop_last())[i] == strip_cr(parts.drop_last()[i]));
                        assert(parts.drop_last()[i] == parts[i]);
                    } else {
                        assert(views(done@)[i] == finished@);
                        assert(parts[i] == parts.last());
                    }
                }
                assert(views(done@).len() == parts.len());
                assert(views(done@) =~= strip_all(parts));
            }
        } else {
            cur.push(c);
            proof {
                let parts2 = split_nl(v@.take(j + 1 as int));
                assert(parts2 == parts.drop_last().push(parts.last().push(c)));
                assert(parts2.drop_last() =~= parts.drop_last());
            }
        }
        j = j + 1;
    }
    proof {
        assert(v@.take(n as int) =~= v@);
    }
    if n > 0 && v[n - 1] != '\n' {
        let finished = strip_cr_vec(cur);
        let ghost prev = done@;
        done.push(finished);
        proof {
            let parts = split_nl(v@);
            assert(done@ == prev.push(finished));
            assert forall|i: int| 0 <= i < parts.len() implies views(done@)[i]
                == strip_all(parts)[i] by {
                if i < parts.len() - 1 {
                    assert(views(done@)[i] == done@[i]@);
                    assert(done@[i] == prev[i]);
                    assert(prev[i]@ == views(prev)[i]);
                    assert(views(prev)[i] == strip_all(parts.drop_last())[i]);
                    assert(strip_all(parts.drop_last())[i] == strip_cr(parts.drop_last()[i]));
                    assert(parts.drop_last()[i] == parts[i]);
                } else {
                    assert(views(done@)[i] == finished@);
                    assert(parts[i] == parts.last());
                }
            }
            assert(views(done@).len() == parts.len());
            assert(views(done@) =~= strip_all(parts));
        }
    } else {
        proof {
            if n == 0 {
                assert(views(done@) =~= doc_lines(v@));
            }
        }
    }
    done
}

} // verus!

verus! {

// ---------------------------------------------------------------------------
// Rewriting one line.
// ---------------------------------------------------------------------------
/// Whitespace as it separates tokens on a separator line.
pub open spec fn is_sep_ws(c: char) -> bool {
    c == ' ' || c == '\t'
}

/// An object-id token starts at `i`: an ampersand opening a
/// whitespace-delimited token.
pub open spec fn is_amp_start(l: Seq<char>, i: int) -> bool {
    l[i] == '&' && (i == 0 || is_sep_ws(l[i - 1]))
}

/// The first position in `l[i..]` where an object-id token starts.
pub open spec fn find_amp(l: Seq<char>, i: int) -> Option<int>
    decreases l.len() - i when 0 <= i <= l.len()
{
    if i >= l.len() {
        None
    } else if is_amp_start(l, i) {
        Some(i)
    } else {
        find_amp(l, i + 1)
    }
}

/// The first position at or after `i` holding whitespace, or the line's end.
pub open spec fn find_ws(l: Seq<char>, i: int) -> int
    decreases l.len() - i when 0 <= i <= l.len()
{
    if i >= l.len() {
        l.len() as int
    } else if is_sep_ws(l[i]) {
        i
    } else {
        find_ws(l, i + 1)
    }
}

/// The object id on a separator line: the digits of the first
/// whitespace-delimited token that starts with `&`, parsed as decimal.
pub open spec fn sep_object_id(l: Seq<char>) -> Option<u64> {
    match find_amp(l, 0) {
        Some(i) => parse_u64_spec(l.subrange(i + 1, find_ws(l, i + 1))),
        None => None,
    }
}

/// `l` with every colon removed.
pub open spec fn remove_colons(l: Seq<char>) -> Seq<char>
    decreases l.len(),
{
    if l.len() == 0 {
        l
    } else {
        let r = remove_colons(l.drop_last());
        if l.last() == ':' {
            r
        } else {
            r.push(l.last())
        }
    }
}

/// A directive line, to be discarded.
pub open spec fn is_directive_line(l: Seq<char>) -> bool {
    starts_with(l, "%YAML"@) || starts_with(l, "%TAG"@)
}

/// A document separator line carrying type number and object id.
pub open spec fn is_separator_line(l: Seq<char>) -> bool {
    starts_with(l, "--- !u!"@)
}

/// A top-level line rewritten as an inline type declaration: the
/// fallback every dialect violation degrades to.
pub open spec fn inline_decl(l: Seq<char>) -> Seq<char> {
    "  object_type: "@ + remove_colons(l)
}

/// What one raw line contributes to the normalized document: directives
/// vanish; a separator becomes `<objectId>:`, or degrades to the inline
/// fallback when no id can be read from it; indented lines pass through;
/// any other line is treated as an inline type declaration.
pub open spec fn norm_line(l: Seq<char>) -> Option<Seq<char>> {
    if is_directive_line(l) {
        None
    } else if is_separator_line(l) {
        match sep_object_id(l) {
            Some(id) => Some(u64_dec_str(id as nat).push(':')),
            None => Some(inline_decl(l)),
        }
    } else if l.len() > 0 && l[0] == ' ' {
        Some(l)
    } else {
        Some(inline_decl(l))
    }
}

pub open spec fn opt_view(r: Option<Vec<char>>) -> Option<Seq<char>> {
    match r {
        Some(v) => Some(v@),
        None => None,
    }
}

/// Scans for the start of the first `&`-token, per [`find_amp`].
fn find_amp_exec(l: &Vec<char>) -> (r: Option<usize>)
    ensures
        match r {
            Some(i) => i < l@.len() && find_amp(l@, 0) == Some(i as int),
            None => find_amp(l@, 0) is None,
        },
{
    let n = l.len();
    let mut i: usize = 0;
    while i < n
        invariant
            i <= n == l@.len(),
            find_amp(l@, 0) == find_amp(l@, i as int),
        decreases n - i,
    {
        if l[i] == '&' && (i == 0 || {
            let p = l[i - 1];
            p == ' ' || p == '\t'
        }) {
            return Some(i);
        }
        i = i + 1;
    }
    None
}

/// Scans for the first whitespace at or after `from`, per [`find_ws`].
fn find_ws_exec(l: &Vec<char>, from: usize) -> (r: usize)
    requires
        from <= l@.len(),
    ensures
        r as int == find_ws(l@, from as int),
        from <= r <= l@.len(),
{
    let n = l.len();
    let mut j: usize = from;
    while j < n && !(l[j] == ' ' || l[j] == '\t')
        invariant
            from <= j <= n == l@.len(),
            find_ws(l@, from as int) == find_ws(l@, j as int),
        decreases n - j,
    {
        j = j + 1;
    }
    j
}

/// Rewrites one line, per [`norm_line`].
fn rewrite_line(l: &Vec<char>) -> (r: Option<Vec<char>>)
    ensures
        opt_view(r) == norm_line(l@),
{
    if has_prefix(l, "%YAML") || has_prefix(l, "%TAG") {
        return None;
    }
    if has_prefix(l, "--- !u!") {
        let n = l.len();
        let i = match find_amp_exec(l) {
            Some(i) => i,
            None => {
                return Some(inline_decl_exec(l));
            },
        };
        assert(i < n);
        let j = find_ws_exec(l, i + 1);
        match parse_u64_chars(l, i + 1, j) {
            Some(id) => {
                let mut out = u64_to_chars(id);
                out.push(':');
                Some(out)
            },
            None => Some(inline_decl_exec(l)),
        }
    } else if l.len() > 0 && l[0] == ' ' {
        Some(clone_chars(l))
    } else {
        Some(inline_decl_exec(l))
    }
}

/// Builds the inline type declaration, per [`inline_decl`].
fn inline_decl_exec(l: &Vec<char>) -> (out: Vec<char>)
    ensures
        out@ == inline_decl(l@),
{
    let mut out: Vec<char> = Vec::new();
    append_str(&mut out, "  object_type: ");
    let n = l.len();
    let mut j: usize = 0;
    while j < n
        invariant
            j <= n == l@.len(),
            out@ == "  object_type: "@ + remove_colons(l@.take(j as int)),
        decreases n - j,
    {
        proof {
            assert(l@.take(j + 1 as int).drop_last() =~= l@.take(j as int));
        }
        let c = l[j];
        if c != ':' {
            out.push(c);
        }
        j = j + 1;
    }
    proof {
        assert(l@.take(n as int) =~= l@);
    }
    out
}

// ---------------------------------------------------------------------------
// The whole document.
// ---------------------------------------------------------------------------
/// The normalized lines contributed by `ls`, in order.
pub open spec fn norm_lines(ls: Seq<Seq<char>>) -> Seq<Seq<char>>
    decreases ls.len(),
{
    if ls.len() == 0 {
        Seq::empty()
    } else {
        norm_lines(ls.drop_last()) + match norm_line(ls.last()) {
            Some(l) => seq![l],
            None => Seq::empty(),
        }
    }
}

/// Lines joined with single newlines, no trailing newline.
pub open spec fn join_nl(ls: Seq<Seq<char>>) -> Seq<char>
    decreases ls.len(),
{
    if ls.len() == 0 {
        Seq::empty()
    } else if ls.len() == 1 {
        ls[0]
    } else {
        join_nl(ls.drop_last()) + seq!['\n'] + ls.last()
    }
}

/// The whole normalizer: every raw line rewritten per [`norm_line`], the
/// survivors joined with newlines, and one final newline appended.
pub open spec fn cleanup_spec(s: Seq<char>) -> Seq<char> {
    join_nl(norm_lines(doc_lines(s))).push('\n')
}

/// Rewrites a raw scene document into one standard mapping document whose
/// top-level keys are object ids, per [`cleanup_spec`].
pub fn cleanup_unity_yaml(yaml: &str) -> (r: String)
    ensures
        r@ == cleanup_spec(yaml@),
{
    let v = chars_of(yaml);
    let lines = split_into_lines(&v);
    let ghost ls = views(lines@);
    let mut kept: Vec<Vec<char>> = Vec::new();
    let mut i: usize = 0;
    while i < lines.len()
        invariant
            i <= lines@.len(),
            ls == views(lines@),
            views(kept@) =~= norm_lines(ls.take(i as int)),
        decreases lines@.len() - i,
    {
        proof {
            assert(ls.take(i + 1 as int).drop_last() =~= ls.take(i as int));
            assert(ls.take(i + 1 as int).last() == ls[i as int]);
            assert(ls[i as int] == lines@[i as int]@);
        }
        let ghost prev_kept = kept@;
        match rewrite_line(&lines[i]) {
            Some(o) => {
                kept.push(o);
                proof {
                    assert(views(kept@) =~= views(prev_kept).push(
                        norm_line(ls[i as int]).unwrap(),
                    ));
                }
            },
            None => {},
        }
        proof {
            assert(views(kept@) =~= norm_lines(ls.take(i + 1 as int)));
        }
        i = i + 1;
    }
    proof {
        assert(ls.take(lines@.len() as int) =~= ls);
    }
    let ghost out_lines = norm_lines(ls);
    let mut out: Vec<char> = Vec::new();
    let mut j: usize = 0;
    while j < kept.len()
        invariant
            j <= kept@.len(),
            out_lines == views(kept@),
            out@ == join_nl(out_lines.take(j as int)),
        decreases kept@.len() - j,
    {
        proof {
            assert(out_lines.take(j + 1 as int).drop_last() =~= out_lines.take(j as int));
            assert(out_lines.take(j + 1 as int).last() == out_lines[j as int]);
            assert(out_lines[j as int] == kept@[j as int]@);
        }
        if j > 0 {
            out.push('\n');
        }
        let line = &kept[j];
        append_range(&mut out, line, 0, line.len());
        proof {
            assert(line@.subrange(0, line@.len() as int) =~= line@);
            if j == 0 {
                assert(out@ =~= join_nl(out_lines.take(1)));
            } else {
                assert(out@ =~= join_nl(out_lines.take(j + 1 as int)));
            }
        }
        j = j + 1;
    }
    proof {
        assert(out_lines.take(kept@.len() as int) =~= out_lines);
    }
    out.push('\n');
    string_from_chars(&out)
}

} // verus!

verus! {

/// A line sequence with every directive line removed.
pub open spec fn non_directives(ls: Seq<Seq<char>>) -> Seq<Seq<char>> {
    ls.filter(|l: Seq<char>| !is_directive_line(l))
}

/// The normalizer drops every directive-prefixed input line: a line
/// sequence normalizes to exactly what it normalizes to once all directive
/// lines are removed.
pub proof fn lemma_normalizer_drops_directives(ls: Seq<Seq<char>>)
    ensures
        norm_lines(ls) == norm_lines(non_directives(ls)),
    decreases ls.len(),
{
    reveal(Seq::filter);
    if ls.len() > 0 {
        lemma_normalizer_drops_directives(ls.drop_last());
        if is_directive_line(ls.last()) {
            assert(norm_line(ls.last()) is None);
            assert(non_directives(ls) == non_directives(ls.drop_last()));
            assert(norm_lines(ls) =~= norm_lines(ls.drop_last()));
        } else {
            let nd = non_directives(ls.drop_last()).push(ls.last());
            assert(non_directives(ls) == nd);
            assert(nd.drop_last() =~= non_directives(ls.drop_last()));
            assert(nd.last() == ls.last());
            assert(norm_lines(ls) =~= norm_lines(nd));
        }
    } else {
        assert(non_directives(ls) =~= ls);
    }
}

/// The same, at the whole-document level.
pub proof fn lemma_cleanup_drops_directives(s: Seq<char>)
    ensures
        cleanup_spec(s) == join_nl(norm_lines(non_directives(doc_lines(s)))).push('\n'),
{
    lemma_normalizer_drops_directives(doc_lines(s));
}

} // verus!
