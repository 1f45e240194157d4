//! References between records and to other documents: an object id within
//! a document and, optionally, the GUID of the document holding the target.

use vstd::prelude::*;

use crate::chars::string_from_chars;
use crate::fields::{
    is_quoted, pair_value, pair_value_exec, pairs_view, unquote,
};
use crate::scalar::{
    is_bool_token, is_bool_token_exec, is_float_token, is_float_token_exec, is_int_token,
    is_int_token_exec, is_null_token, is_null_token_exec, parse_i64_chars, parse_i64_spec,
};

verus! {

/// A reference to a record: its object id, and the GUID of the document
/// holding it when it lives in another document.
pub struct FileReference {
    pub file_id: i64,
    pub guid: Option<String>,
}

/// Specification image of a [`FileReference`].
pub struct FileRefV {
    pub file_id: i64,
    pub guid: Option<Seq<char>>,
}

impl View for FileReference {
    type V = FileRefV;

    open spec fn view(&self) -> FileRefV {
        FileRefV {
            file_id: self.file_id,
            guid: match self.guid {
                Some(g) => Some(g@),
                None => None,
            },
        }
    }
}

pub open spec fn fileref_default() -> FileRefV {
    FileRefV { file_id: 0, guid: None }
}

/// The default reference: id zero, no GUID.
pub fn default_fileref() -> (r: FileReference)
    ensures
        r@ == fileref_default(),
{
    FileReference { file_id: 0, guid: None }
}

/// How a GUID scalar decodes.  The outer option is the type check: a
/// quoted scalar or a plain name is a GUID; a null or float-shaped scalar
/// (hex digits that happen to read as a number in exponent form) is no
/// GUID; an integer or boolean fails the field.
pub open spec fn guid_of_token(t: Seq<char>) -> Option<Option<Seq<char>>> {
    if is_quoted(t) {
        Some(Some(unquote(t)))
    } else if is_null_token(t) {
        Some(None)
    } else if is_int_token(t) || is_bool_token(t) {
        None
    } else if is_float_token(t) {
        Some(None)
    } else {
        Some(Some(t))
    }
}

/// How a reference decodes from an inline map: a required integer
/// `fileID`, and an optional `guid` per [`guid_of_token`].
pub open spec fn fileref_spec(ps: Seq<(Seq<char>, Seq<char>)>) -> Option<FileRefV> {
    let idtok = match pair_value(ps, "fileID"@) {
        Some(t) => Some(t),
        None => pair_value(ps, "file_id"@),
    };
    match idtok {
        None => None,
        Some(t) => match parse_i64_spec(t) {
            None => None,
            Some(id) => match pair_value(ps, "guid"@) {
                None => Some(FileRefV { file_id: id, guid: None }),
                Some(g) => match guid_of_token(g) {
                    None => None,
                    Some(og) => Some(FileRefV { file_id: id, guid: og }),
                },
            },
        },
    }
}

/// Decodes a reference from an inline map, per [`fileref_spec`].
pub fn decode_fileref(ps: &Vec<(Vec<char>, Vec<char>)>) -> (r: Option<FileReference>)
    ensures
        match r {
            Some(fr) => fileref_spec(pairs_view(ps@)) == Some(fr@),
            None => fileref_spec(pairs_view(ps@)) is None,
        },
{
    let idtok = match pair_value_exec(ps, "fileID") {
        Some(t) => Some(t),
        None => pair_value_exec(ps, "file_id"),
    };
    let t = match idtok {
        Some(t) => t,
        None => {
            return None;
        },
    };
    proof {
        assert(t@.subrange(0, t@.len() as int) =~= t@);
    }
    let id = match parse_i64_chars(t, 0, t.len()) {
        Some(id) => id,
        None => {
            return None;
        },
    };
    let g = match pair_value_exec(ps, "guid") {
        Some(g) => g,
        None => {
            return Some(FileReference { file_id: id, guid: None });
        },
    };
    let gn = g.len();
    if gn >= 2 && ((g[0] == '"' && g[gn - 1] == '"') || (g[0] == '\'' && g[gn - 1] == '\'')) {
        let inner = crate::record::copy_range(g, 1, gn - 1);
        proof {
            assert(inner@ =~= unquote(g@));
        }
        return Some(FileReference { file_id: id, guid: Some(string_from_chars(&inner)) });
    }
    proof {
        assert(g@.subrange(0, g@.len() as int) =~= g@);
    }
    if is_null_token_exec(g, 0, gn) {
        return Some(FileReference { file_id: id, guid: None });
    }
    if is_int_token_exec(g, 0, gn) || is_bool_token_exec(g, 0, gn) {
        return None;
    }
    if is_float_token_exec(g, 0, gn) {
        return Some(FileReference { file_id: id, guid: None });
    }
    Some(FileReference { file_id: id, guid: Some(string_from_chars(g)) })
}

} // verus!
