//! Project settings: the product name read from the settings document.

use vstd::prelude::*;

use crate::chars::chars_of;
use crate::fields::{find_key_at, find_key_exec, str_field_req, str_field_exec};
use crate::record::{
    fields_view, group_records, grouped_ok, record_starts, span_ok, FieldV,
};
use crate::scene::{doc_fields, ids_unique, rec_id, DecodeError};
use crate::yaml::{cleanup_spec, cleanup_unity_yaml};

verus! {

/// The player settings the host reads: the product name.
pub struct PlayerSettings {
    pub product_name: String,
}

/// One settings record: the player settings, or something the core does
/// not read.
pub enum ProjectSettings {
    PlayerSettings(PlayerSettings),
    DontCare,
}

/// How one settings record decodes: the outer option is the document
/// check, the inner the record kind.
pub open spec fn settings_record_spec(fs: Seq<FieldV>, s: int, e: int) -> Option<
    Option<Seq<char>>,
> {
    match find_key_at(fs, s, e, 2, "object_type"@, "object_type"@) {
        None => None,
        Some(oi) => {
            if fs[oi].value == "PlayerSettings"@ {
                match str_field_req(fs, s, e, "product_name"@, "productName"@) {
                    Some(n) => Some(Some(n)),
                    None => None,
                }
            } else {
                Some(None)
            }
        },
    }
}

/// What a settings document parses to: its first record must be player
/// settings; every record must decode; ids must be unique.
pub open spec fn project_settings_spec(s: Seq<char>) -> Option<Seq<char>> {
    let fs = doc_fields(s);
    let starts = record_starts(fs);
    if grouped_ok(fs) && starts.len() > 0 && ids_unique(fs, starts) && (forall|k: int|
        0 <= k < starts.len() ==> settings_record_of(fs, starts, k) is Some) {
        match settings_record_of(fs, starts, 0) {
            Some(Some(n)) => Some(n),
            _ => None,
        }
    } else {
        None
    }
}

/// The decoded `k`-th settings record.
pub open spec fn settings_record_of(fs: Seq<FieldV>, starts: Seq<int>, k: int) -> Option<
    Option<Seq<char>>,
> {
    let en = if k + 1 < starts.len() {
        starts[k + 1]
    } else {
        fs.len() as int
    };
    settings_record_spec(fs, starts[k] + 1, en)
}

fn decode_settings_record(
    fields: &Vec<crate::record::RawField>,
    start: usize,
    end: usize,
) -> (r: Option<ProjectSettings>)
    requires
        start <= end <= fields@.len(),
    ensures
        ({
            let fs = fields_view(fields@);
            match r {
                Some(ProjectSettings::PlayerSettings(p)) => settings_record_spec(
                    fs,
                    start as int,
                    end as int,
                ) == Some(Some(p.product_name@)),
                Some(ProjectSettings::DontCare) => settings_record_spec(
                    fs,
                    start as int,
                    end as int,
                ) == Some(None::<Seq<char>>),
                None => settings_record_spec(fs, start as int, end as int) is None,
            }
        }),
{
    let ghost fs = fields_view(fields@);
    let oi = match find_key_exec(fields, start, end, 2, "object_type", "object_type") {
        Some(oi) => oi,
        None => {
            return None;
        },
    };
    let f = &fields[oi];
    proof {
        assert(fs[oi as int] == fields@[oi as int]@);
        assert(f.value@.subrange(0, f.value@.len() as int) =~= f.value@);
    }
    let vl = f.value.len();
    if crate::chars::range_eq_str(&f.value, 0, vl, "PlayerSettings") {
        match str_field_exec(fields, start, end, "product_name", "productName", None) {
            Some(n) => Some(ProjectSettings::PlayerSettings(PlayerSettings { product_name: n })),
            None => None,
        }
    } else {
        Some(ProjectSettings::DontCare)
    }
}

/// Parses a settings document, per [`project_settings_spec`].
#[verifier::rlimit(60)]
pub fn parse_project_settings(settings: &str) -> (r: Result<PlayerSettings, DecodeError>)
    ensures
        match r {
            Ok(p) => project_settings_spec(cleanup_spec(settings@)) == Some(p.product_name@),
            Err(_) => project_settings_spec(cleanup_spec(settings@)) is None,
        },
{
    let cleaned = cleanup_unity_yaml(settings);
    let v = chars_of(cleaned.as_str());
    let lines = crate::yaml::split_into_lines(&v);
    let fields = crate::scene::tokenize_lines_pub(lines);
    let ghost fs = fields_view(fields@);
    proof {
        assert(fs == doc_fields(cleanup_spec(settings@)));
        assert(fs.len() == fields@.len());
    }
    let spans = match group_records(&fields) {
        Some(spans) => spans,
        None => {
            return Err(DecodeError);
        },
    };
    let ghost starts = record_starts(fs);
    let nrec = spans.len();
    if nrec == 0 {
        return Err(DecodeError);
    }
    // every id distinct
    let mut k1: usize = 0;
    while k1 < nrec
        invariant
            k1 <= nrec == spans@.len(),
            fs == fields_view(fields@),
            fs == doc_fields(cleanup_spec(settings@)),
            starts == record_starts(fs),
            spans@.len() == starts.len(),
            forall|k: int| 0 <= k < starts.len() ==> span_ok(fs, starts, k, #[trigger] spans@[k]),
            forall|a: int, b: int|
                0 <= a < b < starts.len() && a < k1 ==> rec_id(fs, starts, a) != rec_id(
                    fs,
                    starts,
                    b,
                ),
        decreases nrec - k1,
    {
        let mut k2: usize = k1 + 1;
        while k2 < nrec
            invariant
                k1 < k2 <= nrec == spans@.len(),
                fs == fields_view(fields@),
                fs == doc_fields(cleanup_spec(settings@)),
                starts == record_starts(fs),
                spans@.len() == starts.len(),
                forall|k: int|
                    0 <= k < starts.len() ==> span_ok(fs, starts, k, #[trigger] spans@[k]),
                forall|b: int|
                    k1 < b < k2 ==> rec_id(fs, starts, k1 as int) != rec_id(fs, starts, b),
            decreases nrec - k2,
        {
            if spans[k1].id == spans[k2].id {
                proof {
                    assert(Some(spans@[k1 as int].id) == crate::scalar::parse_i64_spec(
                        fs[starts[k1 as int]].key,
                    ));
                    assert(Some(spans@[k2 as int].id) == crate::scalar::parse_i64_spec(
                        fs[starts[k2 as int]].key,
                    ));
                    assert(rec_id(fs, starts, k1 as int) == rec_id(fs, starts, k2 as int));
                    assert(!ids_unique(fs, starts));
                }
                return Err(DecodeError);
            }
            proof {
                assert(Some(spans@[k1 as int].id) == crate::scalar::parse_i64_spec(
                    fs[starts[k1 as int]].key,
                ));
                assert(Some(spans@[k2 as int].id) == crate::scalar::parse_i64_spec(
                    fs[starts[k2 as int]].key,
                ));
            }
            k2 = k2 + 1;
        }
        k1 = k1 + 1;
    }
    proof {
        assert(ids_unique(fs, starts));
    }
    // every record decodes; the first carries the player settings
    let mut result: Option<ProjectSettings> = None;
    let mut k: usize = 0;
    while k < nrec
        invariant
            k <= nrec == spans@.len(),
            fs == fields_view(fields@),
            fs == doc_fields(cleanup_spec(settings@)),
            fs.len() == fields@.len(),
            starts == record_starts(fs),
            spans@.len() == starts.len(),
            forall|j: int| 0 <= j < starts.len() ==> span_ok(fs, starts, j, #[trigger] spans@[j]),
            forall|j: int| 0 <= j < k ==> settings_record_of(fs, starts, j) is Some,
            k > 0 ==> (match result {
                Some(ProjectSettings::PlayerSettings(p)) => settings_record_of(fs, starts, 0)
                    == Some(Some(p.product_name@)),
                Some(ProjectSettings::DontCare) => settings_record_of(fs, starts, 0) == Some(
                    None::<Seq<char>>,
                ),
                None => false,
            }),
            k == 0 ==> result is None,
        decreases nrec - k,
    {
        let sp = &spans[k];
        proof {
            crate::record::lemma_record_starts_bounds_pub(fs, k as int);
            if k as int + 1 < starts.len() {
                crate::record::lemma_record_starts_bounds_pub(fs, k as int + 1);
            }
            assert(span_ok(fs, starts, k as int, spans@[k as int]));
        }
        let d = match decode_settings_record(&fields, sp.start + 1, sp.end) {
            Some(d) => d,
            None => {
                proof {
                    assert(settings_record_of(fs, starts, k as int) is None);
                }
                return Err(DecodeError);
            },
        };
        if k == 0 {
            result = Some(d);
        }
        k = k + 1;
    }
    match result {
        Some(ProjectSettings::PlayerSettings(p)) => Ok(p),
        _ => Err(DecodeError),
    }
}

} // verus!
