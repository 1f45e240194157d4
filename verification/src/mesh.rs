//! Mesh filters and mesh renderers: references to a mesh and to the
//! materials drawn with it.

use vstd::prelude::*;

use crate::fields::{ref_field_req, ref_list_field, refs_view, ref_field_exec, ref_list_field_exec};
use crate::record::{fields_view, FieldV, RawField};
use crate::reference::{FileReference, FileRefV};

verus! {

/// A mesh filter: the reference to the mesh it selects.
pub struct UnityMeshFilter {
    pub mesh: FileReference,
}

impl View for UnityMeshFilter {
    type V = FileRefV;

    open spec fn view(&self) -> FileRefV {
        self.mesh@
    }
}

/// A mesh renderer: the ordered material references it draws with.
pub struct UnityMeshRenderer {
    pub materials: Vec<FileReference>,
}

impl View for UnityMeshRenderer {
    type V = Seq<FileRefV>;

    open spec fn view(&self) -> Seq<FileRefV> {
        refs_view(self.materials@)
    }
}

/// How a mesh filter decodes: a required `m_Mesh` reference.
pub open spec fn meshfilter_spec(fs: Seq<FieldV>, s: int, e: int) -> Option<FileRefV> {
    ref_field_req(fs, s, e, "mesh"@, "m_Mesh"@)
}

/// How a mesh renderer decodes: a required `m_Materials` list of bare
/// reference items.
pub open spec fn meshrenderer_spec(fs: Seq<FieldV>, s: int, e: int) -> Option<Seq<FileRefV>> {
    ref_list_field(fs, s, e, "materials"@, "m_Materials"@, ""@, true)
}

/// Decodes a mesh filter record, per [`meshfilter_spec`].
pub fn decode_meshfilter(fields: &Vec<RawField>, start: usize, end: usize) -> (r: Option<
    UnityMeshFilter,
>)
    requires
        start <= end <= fields@.len(),
    ensures
        ({
            let fs = fields_view(fields@);
            match r {
                Some(m) => meshfilter_spec(fs, start as int, end as int) == Some(m@),
                None => meshfilter_spec(fs, start as int, end as int) is None,
            }
        }),
{
    match ref_field_exec(fields, start, end, "mesh", "m_Mesh", true) {
        Some(mesh) => Some(UnityMeshFilter { mesh }),
        None => None,
    }
}

/// Decodes a mesh renderer record, per [`meshrenderer_spec`].
pub fn decode_meshrenderer(fields: &Vec<RawField>, start: usize, end: usize) -> (r: Option<
    UnityMeshRenderer,
>)
    requires
        start <= end <= fields@.len(),
    ensures
        ({
            let fs = fields_view(fields@);
            match r {
                Some(m) => meshrenderer_spec(fs, start as int, end as int) == Some(m@),
                None => meshrenderer_spec(fs, start as int, end as int) is None,
            }
        }),
{
    match ref_list_field_exec(fields, start, end, "materials", "m_Materials", "", true) {
        Some(materials) => Some(UnityMeshRenderer { materials }),
        None => None,
    }
}

} // verus!
