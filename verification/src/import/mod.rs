//! Mesh and skeleton importers.
//!
//! [`obj`] assembles plain geometry, [`gltf`] geometry with skeleton, skin and
//! animation, [`fbx`] geometry with skeleton and skin. The loaders hand in what
//! a file holds as plain arrays.
pub mod fbx;
pub mod gltf;
pub mod obj;

use vstd::prelude::*;
use vstd::string::StringExecFns;
use crate::mesh::SkinnedMesh;
use crate::mesh;
use crate::skeleton::Skeleton;
use crate::text;

verus! {

/// The result of importing a model file.
pub struct Imported {
    pub mesh: SkinnedMesh,
    /// Present only if the file contained a skeleton.
    pub skeleton: Option<Skeleton>,
    /// Where it came from.
    pub source: String,
}

/// What can go wrong with an import.
#[derive(Debug, PartialEq, Eq)]
pub enum ImportError {
    Io(String),
    UnsupportedFormat(String),
    Parse(String),
    NoGeometry,
}

impl ImportError {
    /// What the error says to the user.
    pub open spec fn message(self) -> Seq<char> {
        match self {
            ImportError::Io(s) => "I/O error: "@ + s@,
            ImportError::UnsupportedFormat(s) => "unsupported format: "@ + s@,
            ImportError::Parse(s) => "parse error: "@ + s@,
            ImportError::NoGeometry => "file contained no geometry"@,
        }
    }

    /// What the error says to the user.
    pub fn to_message(&self) -> (r: String)
        ensures
            r@ == self.message(),
    {
        match self {
            ImportError::Io(s) => "I/O error: ".to_owned().concat(s.as_str()),
            ImportError::UnsupportedFormat(s) => "unsupported format: ".to_owned().concat(s.as_str()),
            ImportError::Parse(s) => "parse error: ".to_owned().concat(s.as_str()),
            ImportError::NoGeometry => "file contained no geometry".to_owned(),
        }
    }
}

/// A model format that can be read.
#[derive(Clone, Copy, Debug, PartialEq, Eq, Structural)]
pub enum ModelFormat {
    Obj,
    Gltf,
    Fbx,
}

/// The reader for a file extension, which is compared without regard to case.
/// `fbx_import` tells whether FBX reading is built in.
pub fn model_format(extension: &str, fbx_import: bool) -> (r: Result<ModelFormat, ImportError>)
    ensures
        ({
            let ext = text::lower(extension@);
            match r {
                Ok(ModelFormat::Obj) => ext == "obj"@,
                Ok(ModelFormat::Gltf) => ext == "gltf"@ || ext == "glb"@,
                Ok(ModelFormat::Fbx) => ext == "fbx"@ && fbx_import,
                Err(e) => {
                    &&& ext != "obj"@ && ext != "gltf"@ && ext != "glb"@
                    &&& e matches ImportError::UnsupportedFormat(s)
                    &&& if ext == "fbx"@ {
                        !fbx_import && s@
                            == "FBX import not built (enable the `fbx-import` feature)"@
                    } else {
                        s@ == ext
                    }
                },
            }
        }),
{
    let ext = text::to_lower(extension);
    if text::same_text(ext.as_str(), "obj") {
        Ok(ModelFormat::Obj)
    } else if text::same_text(ext.as_str(), "gltf") || text::same_text(ext.as_str(), "glb") {
        Ok(ModelFormat::Gltf)
    } else if text::same_text(ext.as_str(), "fbx") {
        if fbx_import {
            Ok(ModelFormat::Fbx)
        } else {
            Err(
                ImportError::UnsupportedFormat(
                    "FBX import not built (enable the `fbx-import` feature)".to_owned(),
                ),
            )
        }
    } else {
        Err(ImportError::UnsupportedFormat(ext))
    }
}

/// Indices moved up by a base.
pub open spec fn offset(indices: Seq<u32>, base: nat) -> Seq<u32> {
    indices.map_values(|i: u32| (i + base) as u32)
}

/// Whether indices still fit after being moved up by a base.
pub open spec fn fits_offset(indices: Seq<u32>, base: nat) -> bool {
    base <= u32::MAX && forall|k: int|
        0 <= k < indices.len() ==> (#[trigger] indices[k]) + base <= u32::MAX
}

/// Append `src` to `dst`, moving its indices behind the vertices of `dst`.
pub fn append_mesh(dst: &mut SkinnedMesh, src: SkinnedMesh)
    requires
        fits_offset(src.indices@, old(dst).vertices@.len()),
    ensures
        final(dst).vertices@ == old(dst).vertices@ + src.vertices@,
        final(dst).influences@ == old(dst).influences@ + src.influences@,
        final(dst).indices@ == old(dst).indices@ + offset(src.indices@, old(dst).vertices@.len()),
        final(dst).cached() is None,
{
    let mut src = src;
    let base: u32 = dst.vertices.len() as u32;
    let ghost list = src.indices@;
    let ghost start = dst.indices@;
    dst.vertices.append(&mut src.vertices);
    dst.influences.append(&mut src.influences);
    let ghost all_vertices = dst.vertices@;
    let ghost all_influences = dst.influences@;
    let mut k: usize = 0;
    assert(dst.indices@ =~= start + offset(list, base as nat).take(0));
    while k < src.indices.len()
        invariant
            k <= src.indices@.len(),
            src.indices@ == list,
            fits_offset(list, base as nat),
            dst.indices@ == start + offset(list, base as nat).take(k as int),
            dst.vertices@ == all_vertices,
            dst.influences@ == all_influences,
        decreases src.indices@.len() - k,
    {
        assert(list[k as int] + base <= u32::MAX);
        dst.indices.push(src.indices[k] + base);
        assert(dst.indices@ =~= start + offset(list, base as nat).take(k + 1));
        k += 1;
    }
    assert(offset(list, base as nat).take(k as int) =~= offset(list, base as nat));
    dst.invalidate_adjacency();
}

/// Appending keeps triangles in range: where both meshes name only their own
/// vertices, so does the result.
pub proof fn append_keeps_triangles_in_range(
    vertices: nat,
    indices: Seq<u32>,
    more: nat,
    more_indices: Seq<u32>,
)
    requires
        indices.len() % 3 == 0,
        mesh::triangles_in_range(vertices, indices),
        mesh::triangles_in_range(more, more_indices),
        fits_offset(more_indices, vertices),
    ensures
        mesh::triangles_in_range(vertices + more, indices + offset(more_indices, vertices)),
{
    let all = indices + offset(more_indices, vertices);
    assert forall|j: int| 0 <= j < 3 * (all.len() / 3) implies (#[trigger] all[j]) < vertices
        + more by {
        if j < indices.len() {
            assert(all[j] == indices[j]);
        } else {
            let k = j - indices.len();
            assert(k < 3 * (more_indices.len() / 3));
            assert(more_indices[k] < more);
            assert(more_indices[k] + vertices <= u32::MAX);
            assert(all[j] == (more_indices[k] + vertices) as u32);
        }
    }
}

/// An appended triangle corner names the vertex that it named before, and the
/// corners that were there first still name theirs.
pub proof fn appended_corners_keep_their_vertices(front: SkinnedMesh, added: SkinnedMesh, c: int)
    requires
        0 <= c < added.indices@.len(),
        added.indices@[c] < added.vertices@.len(),
        fits_offset(added.indices@, front.vertices@.len()),
    ensures
        ({
            let vertices = front.vertices@ + added.vertices@;
            let moved = offset(added.indices@, front.vertices@.len());
            &&& moved.len() == added.indices@.len()
            &&& moved[c] < vertices.len()
            &&& vertices[moved[c] as int] == added.vertices@[added.indices@[c] as int]
        }),
{
    assert(added.indices@[c] + front.vertices@.len() <= u32::MAX);
}

/// A message ends in the cause that the error carries, and errors of different
/// kinds start differently.
pub proof fn messages_tell_kind_and_cause(e: ImportError)
    ensures
        e matches ImportError::Io(s) ==> text::ends_in(e.message(), s@) && e.message()[0] == 'I',
        e matches ImportError::UnsupportedFormat(s) ==> text::ends_in(e.message(), s@)
            && e.message()[0] == 'u',
        e matches ImportError::Parse(s) ==> text::ends_in(e.message(), s@) && e.message()[0] == 'p',
        e is NoGeometry ==> e.message()[0] == 'f',
{
    reveal_strlit("I/O error: ");
    reveal_strlit("unsupported format: ");
    reveal_strlit("parse error: ");
    reveal_strlit("file contained no geometry");
    match e {
        ImportError::Io(s) => {
            text::endings_come_off("I/O error: "@, s@, s@);
        },
        ImportError::UnsupportedFormat(s) => {
            text::endings_come_off("unsupported format: "@, s@, s@);
        },
        ImportError::Parse(s) => {
            text::endings_come_off("parse error: "@, s@, s@);
        },
        ImportError::NoGeometry => {},
    }
}

} // verus!
