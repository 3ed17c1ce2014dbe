//! Which reader loads a standalone skeleton file, and what a loaded skeleton
//! has to satisfy.
use vstd::prelude::*;
use crate::import::ImportError;
use crate::skeleton::Skeleton;
use crate::skeleton;
use crate::text;

verus! {

/// A skeleton format that can be read.
#[derive(Clone, Copy, Debug, PartialEq, Eq, Structural)]
pub enum SkeletonFormat {
    Json,
    Gltf,
}

/// The reader for a file extension, which is compared without regard to case.
pub fn skeleton_format(extension: &str) -> (r: Result<SkeletonFormat, ImportError>)
    ensures
        ({
            let ext = text::lower(extension@);
            match r {
                Ok(SkeletonFormat::Json) => ext == "json"@,
                Ok(SkeletonFormat::Gltf) => ext == "gltf"@ || ext == "glb"@,
                Err(e) => {
                    &&& ext != "json"@ && ext != "gltf"@ && ext != "glb"@
                    &&& e matches ImportError::UnsupportedFormat(s) && s@ == ext
                },
            }
        }),
{
    let ext = text::to_lower(extension);
    if text::same_text(ext.as_str(), "json") {
        Ok(SkeletonFormat::Json)
    } else if text::same_text(ext.as_str(), "gltf") || text::same_text(ext.as_str(), "glb") {
        Ok(SkeletonFormat::Gltf)
    } else {
        Err(ImportError::UnsupportedFormat(ext))
    }
}

/// Accept a skeleton read from JSON if its hierarchy is valid; the error says
/// what is wrong with the first bone at fault.
pub fn checked_skeleton(s: Skeleton) -> (r: Result<Skeleton, ImportError>)
    ensures
        match r {
            Ok(t) => t == s && skeleton::topological(s.bones@),
            Err(e) => e matches ImportError::Parse(m) && exists|i: int|
                {
                    &&& 0 <= i < s.bones@.len()
                    &&& #[trigger] skeleton::misplaced(s.bones@, i)
                    &&& forall|j: int| 0 <= j < i ==> !skeleton::misplaced(s.bones@, j)
                    &&& m@ == skeleton::fault_message(s.bones@, i, s.bones@[i].parent->0)
                },
        },
{
    match s.validate() {
        Ok(_) => Ok(s),
        Err(m) => Err(ImportError::Parse(m)),
    }
}

/// Accept the skeleton of a glTF file, which must hold one.
pub fn required_skeleton(s: Option<Skeleton>) -> (r: Result<Skeleton, ImportError>)
    ensures
        match r {
            Ok(t) => s == Some(t),
            Err(e) => s is None && (e matches ImportError::Parse(m) && m@
                == "glTF file contains no skeleton"@),
        },
{
    match s {
        Some(t) => Ok(t),
        None => Err(ImportError::Parse("glTF file contains no skeleton".to_owned())),
    }
}

} // verus!
