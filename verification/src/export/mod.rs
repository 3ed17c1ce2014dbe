//! Exporters for skinned meshes.
//!
//! [`glb`] writes binary glTF with a full skin, [`fbx`] writes ASCII FBX with
//! skin clusters and a bind pose, [`obj`] writes plain geometry. Numbers reach
//! the writers as bit patterns or as finished decimal text.
pub mod fbx;
pub mod fbx_reading;
pub mod glb;
pub mod glb_reading;
pub mod keys;
pub mod obj;

use vstd::prelude::*;
use vstd::string::StringExecFns;
use crate::text;

verus! {

/// Errors shared by the exporters.
#[derive(Debug, PartialEq, Eq)]
pub enum ExportError {
    Io(String),
    Empty,
    TooManyBones(usize),
}

impl ExportError {
    /// What the error says to the user.
    pub open spec fn message(self) -> Seq<char> {
        match self {
            ExportError::Io(s) => "I/O error: "@ + s@,
            ExportError::Empty => "nothing to export (empty mesh)"@,
            ExportError::TooManyBones(n) => text::decimal(n as nat)
                + " bones exceeds the glTF joint limit for u16 indices"@,
        }
    }

    /// What the error says to the user.
    pub fn to_message(&self) -> (r: String)
        ensures
            r@ == self.message(),
    {
        match self {
            ExportError::Io(s) => {
                let mut m = "I/O error: ".to_owned();
                m.append(s.as_str());
                m
            },
            ExportError::Empty => "nothing to export (empty mesh)".to_owned(),
            ExportError::TooManyBones(n) => {
                let mut m = String::new();
                text::push_decimal(&mut m, *n as u64);
                assert(m@ =~= text::decimal(*n as nat));
                m.append(" bones exceeds the glTF joint limit for u16 indices");
                m
            },
        }
    }
}

} // verus!
