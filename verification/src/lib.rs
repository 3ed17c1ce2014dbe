//! Rigging toolkit: skinnable meshes, skeletons, selection and weight tools,
//! model import and export, and the decisions behind the preview renderer.
pub mod anim;
pub mod bridge;
pub mod buckets;
pub mod bytes;
pub mod chain;
pub mod clip;
pub mod collision;
pub mod controller;
pub mod export;
pub mod extract;
pub mod ik;
pub mod import;
pub mod limits;
pub mod listing;
pub mod mesh;
pub mod prior;
pub mod reading;
pub mod render;
pub mod roundtrip;
pub mod scalar;
pub mod select;
pub mod skeleton;
pub mod skeleton_io;
pub mod state;
pub mod text;
pub mod viz;
pub mod weights;
