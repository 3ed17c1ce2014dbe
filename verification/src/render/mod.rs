//! What the preview renderer decides and computes on plain values: which
//! device, queue family and surface settings it picks, how a frame advances,
//! how images change layout, and which bytes go to the graphics memory.
pub mod camera;
pub mod device;
pub mod frame;
pub mod image;
pub mod instance;
pub mod overlay;
pub mod pipeline;
pub mod swapchain;
pub mod sync;
pub mod texture;
pub mod upload;
