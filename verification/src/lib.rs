//! Verified core of a GPU crowd-physics scene: how a skinned NPC template is
//! turned into particle/constraint buffers for many NPCs laid out on a grid,
//! how the compute passes of a frame are planned, and how the fly camera
//! reads its keys.

pub mod grid;
pub mod constraint;
pub mod skeleton;
pub mod gpu_buffers;
pub mod dispatch;
pub mod population;
pub mod draw;
pub mod camera;
pub mod pipeline;
