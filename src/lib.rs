//! Integer core of a procedural pixel renderer: the packed pixel format,
//! the split of a flat frame buffer into per-worker chunks, the mapping from a
//! flat pixel index to window coordinates, and the frame-loop state machine.

pub mod pixel;
pub mod partition;
pub mod render;
pub mod frame;
