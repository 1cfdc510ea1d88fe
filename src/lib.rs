//! Live amplitude overlay: the bounded waveform history, the frame
//! compositor that turns it into shapes, the connection state machine of the
//! sample reader, and the render-side coordinator.

pub mod ipc;
pub mod pipeline;
pub mod render;
pub mod waveform;
