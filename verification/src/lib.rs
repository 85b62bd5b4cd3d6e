//! A vector/CRT display emulator core: a binary beam-instruction protocol,
//! the stateful processor that turns instruction streams into power-tagged
//! point sequences, fixed-point quantization of points, a phosphor
//! persistence model, and the frame-event queue.

pub mod color;
pub mod events;
pub mod gfx;
pub mod instruction;
pub mod manager;
pub mod persistence;
pub mod processor;
pub mod quantize;
pub mod reader;
pub mod timing;
