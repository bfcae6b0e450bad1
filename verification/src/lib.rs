//! The draw-submission core of a 2D sprite renderer.
//!
//! Draw calls are grouped into batches by key, each batch tracks the capacity
//! of its instance buffer and how long it has been idle, and once per frame
//! the whole state is turned into the list of GPU commands that renders it.
//! The library decides; it does not touch the GPU. Its caller owns the
//! device, carries the commands out, and does the floating-point work of
//! building matrices, which is why every number that stands for a float is
//! kept here as its binary32 bit pattern.
//!
//! The way through the modules:
//!
//! - [`draw`] takes the draw calls of a frame and ends it with the frame's
//!   commands; [`command`] says what the commands are.
//! - [`batcher`] keeps one [`batch`] per key; a batch holds the waiting
//!   [`instance`]s and the [`attachment`]s it binds.
//! - [`frames`], [`buffers`] and [`render`] hold what is proved of whole
//!   frames: how many batches there are, when a batch is dropped, that every
//!   command finds its buffer large enough, and that a frame draws each
//!   batch once with its own pipeline, texture and instances.
//! - [`instance`], [`layout`], [`quad`] and [`words`] fix the bytes that reach
//!   the GPU.
//! - [`camera`], [`color`], [`texture`], [`surface`] and [`input`] are the
//!   plain values around the core.

pub mod attachment;
pub mod batch;
pub mod batcher;
pub mod buffers;
pub mod camera;
pub mod color;
pub mod command;
pub mod draw;
pub mod frames;
pub mod input;
pub mod instance;
pub mod layout;
pub mod quad;
pub mod render;
pub mod surface;
pub mod texture;
pub mod words;
