//! A verified core for a shape-drawing pipeline.
//!
//! Shapes arrive as JSON payloads over HTTP-style requests, are decoded,
//! published through a bounded lossy broadcast channel, and handed to a
//! renderer.  A connectivity supervisor keeps the underlying link alive.
//! Everything here is pure logic over plain values; the surrounding
//! program supplies sockets, timers and the display.

pub mod channel;
pub mod codec;
pub mod connectivity;
pub mod render;
pub mod shape;
pub mod web;
