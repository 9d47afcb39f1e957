//! Real-time audio effect core: the shared processing architecture behind a
//! family of sample-by-sample effects (waveshaping distortion, a feedback
//! delay, and a reversed double-buffer "popback" effect).
//!
//! The core is the part of each effect that must run allocation-free inside a
//! render callback: the control-parameter handoff between the control surface
//! and the render path, and the buffer-indexing state machines that route each
//! sample. Samples travel through the core as opaque 32-bit encodings; the
//! host adapter converts to and from its own sample format and applies the
//! gain arithmetic at the edge, so the core's contracts speak purely about
//! which stored sample appears where and when.

pub mod delay;
pub mod params;
mod surface;
pub mod xfade;
