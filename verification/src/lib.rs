//! Decoding layer for a marker-delimited serial telemetry protocol.
//!
//! A controller board emits fixed 16-byte frames: a two-byte sentinel
//! (`0xFF, 0xFF`) followed by a 14-byte payload holding 48 button bits and
//! four little-endian 16-bit axis samples. The stream may start misaligned
//! or drop bytes, so the frame synchronizer recovers alignment by scanning
//! for the sentinel and discarding a bounded, always-positive number of
//! bytes per attempt. All framing decisions and the payload decoding are
//! pure functions verified here; reading the physical serial port and
//! driving the virtual input device stay outside.

pub mod decode;
pub mod dispatch;
pub mod frame;
