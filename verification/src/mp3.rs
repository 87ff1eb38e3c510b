//! Lossless MP3 gain adjustment.
//!
//! Every Layer III frame stores one 8-bit `global_gain` value per granule and
//! channel in its side information. Adding a whole number to each of them
//! changes the loudness by that many steps of 1.5 dB and leaves the audio
//! data, the frame sizes and the file length untouched.
//!
//! The parts, from the leaves up: [`id3`] skips a leading tag, [`header`]
//! parses frame headers, [`locator`] finds the gain fields of a frame,
//! [`bits`] reads and writes a field at any bit offset, and [`engine`] walks
//! the frames of a file and moves their fields. [`laws`] states what holds
//! of the engine as a whole.

pub mod bits;
pub mod engine;
pub mod header;
pub mod id3;
pub mod laws;
pub mod locator;

pub use bits::read_gain_at;
pub use bits::write_gain_at;
pub use engine::adjust_frame;
pub use engine::adjust_gain;
pub use engine::apply_gain;
pub use engine::confirms_frame;
pub use engine::valid_frame_at;
pub use header::parse_header;
pub use header::ChannelMode;
pub use header::FrameHeader;
pub use header::MpegVersion;
pub use id3::skip_id3v2;
pub use locator::calculate_gain_locations;
pub use locator::GainLocation;
