//! Lossless loudness adjustment for audio libraries.
//!
//! The heart of the crate is [`mp3`]: an engine that changes the loudness of
//! MPEG Layer III audio in steps of 1.5 dB by rewriting the `global_gain`
//! fields of every frame, without decoding or re-encoding the audio. The
//! other modules hold the decisions around it: which files are audio
//! ([`scanner`]), where the loudness report lies in the output of the
//! analysis tool ([`loudnorm`]), how a file is to be processed
//! ([`analyzer`], [`processor`]) and what a report says of it ([`report`]).
//!
//! Nothing here touches a file or a terminal: callers read and write, and
//! hand over bytes and plain values.

pub mod analyzer;
pub mod loudnorm;
pub mod mp3;
pub mod processor;
pub mod report;
pub mod scanner;
