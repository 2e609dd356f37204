//! Composition and mixing engine for a multi-channel ambient sound installation.
//!
//! Samples are integer PCM values (`i32`). Streams are pulled one sample at a
//! time; transforms own the stream they wrap.
pub mod amplify;
pub mod cache;
pub mod channel;
pub mod fade;
pub mod log_source;
pub mod mixer;
pub mod registry;
pub mod scheduler;
pub mod sine_beat;
pub mod stream;
pub mod track;
