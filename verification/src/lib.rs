//! Core of a voice-interaction client: framing of a server-sent event stream
//! into typed events, and the state machine of a microphone capture session.

pub mod audio;
pub mod event;
pub mod json;
pub mod sse;
pub mod text;
pub mod types;
pub mod wav;
