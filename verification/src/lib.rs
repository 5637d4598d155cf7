//! Text normalisation and audio transcoding rules of a voice-reading assistant.
//!
//! `read` turns a chat message into a bounded utterance, `dict` substitutes
//! dictionary words, `ffmpeg` holds the decoder's invocation and the rules by
//! which its outcome is judged, and `config` holds the settings.

pub mod config;
pub mod dict;
pub mod ffmpeg;
pub mod read;
