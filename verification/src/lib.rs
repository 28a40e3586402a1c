//! The decisions of a telephone voice agent: what is heard, what is said, when
//! the agent yields the floor, and what is kept of a call.

pub mod audio;
pub mod cartesia;
pub mod config;
pub mod deepgram;
pub mod entities;
pub mod environment;
pub mod humanize;
pub mod json;
pub mod mixer;
pub mod openai_realtime;
pub mod payload;
pub mod response_policy;
pub mod rng;
pub mod signals;
pub mod split_providers;
pub mod text;
pub mod text_stream;
pub mod text_worker;
pub mod tracking;
pub mod twilio;
pub mod wav;
