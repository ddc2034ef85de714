pub mod config;
pub mod orp;
pub mod picker;
pub mod rsvp;
pub mod source;
pub mod text;
pub mod theme;
pub mod tts;
