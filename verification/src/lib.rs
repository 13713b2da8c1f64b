//! Verified core of Tategoto: the timeline, transcript formatting, speech
//! callback bookkeeping and recording state of the transcription app.

pub mod audio;
pub mod clock;
pub mod devices;
pub mod text;
pub mod transcript;
pub mod tray;
pub mod turns;
pub mod model;
pub mod realtime;
pub mod session;
pub mod speech;
