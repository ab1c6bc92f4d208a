//! Realtime speech recognition over a WebSocket: the verified core of a
//! streaming provider that turns PCM audio into cleaned transcriptions.
//!
//! - [`audio`] cuts PCM into chunks.
//! - [`text`] cleans transcriptions, and [`wording`] and [`space`] prove what is
//!   kept of them.
//! - [`asr`] is the protocol with the recognition server. [`wire`] proves what
//!   its messages say, and [`stream`] what holds of every stream of its frames.
//! - [`protocol`] is the protocol with vinput, and [`messages`] proves what its
//!   requests ask for and what is said in answer.
//! - [`session`] decides what happens in a session. [`conduct`] proves what each
//!   step does, [`trace`] what holds of every session, and [`commits`] what
//!   becomes of its audio and its text.
//! - [`timer`] decides how long to wait for the end of the transcription.
//! - [`config`] holds the settings.
//! - [`json`] and [`codec`] are the boundary to `serde_json` and `base64`.

pub mod asr;
pub mod audio;
pub mod codec;
pub mod commits;
pub mod conduct;
pub mod config;
pub mod json;
pub mod messages;
pub mod protocol;
pub mod session;
pub mod space;
pub mod stream;
pub mod text;
pub mod timer;
pub mod trace;
pub mod wire;
pub mod wording;
