//! Settings of the provider.
//!
//! Each environment variable has a preferred name `VINPUT_ASR_*` and a
//! fallback `VINPUT_WS_*`. The functions take the values of both, where set.

use vstd::prelude::*;

use crate::json::same_text;

verus! {

pub const DEFAULT_URL: &'static str = "ws://192.168.102.10:7000/v1/realtime";

pub const DEFAULT_MODEL: &'static str = "qwen3-asr";

/// Samples per second of the audio.
pub const SAMPLE_RATE: u32 = 16000;

/// WS chunk size for outgoing PCM, in milliseconds.
pub const CHUNK_MS: u64 = 250;

/// Timeout for waiting `transcription.done` after final commit, in seconds.
pub const DONE_TIMEOUT_SECS: u64 = 9;

/// The value under the preferred name, or else under the fallback name.
pub open spec fn setting(preferred: Option<String>, fallback: Option<String>) -> Option<Seq<char>> {
    match preferred {
        Some(v) => Some(v@),
        None => match fallback {
            Some(v) => Some(v@),
            None => None,
        },
    }
}

fn setting_or(preferred: Option<String>, fallback: Option<String>, default: &str) -> (r: String)
    ensures
        r@ == match setting(preferred, fallback) {
            Some(v) => v,
            None => default@,
        },
{
    match preferred {
        Some(v) => v,
        None => match fallback {
            Some(v) => v,
            None => default.to_string(),
        },
    }
}

/// The WebSocket endpoint, from `VINPUT_ASR_URL` and `VINPUT_WS_URL`.
pub fn endpoint_url(preferred: Option<String>, fallback: Option<String>) -> (r: String)
    ensures
        r@ == match setting(preferred, fallback) {
            Some(v) => v,
            None => DEFAULT_URL@,
        },
{
    setting_or(preferred, fallback, DEFAULT_URL)
}

/// The served model name, from `VINPUT_ASR_MODEL` and `VINPUT_WS_MODEL`.
pub fn model_name(preferred: Option<String>, fallback: Option<String>) -> (r: String)
    ensures
        r@ == match setting(preferred, fallback) {
            Some(v) => v,
            None => DEFAULT_MODEL@,
        },
{
    setting_or(preferred, fallback, DEFAULT_MODEL)
}

/// Whether to keep a debug log, from `VINPUT_ASR_DEBUG` and `VINPUT_WS_DEBUG`:
/// when set to `1` or `true`.
pub fn debug_enabled(preferred: Option<String>, fallback: Option<String>) -> (r: bool)
    ensures
        r == match setting(preferred, fallback) {
            Some(v) => v == "1"@ || v == "true"@,
            None => false,
        },
{
    match preferred {
        Some(v) => same_text(v.as_str(), "1") || same_text(v.as_str(), "true"),
        None => match fallback {
            Some(v) => same_text(v.as_str(), "1") || same_text(v.as_str(), "true"),
            None => false,
        },
    }
}

/// The preferred name wins, and an empty value is a value.
pub proof fn law_preferred_name_wins(value: String, other: Option<String>)
    ensures
        setting(Some(value), other) == Some(value@),
        setting(None, Some(value)) == Some(value@),
        setting(None, None) is None,
{
}

} // verus!
