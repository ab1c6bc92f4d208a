# vinput-ws-asr

A realtime WebSocket ASR streaming provider for vinput, with a core that is
verified with Verus.

The provider connects to a service with an OpenAI-Realtime-style ASR WebSocket
API (such as vLLM `/v1/realtime`), streams PCM as it comes, and reports cleaned
transcriptions.

## Layout

- `src/` is the library. Its functions are verified against their contracts,
  but for what stands at the boundary to other crates and to std: five
  wrappers, in `json` and `codec`, and one assumed specification, of
  `String::push`, are trusted, and `serde_json::Value` is declared as an opaque
  type. The doc comment of each says what it claims.
  - `audio`: PCM16 chunking.
  - `text`: stripping of `language {lang}<asr_text>` prefixes.
  - `asr`: messages to and from the recognition server.
  - `stream`: what holds of every stream of the server's frames.
  - `protocol`: requests and events of vinput, one JSON object per line.
  - `session`: the session as a state machine.
  - `timer`: how long to wait for the end of the transcription.
  - `trace`: what holds of every session.
  - `config`: settings from the environment.
  - `json`, `codec`: the boundary to `serde_json` and `base64`.
- `app/` is the program: the connection, stdin, stdout and the clock.
- `tests/` runs the library.

## Protocol

stdin:

```json
{"type":"audio","audio_base64":"...","commit":false}
{"type":"audio","audio_base64":"...","commit":true}
{"type":"finish"}
{"type":"cancel"}
```

stdout:

```json
{"type":"session_started"}
{"type":"partial","text":"..."}
{"type":"final","text":"..."}
{"type":"error","message":"..."}
{"type":"closed"}
```

`audio_base64` is mono `S16_LE` PCM at 16 kHz.

## Environment variables

- `VINPUT_ASR_URL` (fallback `VINPUT_WS_URL`): WebSocket endpoint.
- `VINPUT_ASR_MODEL` (fallback `VINPUT_WS_MODEL`): served model name.
- `VINPUT_ASR_DEBUG` (fallback `VINPUT_WS_DEBUG`): log to
  `/tmp/vinput-ws-provider.log` when set to `1` or `true`.
