# voice_ai_orchestrator

The decisions of a telephone voice agent, written and proved in Verus, and a
server that runs calls by them.

An agent takes a media stream of a telephone network, hears the caller, and
answers with one of two stacks: a speech-to-speech model, or a transcriber, a
language model and a voice of different providers. The library decides what each
message means, when a turn is answered, when the caller interrupts, what audio is
stale, and what is kept of a call. The server connects the sockets, keeps the
time and mixes the samples.

## Layout

- `src/` is the library. Verus checks every function against its contract, but
  for those that call another crate or the standard library: their contracts are
  believed. They stand in `json`, `payload`, `audio`, `environment`,
  `text_stream` and `text`, and the comment above each says what is believed of
  which function.
  - `text`, `json`, `payload`, `environment`: texts, JSON values, Base64 and
    variables.
  - `audio`, `wav`, `rng`, `humanize`, `mixer`: mu-law, sound files, the speech
    detector, and how a reply is made to sound human.
  - `config`, `response_policy`, `signals`: settings, budgets of replies, and the
    state that the parts of a call share.
  - `twilio`, `openai_realtime`, `split_providers`, `deepgram`, `text_stream`,
    `text_worker`, `cartesia`: the two sides of a call.
  - `entities`, `tracking`: what a transcript gives away, and the records.
- `app/` is the server around the library: sockets, files, time and the floating
  point of the mixer.
- `tests/` runs the library on known values.

Functions whose names start with `law_` state what holds of several functions
together.
