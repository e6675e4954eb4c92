# LMX

A provider engine: one way to ask the providers of language models for
responses, images, videos and speech.

- `src/` is the library. It builds every request and takes in every answer. It
  reads no file, opens no connection and does not wait. Its functions are verified
  by Verus against contracts over plain values, except for small wrappers round
  functions of other crates, in `codec`, `endpoint`, `json`, `pixels`, `speech` and
  `text`; what is believed of each of those without proof is written above it.
- `app/` is the host side: connections, files, the environment, clocks, and the
  bindings for Node and Python. It hands plain values to the library and gets
  plain values back.
- `tests/` runs the library on concrete values.

| Modules | What they hold |
| --- | --- |
| `response`, `machine`, `tokens`, `properties`, `courses` | requests for a response, its rounds, its compaction, and what holds of every response |
| `providers`, `auth`, `azure`, `catalog`, `discovery`, `endpoint` | providers, their credentials, models and addresses |
| `bedrock`, `eventstream`, `signing`, `calendar` | conversations with Amazon Bedrock |
| `images`, `pixels`, `keying`, `chroma`, `matting` | images and their transparency |
| `speech`, `codex_speech` | recordings that say their script |
| `video`, `transport`, `session` | videos, the events of streams, sessions of a host |
| `json`, `text`, `ordered`, `codec`, `error` | values, texts, ordered maps, digests and errors |
