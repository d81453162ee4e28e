# commandcode_proxy

A proxy that lets clients of three protocols talk to the Command Code API:

| Endpoint | Protocol |
|---|---|
| `POST /v1/chat/completions` | OpenAI Chat Completions, streamed or not |
| `POST /v1/responses` | OpenAI Responses, streamed or not |
| `POST /v1/messages` | Anthropic Messages, streamed or not |
| `GET /v1/models` | the list of models |
| `GET /health`, `GET /` | whether the proxy is alive |

`src/` is a library whose functions carry contracts that Verus proves: reading requests, building
upstream requests, device fingerprints, sessions, translating upstream events, mapping errors, and
deciding what is answered. It does no input or output. `app/` is the server around it: sockets,
files, environment variables, timers and the log.

## Layout

- `src/text.rs`, `src/float.rs`, `src/json.rs`, `src/table.rs`: texts, double-precision numbers,
  JSON values and keyed tables, with their models
- `src/util.rs`: time, randomness, hashes, API keys, readings of JSON values
- `src/config.rs`, `src/startup.rs`, `src/logging.rs`: settings, checks at the start, log lines
- `src/fingerprint.rs`: the device that an API key shows
- `src/errors.rs`: upstream failures, finish reasons, usage
- `src/cc.rs`: the upstream request
- `src/state.rs`: sessions, announced devices, models, requests in flight
- `src/translate/`: the three protocols, requests and events
- `src/http_util.rs`, `src/handlers/`: bodies, lines, replies, and the endpoints
- `app/`: the server
- `tests/`: what the library does on given inputs

## Settings

`config.json` and `models.json` are looked for beside the program, then in the working directory.
`config.json` holds `port`, `host`, `apiKey`, `apiBase`, `projectSlug`, `logFile`, `logLevel`,
`useProviderModels`, `modelRefreshIntervalMs`, `zdr`, `cliMode`, `cliSessionMode`,
`fingerprintSalt`, `deviceProjectDir`, `emptySystemPlaceholder` and `upstreamProxy`; environment
variables come before it. `models.json` (`{"data": [{"id": "..."}]}`) names models that are listed
before the built-in ones, which hold no Anthropic model; the first of all is the model of a message
whose request names none. `projectSlug` is sent as the header `x-project-slug`.
