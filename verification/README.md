# ai_provider_proxy

A gateway that lets clients of the Anthropic Messages API and clients of the OpenAI chat API
talk to model servers through one endpoint, with tool calls and streaming in both dialects.
The library under `src/` is verified with Verus; the program under `app/` does the reading,
the sending and the waiting.

| Part | What it holds |
|---|---|
| `src/converter/` | Requests, answers and event streams, from either protocol to the other |
| `src/brain/` | The gateway: connections, sign-in, planning, streams, hosted tools, workers, metrics |
| `src/lmodel/` | The worker's side: the tunnel, the request to the model server, its answer |
| `src/json.rs`, `src/text.rs`, `src/buffer.rs`, `src/strmap.rs`, ... | What all of them build on |
| `app/` | The program: sockets, the database, the clock, the environment |
| `tests/` | Tests that run the library on concrete values |

Each executable function says in its contract what it returns, over models of the data
(`JsonModel`, `EventModel`, ...). What holds of several functions together, or of every stream,
is stated by public proof functions: that a translated stream can be followed whatever the
upstream sends, that a body or a line is read the same however its bytes are cut and an event
stream however its text is, that what a model thought never reaches a prompt, that turns
alternate.

What is taken on trust is small and marked: calls into `serde_json`, `bytes`, `httparse`,
`jsonwebtoken`, `sha1`, `base64`, `rand`, `uuid`, `url`, `urlencoding`, `mime_guess` and a few
functions of the standard library, each with a comment that says what is claimed of it.

## Running

    ai_provider_proxy          # the gateway; BRAIN_PSK must be set
    ai_provider_proxy worker   # a worker beside a model server

| Variable | Default | |
|---|---|---|
| `BRAIN_PSK` | | The shared key, required |
| `BRAIN_ADDR` | `127.0.0.1:9999` | The address to listen on |
| `BRAIN_STREAM_BUFFER_CHUNKS` | `1024` | Chunks that wait for a slow client |
| `BRAIN_WORKER_TIMEOUT` | `120` | Seconds of silence before a worker is given up |
| `BRAIN_MODEL_ALIASES` | | `alias=model,...` |
| `BRAIN_DEFAULT_CTX` | `32768` | The context of a worker that states none |
| `BRAIN_SEARXNG_URL` | | Turns the hosted web tools on |
| `BRAIN_EGRESS_MODE`, `BRAIN_EGRESS_DOMAINS` | `deny_all` | What may be fetched |
