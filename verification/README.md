# guardrails_core

The verified core of a guardrails orchestrator:

- `health`, `client_code`: how answers to health checks are read, cached, shown
  and serialized.
- `batcher`, `chunk`, `detection`: how detections for chat completions are
  collected and handed out chunk by chunk, in order.
- `health_laws`, `batcher_laws`: what holds of the two as a whole.
- `string_map`, `assoc`, `text`: the collections and the text that they are
  built on.
- `outside`: what is believed of the HTTP and gRPC crates.

`app/` holds the asynchronous traits, the lock round the cache, logging and the
JSON of the service.
