# cadmus

The decisions of a coding agent, verified with Verus: what the loop sends to the model, records,
publishes and executes, and what it makes of a model's stream. The library performs no effects of
its own. It is told what happened and says what to do next.

## Layout

- `src/contract/`: the provider-neutral types: messages, requests, stream chunks, events, commands,
  capabilities, errors, eval cases.
- `src/runtime/`: the pure half of the runtime.
  - `assembler`: a stream of chunks becomes one assistant turn.
  - `context`, `trailer`: the frozen prefix and the status trailer of a request.
  - `trajectory`: a log of events folds back into the state of its run.
  - `skills`, `eval`, `replay`: skill files, scoring, and a scripted provider.
  - `agent/`: the loop. `session` is the state machine (a report in, an action out); `run` holds a
    run between steps; `dispatch`, `gate`, `inbox`, `fold` and `ledger` are its parts; `ending`,
    `growth`, `watching` and `success` state what holds of whole runs.
- `src/openai/`: the OpenAI-compatible wire: vendor dialects, requests, errors, and the stream;
  `stream_laws` and `arrival` state what holds of whole streams.
- `src/json.rs`, `src/text.rs`, `src/pairs.rs`, `src/copies.rs`: JSON values, text and small
  collections.
- `app/`: the asynchronous side: ports, the driver of a session, the genai client, serde records and
  the suites that an implementation of a port has to pass.
- `tests/`: the library at work on concrete values.

Contracts speak of views: what owns text or lists has one, and plain values stand for themselves (a
context bundle shows in the view of the loop that it wires). What the library takes from outside
(`serde_json`, `time`, `genai`, formatting in `std`) stands behind small functions whose doc comments
say what is taken on trust.
