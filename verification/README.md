# google

Bindings for the Gemini Interactions API: the typed wire in both directions,
with its logic proved by Verus.

Outbound, a request body whose invalid forms are not values: one type per
model carrying only the parameters it accepts, and an append-only
conversation whose model steps are replayed exactly as received and whose
function calls are answered before the model is asked again. Inbound, a
frame decoder, a streaming accumulator and a buffered decoder, none of which
can turn an unfinished interaction into a finished turn.

## Layout

* `src/` is the verified library. JSON is held as the crate's own `Json`
  values (`src/json.rs`), each with a mathematical view, so the request body
  each call writes and the events each frame decodes to are stated exactly in
  the functions' contracts. Reading JSON text goes through `serde_json`,
  base64 through the `base64` crate, and a few string operations through the
  standard library; each such call sits behind a small wrapper whose contract
  says what the call returns.
* `src/settle.rs` states the streaming accumulator as a state machine
  (`next`) and proves its laws: every event keeps it well formed, a stream
  without `interaction.completed` never settles, nothing is accepted after
  completion but the closing sentinel, usage only grows, and closed steps are
  never changed.
* `src/usage.rs` proves that joining usage reports is a lattice join.
* `app/` holds what is not verified: `serde` serialization and
  deserialization of the library's values, and the human-readable text of
  its errors.
* `tests/` exercises the library on concrete bodies and streams.
