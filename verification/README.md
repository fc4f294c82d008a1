# chat_generation

How a chat turn is generated, stopped and saved, verified with Verus.

A turn follows a producer that streams an answer. The user may stop it at any
time until the answer is being stored. Each turn stores at most one message, ends
once, and never reports an answer that the store did not confirm. A stop keeps
what was published, and of the tool exchange the calls that were answered.

- `src/` is the verified library. `generation` is the turn as a machine of events
  and actions; `collect`, `save` and `exchange` are its parts; `history` tells the
  next turn of a stopped answer; `generation_laws` and `exchange_laws` hold what is
  proved of every turn and every exchange. `json` and `value` are the JSON that
  passes through and its way to and from `serde_json`.
- `app/` drives the machine: it waits for the producer and the user, publishes
  frames and stores messages. What the server around it supplies are the traits in
  `app/ports.rs`.
- `tests/` runs the library on concrete turns, exchanges and values.
