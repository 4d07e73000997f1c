# benito_core

The core of an agent that is embedded in a host application: it keeps the state of
the agent and decides what is done with prompts, tool calls, memory, permissions,
turn limits and the context window. The library under `src/` is written in Verus;
each of its functions has a contract, and the contracts are proved. What the proofs
rest on are the wrappers marked `external_body` in `text`, `json` and
`whisper_engine`: each makes one call into the standard library, `serde_json` or
`parking_lot`, and its contract is trusted.

- `agent` holds the state of an agent and the calls that read and change it.
- `turn` takes in prompts and says what a turn runs on and what is reported of it.
- `tool` announces tool calls, hands them to the host and reads the replies.
- `context` watches the context window, on the double arithmetic of `doubles`.
- `memory`, `approval`, `scope`, `stop` and `subagent` are the parts of an agent.
- `provider`, `chat`, `dev_paths` and `whisper_engine` stand on their own.
- `text` and `json` hold what is needed of strings and of `serde_json`.

Numbers with a fraction are carried as the bit patterns of doubles, a pointer that
may be null is an `Option`, and a C string is a slice of its bytes.

Functions named `law_..` are proofs: each states, in its doc comment and in its
`ensures`, something that holds of the library as a whole.

`app/` is the C interface around the library: raw pointers, the Tokio runtime, the
clock and the file system. A host application that wants replies from a model
installs a `Backend` there.
