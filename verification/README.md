# script_bridge

The logic of the JavaScript scripting bridge of a browser-automation daemon,
verified with Verus.

- `src/text.rs`: substring search, text equality, joining, and the code point
  order of texts with its laws.
- `src/messages.rs`: verb aliases, the error texts of the bridge (with the
  hints for top-level evaluation), the wrapping of a one-shot program.
- `src/contexts.rs`: `JsContexts`, the registry of persistent named script
  contexts kept in name order, and the decisions of a run in a named context
  (refusal of unknown or busy contexts, release of dead ones, the busy flag).
  The contexts are held in a `Vec` kept sorted by name, with no name twice,
  rather than in a `HashMap` keyed by `String`: vstd's `HashMap`
  specifications need `obeys_key_model` for the key type, which vstd gives for
  integer, `bool` and boxed keys but not for `String`, and it can only be had
  by assuming it. The sorted order also gives `names` its order.
- `src/run.rs`: a run in a named context as a step function from the
  caller's report to the next action, with the law that a context is busy
  only while its job is in flight.
- `src/engine.rs`: evaluation on the Boa engine (prelude, one-shot run,
  top-level run), behind small trusted wrappers.
- `src/bridge.rs`: the JSON commands and replies of the `cu.*` bridge, over
  `serde_json`.
- `app/lib.rs`: the threads, channels and async actor loops that drive the
  above (not verified).
