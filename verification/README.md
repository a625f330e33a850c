# rquickjs_utils

Helpers for running JavaScript in QuickJS from Rust: a `Date` object, `fetch` with
`Headers` and `Response`, `console.log`, one-shot channel and timer handles, and a
command-line host with a REPL.

The library in `src/` is written in Verus. Its functions carry contracts that Verus proves,
except the calls into `chrono`, `http`/`reqwest` and std marked `#[verifier::external_body]`:
their contracts are assumed, and each one's doc comment says what it claims of the outside
function.

- `calendar` — the proleptic Gregorian calendar as a model of millisecond timestamps, with
  the proofs that a timestamp and its reading determine each other.
- `clock`, `parse`, `format` — the calls into `chrono` (readings, field changes, parsing,
  formatting), each with a stated contract.
- `date` — the JavaScript `Date` over a timestamp: constructors, getters, setters and
  string forms.
- `headers`, `fetch` — the `Headers` multimap over `http`'s `HeaderMap`, and the decisions
  of `fetch` (request from arguments, status of a response).
- `console`, `text` — `console.log` rendering and JSON-style escaping.
- `repl_input` — when a typed command is complete (bracket balance outside strings).
- `handles`, `session` — one-shot handles and the decisions of a command-line session.

`app/` is the command-line program: the QuickJS runtime (`rquickjs`), the JavaScript classes
that hand their work to the library, HTTP with `reqwest`, timers with `tokio`, and the REPL
with `rustyline`.
