# zeptoclaw

The core of the ZeptoClaw assistant framework as a Verus-verified library.

- `src/` — the verified library: the agent's loop guard, middleware pipeline
  and per-stage decisions, the message bus records, the audit hash chain, the
  OAuth PKCE and callback handling, credential import and the token store,
  the panel API's authentication (API tokens, passwords, HS256 session
  tokens), task board and OpenAI-compatible request,
  response and streaming logic, and the protocol logic of the ACP, MQTT,
  serial, Webex and WhatsApp channels. Every public function that computes
  a result carries a contract (the exceptions are the clock reading
  `unix_now` and the constructors of field-less types); calls into outside crates (hashing, encodings, random numbers,
  clocks, bcrypt, JWT encoding, date parsing, JSON) go through a small set of trusted
  wrappers whose contracts are stated next to them.
- `tests/` — tests on concrete values, run against the compiled library.
- `app/` — the runtime edges around the library: HTTP servers and clients,
  stdio, serial ports, MQTT, files, the OS keychain, JSON wire formats and the
  floating-point context heuristics.
