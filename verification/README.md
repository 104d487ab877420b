# kiro_provider

Calls to the Kiro API over many accounts: failover, retries with backoff, limits on requests in
flight and on requests per minute, and the headers and addresses of the requests. The rules are a
library that Verus proves; the runtime around it is ordinary Rust.

- `src/` is the library.
  - `retry` is one call as a state machine: it takes events and asks for actions. `status` says what
    becomes of a response, `backoff` how long to wait.
  - `concurrency` hands out slots for requests in flight under a limit that can change at any time.
  - `rpm_limiter` counts requests in a sliding window of 60 seconds.
  - `headers`, `endpoint` and `request` say what is sent and what is read in bodies; `json` looks
    texts up in documents.
  - `settings` reads the values of environment variables, `clients` keeps one HTTP client for each
    proxy, `provider` ties it all together, and `text` holds what the others need of strings.
- `tests/` runs the library on concrete values.
- `app/` runs the library: it sends requests with `reqwest`, waits on `tokio`, and talks to a manager
  of the accounts through the trait `TokenManager`.

What the outside crates do is stated in the contracts of the functions marked
`#[verifier::external_body]`. Each makes one outside call, and some turn its result into text or a
number by another. Everything else is proved.
Public proof functions whose names begin with `law_` state what holds of the library as a whole.
