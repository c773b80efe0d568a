# star

Anonymous, rate-limited access tokens issued by an SGX enclave, as a Verus
library with its contracts proved.

A client obtains a credential from the enclave once, over an HPKE channel.
For each request it then presents the credential with a request number and
the current one-minute period; the enclave answers with a token only when the
credential is genuine, the period is the current one and the number is below
the per-period limit. A duplicate filter in front of the service lets each
token through once, on the routes a server serves.

## Layout

- `src/ct`: constant-time comparison and selection of byte strings, periods.
- `src/star_core`: credentials, tokens, the enclave's issuing logic, the
  client, and the secure channel between them.
- `src/filter_box`: the duplicate filter interface and its hash-map filter.
- `src/serv`: the server's filter, its TLS extension decisions, HTTP answers,
  enclave-call bookkeeping and startup output.
- `src/enclave_app.rs`: the enclave's operation dispatcher and host interface.
- `src/client_auth.rs`, `src/client_proxy.rs`: registration, the client's
  per-period budget, and the header rewriting of the client proxy.
- `src/tools`: quote parsing, the local attestation policy, DCAP statuses and
  the verifier's command line.
- `src/laws.rs`: properties that span several operations.
- `app/`: the verifier program, HTTP calls, disk-backed and Bloom filters.
- `tests/`: tests of the library.
