# ninoverse

A small orchestrator. `core` boots a container stack from compose files, opens
its database, and serves requests next to a message broker. `init` provisions
kanidm (groups, persons, OAuth2 clients) and the APISIX gateway (routes).

- `src/` is the library: parsing, rules and state machines, each with a contract
  that Verus proves. A machine takes what happened and says what to do next; it
  performs nothing itself.
- `app/` performs: it reads files, talks to Docker, Kafka, Postgres and the
  network, and hands the outcome back to the library.
- `tests/` runs the library on concrete values.

Calls into other crates stand behind functions marked
`#[verifier::external_body]`. Their contracts are believed, not proved; the
comment above each says what it claims.
