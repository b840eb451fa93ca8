# resilum-core

The shared core of a Resilum node: the decisions and encodings behind its iroh
transport, its link sessions and its LXMF messaging, each with a contract that
Verus proves.

- `src/` is the library, verified with Verus.
  - `iroh/`: how an endpoint is announced (raw and text forms), the protected
    transport's addresses, the name a link is attached under, the endpoint
    plan built from the configuration, and bootstrap peers.
  - `link/`: routing link events onto per-session channels, and the steps of
    dialling a link and waiting for an answer.
  - `lxmf/`: the queues the caller polls (received messages first, then
    delivery updates, with one place per announcing peer and a bounded
    queue), the tokens a refusal is told as, the parsing of send and re-queue
    requests, the re-queue state machine, the router's checkpoint slots, and
    which stamps are being ground.
  - `letting_go.rs`: results dropped on purpose, each named for why.
- `app/` runs it: the iroh endpoint, the leviculum node processor, files,
  threads and JSON rendering. Every decision it acts on is made in `src/`.
- `tests/` exercises the library on concrete values.
