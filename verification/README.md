# axum_realtime_kit

The verified core of a toolkit for real-time applications with Axum, WebSockets and Redis
Pub/Sub, written in Verus.

- `src/ws/types.rs`, `src/ws/service.rs`: the connections of a server instance and the
  subscribers of each topic; the first subscriber of a topic makes the Redis listener
  subscribe to it, and the last one to leave makes it unsubscribe.
- `src/ws/listener.rs`: what the Redis listener does next, through connections, failures,
  commands and messages.
- `src/ws/routing.rs`, `src/ws/handler.rs`, `src/ws/upgrade.rs`: what is decided about
  frames, messages, handler errors and upgrades.
- `src/ws/laws.rs`: what holds over any history of a node, foremost that the listener's
  subscriptions follow the topics in use.
- `src/ws/protocol_laws.rs`: what holds over the frames of a client, the handling of a
  message, the publishing of an event, and a run of the Redis listener.
- `src/ws/history_laws.rs`: a run of the listener as part of the history of its node; whatever
  failed, a listener that is back to listening has repaired it.
- `src/coalescing.rs`, `src/coalescing_laws.rs`: one running operation per key.
- `src/auth.rs`: the token of a request and what becomes of it.
- `src/foreign.rs`: the calls into `dashmap`, `http`, `axum`, `serde_json` and `uuid`, with
  the contracts that are taken on trust.
- `app/`: the asynchronous tasks that carry out what the core decides.
