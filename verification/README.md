# coap_server

The core of a CoAP server (RFC 7252) with Observe (RFC 7641), block-wise transfer sizing
(RFC 7959) and resource discovery (RFC 6690), written in Verus: the routing, the protocol
decisions and the bookkeeping carry contracts that Verus proves.

- `src/` is the verified library: `app::path_matcher` (longest-prefix routing),
  `app::retransmission_manager` (message ids, reply matching, retransmission schedule),
  `app::observe_handler` and `app::observers` (observe registrations and sequence numbers),
  `app::core_link` (link format and discovery filtering), the builders, the packet
  classification in `app::app_handler`, `udp` (multicast planning) and `server`.
- `tests/` runs the library on concrete values.
- `app/` is the asynchronous runtime around it (tokio UDP transport, server loop, request
  handling over `coap_lite` packets).

The embedded (embassy) transport is not part of this crate: its crates are not among the
dependencies, so only the tokio UDP transport is provided.
