# stealth_http

The decisions of an HTTP client that passes for a browser, proved in Verus:
which header fields a request carries, when an interceptor is asked, which
redirects are followed and for how long, when a response may be shared across
origins, how much of a body is read, and what is counted as received.

- `src/` is the library. Nothing in it touches the network. A fetch is a chain
  of states; each state says what is to be done and has a method for each thing
  that can happen. `chain.rs` holds the model of a fetch, `fetch.rs` the states,
  `laws.rs` what holds of every fetch, and `traffic.rs` what holds of all calls
  on a client together.
- `tests/` drives the library with scripted servers.
- `app/` is the client on the network, around the `wreq` transport. What it
  needs of the network stack that it belongs to (cookies, block list, origin
  rules, the estimate of transfers that the transport does not count) is the
  trait `NetworkStack`.
