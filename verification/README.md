# moq_transfork

The session layer of MoQ Transfork: publish tracks to a peer, and subscribe to the tracks of a peer.

- `src/` is the verified library. It decides; it does not read or write. Its contracts say what
  every decision is, and its public proof functions (`law_*`) state what holds over several of them:
  that a group arrives as it was sent, that discovery finds exactly what is announced, that every
  group of a subscription is served once, and so on.
- `app/` runs sessions over WebTransport. It moves bytes between the library and the streams, and
  is generic over the wire format and over how tracks are kept.
- `tests/` runs the library.
