# bfte

The verified core of a BFT consensus node, written in Verus.

Peers of the consensus agree, block by block, on consensus items. This
library decides what every item does:

- `consensus_ctrl`: the consensus control module. Peers vote to add or remove
  a peer and to add or upgrade modules; a threshold of the current peers
  decides (`num_peers`, `votes`).
- `core_consensus`: the simpler peer-set module that votes on peers only.
- `meta`: a key-value module whose values are agreed on by vote.
- `node_app`: the application layer. It sets the modules up from their
  configurations, hands each finalized item to the module it names, applies
  the effects the modules report, and keeps cached copies of the peer set
  and module configurations equal to what the control module records.
- `ui`: the decisions of the web interface: what its forms mean, where
  requests are redirected, how errors are answered.
- `outside`: the calls into `hex`, `urlencoding`, `url`, `blake3` and std
  that the library relies on, each with the contract it is trusted to meet.

Each public function states its result in `ensures`; the properties that
span several calls (repeated votes change nothing, the peer set never
becomes empty, upgrades never go back, the caches stay consistent, parsing
reads back what printing wrote) are proof functions in the `laws` modules
and next to the code they speak of.

`app/` holds the ordinary Rust around the library: byte encodings of items
and effects, the web server's middleware and form decoding, and the main
loop that waits for finalized blocks. `tests/` runs the library on concrete
values.
