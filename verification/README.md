# citrea_network

The network of a rollup node: which peers it keeps and dials, what it downloads and from whom, how it finds other nodes
and makes itself known, and what it answers its peers.

`src/` is the library. It decides, and every decision is proved with [Verus](https://github.com/verus-lang/verus)
against the contract that stands with it.

| Module | What it holds |
| --- | --- |
| `config` | the settings, their defaults, and how the environment sets them |
| `text` | reading lists, numbers and switches out of text |
| `types`, `rpc` | what is kept about peers, and what nodes say to each other |
| `peer_map` | a table with at most one value for each peer |
| `peer_manager` | scores, bans, the target number of peers, whom to dial and whom to drop |
| `sync_manager` | when to download which blocks from which peer, and whom to report |
| `network` | the events of the peer-to-peer network |
| `gossip` | the identity of gossiped messages |
| `service` | what peers are answered |
| `addr`, `enr`, `discovery` | addresses, signed records, keys, and the record of the node itself |
| `secret` | the secret that the keys come from, and how it is stored |
| `outside` | what is taken from libp2p, discv5, hex and rand, and what is taken for granted of it |

Laws that span several functions stand as proof functions whose names start with `law_`.

`app/` is the rest, in ordinary Rust: sockets, files, timers, the environment, and the form in which values are sent and
stored. The ledger of the node, its blocks and its way of scoring peers come in through the traits of `app/ledger.rs`.
