# ExternEVM

The rules by which the nodes of a chain answer contracts that ask for data from
outside: the `API_CALL` precompile, the protocol store behind it and the `extern/1`
subprotocol between peers.

One validator, picked by the hash of the request, fetches; it commits to the value,
reveals it with an attestation of the TLS session that it came from, and its peers
take the value only where the commitment, the signature, the certificate and the time
hold.

## Layout

`src/` is verified with Verus.

| module | holds |
| --- | --- |
| `primitives`, `bytes`, `text`, `table` | words, addresses, numbers, texts, a table with one value for each key |
| `rlp`, `extern_proto` | the messages of the subprotocol on the wire, and the hashes that peers agree on |
| `records`, `store_view`, `protocol_store`, `store_laws` | the store: its records, its model, its operations, what it promises |
| `attestation`, `certificate` | who signed, how old, and whether a certificate covers a domain |
| `aggregate` | the median and the majority of what validators submitted |
| `json`, `response`, `abi` | a value inside a JSON response, and what a contract gets of it |
| `url`, `http`, `identity` | which hosts may be called, what is sent and taken, who the node is |
| `externevm`, `fetching`, `call_laws` | what a call of the precompile is answered, step by step, and what holds over calls and nodes |
| `extern_p2p` | what a peer's bytes do to the store, and what is sent in which order |

`app/` is the node around it: the environment, the clock, HTTP, the EVM and the network.

## What is believed without proof

The functions marked `#[verifier::external_body]`, each with a comment that names the
outside function it calls and says what is claimed of it: hashing and 256-bit numbers
of `alloy-primitives`, `alloy-rlp`, `alloy-sol-types`, `secp256k1`, `x509-parser`,
`serde_json` for strings, `rand`, and a few functions of the standard library.
