# fpga

Batches of Solana packets for ed25519 signature verification on an FPGA, written in Verus.

- `src/packet.rs`: packets, and the search for the signatures, account keys and message of the
  transaction that one carries; recognition of simple votes.
- `src/batch.rs`: the flat arrays that the device reads, and the verdict for each packet.
- `src/wire.rs`: the wire format that the contracts speak of.
- `src/laws.rs`: what holds of the library as a whole.
- `src/outside.rs`: what is taken on trust from the Solana crates.
- `app/`: the native device behind the library.
