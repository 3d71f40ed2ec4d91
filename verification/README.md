# kanon-cost

What verifying an oracle's price update costs inside a zkVM: one keccak256 hash
and one secp256k1 public-key recovery per signer.

- `src/` is the library, verified with Verus. It holds the guest workloads, the
  packages that deterministic signers make, the plan of every measurement and
  what is concluded from it. Its contracts rest on what `tiny-keccak`, `k256` and
  `risc0-zkvm` are stated to do in `src/primitives.rs` and `src/wire.rs`.
- `tests/` runs the library against the real crates.
- `app/` runs guests, times proofs and prints reports. It reads guest images from
  a directory: `<dir>/<configuration>/<guest>`. `app/platform.rs` needs
  `lee_core`, which is only available from its git repository.
