# state_keeper_oracle

Verified pieces of a zkSync state keeper that injects oracle price updates.

- `src/primitives.rs`: 256-bit words, hashes and addresses as big-endian bytes,
  with `be_nat` as the value a byte string denotes.
- `src/bootloader.rs`: the bootloader's initial memory for a batch: the eight
  header slots and the oracle calldata (length at slot 8, 32-byte words from
  slot 9), with the laws that the calldata reads back and that the slots are
  consecutive and within their reservation.
- `src/oracle_tx.rs`: the oracle price update transaction; the Keccak-256 input
  hash comes from `tiny-keccak`.
- `src/operator_key.rs`: the operator's signing key from hex text (decoded by
  `hex`, checked against the secp256k1 group order) and the oracle
  configuration path.
- `app/lib.rs`: reading the environment and the calldata size guard.
