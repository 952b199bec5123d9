# offchain

Verified helpers for off-chain workers of a Substrate-style runtime: choosing the accounts that
sign (`Signer`, with `ForAll` / `ForAny`), signing messages and payloads, and submitting signed
and unsigned transactions.

- `src/crypto.rs`: key and account types (`SigningTypes`, `Account`), account nonces
  (`AccountIndex`, which wrap around past their maximum), the keystore key interface
  (`RuntimeAppPublic`) and application crypto (`AppCrypto`) with its signing and verification,
  and the law that a signature it makes verifies.
- `src/select.rs`: running a step for the accounts of a list of keys, for all of them or until
  one produces a result, threading a state through the runs, with the laws that relate the two.
- `src/signer.rs`: `Signer`, the keys it uses (the keystore's, or those of a filter that the
  keystore holds), `can_sign`, `for_all`, `for_any`.
- `src/submit.rs`: the `Offchain` run (transaction pool, chain nonces, nonces stored in the run,
  and a record of what was handed to the pool), building and encoding extrinsics, and the nonce
  that follows a signed submission.
- `src/send.rs`: `SignMessage`, `SignedPayload`, `SendSignedTransaction`,
  `SendUnsignedTransaction` and their implementations for `Signer`.
- `app/lib.rs`: the node side: the transaction pool host call, reading and writing the nonces
  of `System::Account`, keystore keys, SCALE encoding and runtime extrinsics, adapted to the
  library's traits.

The library reaches the transaction pool and the chain's nonces only through the functions an
`Offchain` run is made with. The contracts state, over the run's record, what is handed to the
pool and which nonces are stored, for every answer those functions give.
