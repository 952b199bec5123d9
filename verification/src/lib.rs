//! Helpers for off-chain workers: choosing the accounts that sign, signing messages and
//! payloads, and submitting signed and unsigned transactions.
//!
//! The work that leaves the runtime goes through an `Offchain` value that the caller makes: the
//! transaction pool as a function that takes an encoded extrinsic, and the nonces stored on
//! chain as a function that reads one. Its record of what was handed to the pool and which
//! nonces were stored is what the contracts speak of.
pub mod crypto;
pub mod select;
pub mod send;
pub mod signer;
pub mod submit;

pub use crypto::{Account, AccountIndex, AppCrypto, IdentifyAccount, RuntimeAppPublic, SigningTypes};
pub use send::{SendSignedTransaction, SendUnsignedTransaction, SignMessage, SignedPayload};
pub use signer::{ForAll, ForAny, Signer};
pub use submit::{
    nonce_after_submission, CreateSignedTransaction, Encode, Extrinsic, Offchain,
    SendTransactionTypes, SubmitTransaction,
};
