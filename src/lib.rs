//! Canonicalisation and public-output encoding of attested bank-transfer claims.
//!
//! A signed claim and the transfer record it carries are validated, hashed,
//! resolved to fixed-width identities and encoded with the Ethereum contract
//! ABI head/tail layout, giving the byte string that a proof commits to.
pub mod records;
pub mod identity;
pub mod abi;
pub mod pipeline;
pub mod decode;
