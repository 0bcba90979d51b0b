//! Core of a creator-tipping service: a creator registry, an append-only tip
//! ledger with exactly-once recording per external transaction signature, and
//! a wallet linker that binds a wallet address to a creator only after a
//! verified ed25519 proof of control.
mod creator;
mod ledger;
mod response;
mod wallet;

pub use creator::{CreateCreatorInput, Creator, Registry, RegistryError, UpdateCreatorInput};
pub use ledger::{CreateTipInput, Tip, TipError, TipLedger, TipOutcome, TipReceipt};
pub use response::ApiResponse;
pub use wallet::{link_wallet, LinkError, WalletLinkInput, WalletLinkResponse};
