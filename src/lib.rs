//! A multi-party document-signing ledger: each document is a token that binds
//! a content hash, a deadline, a metadata URI and a list of designated signers,
//! each with a signature status.

pub mod table;
pub mod amount;
pub mod laws;
pub mod ledger;
pub mod types;

pub use amount::check_nonnegative_amount;
pub use ledger::{owner_of, token_exists, Ledger, PetalDocuments};
pub use table::Table;
pub use types::{AlreadyInitialized, Error, SignatureStatus, SignedMessage};
