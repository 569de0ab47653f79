use vstd::prelude::*;

verus! {

/// Where a designated signer stands on a document.
///
/// `NotASigner` is the answer for someone who is not enrolled; it is never
/// stored for an enrolled signer.
#[derive(Clone, Copy, Debug, PartialEq, Eq, Structural)]
pub enum SignatureStatus {
    NotASigner,
    Rejected,
    Signed,
    Waiting,
}

impl View for SignatureStatus {
    type V = SignatureStatus;

    open spec fn view(&self) -> SignatureStatus {
        *self
    }
}

/// The failures of minting and signing, each with a stable numeric code.
#[derive(Clone, Copy, Debug, PartialEq, Eq, PartialOrd, Ord, Structural)]
pub enum Error {
    TokenNotMinted,
    DocumentSigningsIsEmpty,
    NotASigner,
    AlreadySigned,
    SignerDoesNotExist,
    DocumentHashesIsEmpty,
    DocumentHashesDoesNotMatchTokenHash,
    HashNotFound,
    DeadlinesIsEmpty,
    DeadlinePassed,
    DeadlineNotFound,
    SignatureExpired,
    TokenAlreadyMinted,
    TokenDoesNotExist,
    SignersListEmpty,
}

impl Error {
    pub open spec fn spec_code(self) -> u32 {
        match self {
            Error::TokenNotMinted => 1,
            Error::DocumentSigningsIsEmpty => 2,
            Error::NotASigner => 3,
            Error::AlreadySigned => 4,
            Error::SignerDoesNotExist => 5,
            Error::DocumentHashesIsEmpty => 6,
            Error::DocumentHashesDoesNotMatchTokenHash => 7,
            Error::HashNotFound => 8,
            Error::DeadlinesIsEmpty => 9,
            Error::DeadlinePassed => 10,
            Error::DeadlineNotFound => 11,
            Error::SignatureExpired => 12,
            Error::TokenAlreadyMinted => 13,
            Error::TokenDoesNotExist => 14,
            Error::SignersListEmpty => 15,
        }
    }

    /// The error's stable numeric code.
    pub fn code(&self) -> (r: u32)
        ensures
            r == self.spec_code(),
    {
        match self {
            Error::TokenNotMinted => 1,
            Error::DocumentSigningsIsEmpty => 2,
            Error::NotASigner => 3,
            Error::AlreadySigned => 4,
            Error::SignerDoesNotExist => 5,
            Error::DocumentHashesIsEmpty => 6,
            Error::DocumentHashesDoesNotMatchTokenHash => 7,
            Error::HashNotFound => 8,
            Error::DeadlinesIsEmpty => 9,
            Error::DeadlinePassed => 10,
            Error::DeadlineNotFound => 11,
            Error::SignatureExpired => 12,
            Error::TokenAlreadyMinted => 13,
            Error::TokenDoesNotExist => 14,
            Error::SignersListEmpty => 15,
        }
    }
}

/// A signature request on a document, as a signer is shown it.
pub struct SignedMessage {
    pub deadline: u64,
    pub description: String,
    pub document_hash: String,
    pub document_uri: String,
    pub signer: String,
    pub status: SignatureStatus,
    pub token_id: u32,
    pub nonce: u32,
}

/// `init` was called on a ledger that already has an administrator.
#[derive(Clone, Copy, Debug, PartialEq, Eq, Structural)]
pub struct AlreadyInitialized;

} // verus!
