use vstd::prelude::*;

use crate::ledger::Ledger;
use crate::types::SignatureStatus;

verus! {

/// A token id can be minted successfully only once: after a successful mint,
/// minting the same id again fails, whatever the other arguments.
pub proof fn lemma_mint_only_once(
    l: Ledger,
    to: Seq<char>,
    token_id: u32,
    meta_uri: Seq<char>,
    signers: Seq<String>,
    document_hash: Seq<char>,
    deadline: u64,
    n_signers: nat,
)
    requires
        l.mint_error(token_id, signers.len()) is None,
    ensures
        l.minted(to, token_id, meta_uri, signers, document_hash, deadline).mint_error(
            token_id,
            n_signers,
        ) is Some,
{
}

/// After a successful signature the signer's nonce strictly increases,
/// except when no nonce at all was recorded before: then it is recorded as 0.
pub proof fn lemma_sign_advances_nonce(
    l: Ledger,
    document_hash: Seq<char>,
    signer: Seq<char>,
    status: SignatureStatus,
    token_id: u32,
    now: u64,
)
    requires
        l.sign_error(document_hash, signer, status, token_id, now) is None,
        l.nonce_of(signer) < u32::MAX,
    ensures
        l.nonces != Map::<Seq<char>, u32>::empty() ==> l.signed(signer, status, token_id).nonce_of(
            signer,
        ) > l.nonce_of(signer),
        l.nonces == Map::<Seq<char>, u32>::empty() ==> l.nonce_of(signer) == 0 && l.signed(
            signer,
            status,
            token_id,
        ).nonce_of(signer) == 0,
{
}

/// A signature given after the document's deadline changes neither the
/// signatures nor the nonces.
pub proof fn lemma_late_signature_changes_nothing(
    l: Ledger,
    document_hash: Seq<char>,
    signer: Seq<char>,
    status: SignatureStatus,
    token_id: u32,
    now: u64,
)
    requires
        l.deadlines.contains_key(token_id),
        now > l.deadlines[token_id],
    ensures
        l.sign_error(document_hash, signer, status, token_id, now) is Some,
        l.sign_outcome(document_hash, signer, status, token_id, now).documents == l.documents,
        l.sign_outcome(document_hash, signer, status, token_id, now).nonces == l.nonces,
{
}

/// A signature over another hash than the document's changes nothing.
pub proof fn lemma_wrong_hash_changes_nothing(
    l: Ledger,
    document_hash: Seq<char>,
    signer: Seq<char>,
    status: SignatureStatus,
    token_id: u32,
    now: u64,
)
    requires
        l.hashes.contains_key(token_id),
        l.hashes[token_id] != document_hash,
    ensures
        l.sign_error(document_hash, signer, status, token_id, now) is Some,
        l.sign_outcome(document_hash, signer, status, token_id, now) == l,
{
}

/// Someone who is not enrolled on a document changes nothing by signing it.
pub proof fn lemma_outsider_changes_nothing(
    l: Ledger,
    document_hash: Seq<char>,
    signer: Seq<char>,
    status: SignatureStatus,
    token_id: u32,
    now: u64,
)
    requires
        !(l.documents.contains_key(token_id) && l.documents[token_id].contains_key(signer)),
    ensures
        l.sign_error(document_hash, signer, status, token_id, now) is Some,
        l.sign_outcome(document_hash, signer, status, token_id, now) == l,
{
}

} // verus!
