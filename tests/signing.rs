use petal_documents::{
    check_nonnegative_amount, owner_of, token_exists, AlreadyInitialized, Error, PetalDocuments,
    SignatureStatus, Table,
};

fn s(text: &str) -> String {
    text.to_string()
}

/// init(A), then token 1 for A with signers S1, S2, hash "h", deadline 1000.
fn minted_ledger() -> PetalDocuments {
    let mut d = PetalDocuments::new();
    assert_eq!(d.init(s("A"), 0), Ok(()));
    let r = d.safe_mint(s("A"), 1, s("u"), vec![s("S1"), s("S2")], s("h"), 1000);
    assert_eq!(r, Ok(1));
    d
}

#[test]
fn init_twice_fails() {
    let mut d = PetalDocuments::new();
    assert_eq!(d.init(s("A"), 0), Ok(()));
    assert_eq!(d.init(s("B"), 0), Err(AlreadyInitialized));
    assert_eq!(d.get_admin(), s("A"));
}

#[test]
fn mint_then_sign_happy_path() {
    let mut d = minted_ledger();
    assert_eq!(d.sign_document(&s("h"), &s("S1"), SignatureStatus::Signed, 1, 500), Ok(()));
    let doc = d.get_document(1);
    assert_eq!(doc.len(), 2);
    assert_eq!(doc.get(&s("S1")), Some(&SignatureStatus::Signed));
    assert_eq!(doc.get(&s("S2")), Some(&SignatureStatus::Waiting));
    assert_eq!(d.get_nonces(&s("S1")), 0);
}

#[test]
fn second_sign_increments_nonce() {
    let mut d = minted_ledger();
    assert_eq!(d.sign_document(&s("h"), &s("S1"), SignatureStatus::Signed, 1, 500), Ok(()));
    assert_eq!(d.safe_mint(s("A"), 2, s("u2"), vec![s("S1")], s("h2"), 1000), Ok(2));
    assert_eq!(d.sign_document(&s("h2"), &s("S1"), SignatureStatus::Signed, 2, 500), Ok(()));
    assert_eq!(d.get_nonces(&s("S1")), 1);
}

#[test]
fn deadline_passed() {
    let mut d = minted_ledger();
    let r = d.sign_document(&s("h"), &s("S1"), SignatureStatus::Signed, 1, 1001);
    assert_eq!(r, Err(Error::DeadlinePassed));
    assert_eq!(Error::DeadlinePassed.code(), 10);
    let doc = d.get_document(1);
    assert_eq!(doc.get(&s("S1")), Some(&SignatureStatus::Waiting));
    assert_eq!(d.get_nonces(&s("S1")), 0);
}

#[test]
fn deadline_itself_is_still_in_time() {
    let mut d = minted_ledger();
    assert_eq!(d.sign_document(&s("h"), &s("S1"), SignatureStatus::Signed, 1, 1000), Ok(()));
}

#[test]
fn wrong_hash() {
    let mut d = minted_ledger();
    let r = d.sign_document(&s("bad"), &s("S1"), SignatureStatus::Signed, 1, 500);
    assert_eq!(r, Err(Error::DocumentHashesDoesNotMatchTokenHash));
    assert_eq!(Error::DocumentHashesDoesNotMatchTokenHash.code(), 7);
    assert_eq!(d.get_document(1).get(&s("S1")), Some(&SignatureStatus::Waiting));
}

#[test]
fn double_sign() {
    let mut d = minted_ledger();
    assert_eq!(d.sign_document(&s("h"), &s("S1"), SignatureStatus::Signed, 1, 500), Ok(()));
    let r = d.sign_document(&s("h"), &s("S1"), SignatureStatus::Signed, 1, 500);
    assert_eq!(r, Err(Error::AlreadySigned));
    assert_eq!(Error::AlreadySigned.code(), 4);
}

#[test]
fn rejected_is_terminal() {
    let mut d = minted_ledger();
    assert_eq!(d.sign_document(&s("h"), &s("S2"), SignatureStatus::Rejected, 1, 500), Ok(()));
    let r = d.sign_document(&s("h"), &s("S2"), SignatureStatus::Signed, 1, 500);
    assert_eq!(r, Err(Error::AlreadySigned));
    assert_eq!(d.get_document(1).get(&s("S2")), Some(&SignatureStatus::Rejected));
}

#[test]
fn unknown_signer() {
    let mut d = minted_ledger();
    let r = d.sign_document(&s("h"), &s("S9"), SignatureStatus::Signed, 1, 500);
    assert_eq!(r, Err(Error::SignerDoesNotExist));
    assert_eq!(Error::SignerDoesNotExist.code(), 5);
    assert_eq!(d.get_document(1).len(), 2);
    assert_eq!(d.get_nonces(&s("S9")), 0);
}

#[test]
fn empty_signers_at_mint() {
    let mut d = PetalDocuments::new();
    let r = d.safe_mint(s("A"), 1, s("u"), vec![], s("h"), 1000);
    assert_eq!(r, Err(Error::SignersListEmpty));
    assert_eq!(Error::SignersListEmpty.code(), 15);
    assert!(d.get_owners().is_empty());
    assert!(d.get_token_uris().is_empty());
    assert!(d.get_td_hashes().is_empty());
    assert!(d.get_deadlines().is_empty());
    assert!(d.get_documents().is_empty());
}

#[test]
fn second_mint_of_same_token_fails() {
    let mut d = minted_ledger();
    let r = d.safe_mint(s("B"), 1, s("other"), vec![s("S3")], s("h3"), 5);
    assert_eq!(r, Err(Error::TokenAlreadyMinted));
    assert_eq!(Error::TokenAlreadyMinted.code(), 13);
    assert_eq!(owner_of(1, d.get_owners()), s("A"));
    assert_eq!(d.get_token_uri(1), s("u"));
    assert_eq!(d.get_deadlines().get(&1), Some(&1000));
}

#[test]
fn mint_fills_every_table() {
    let d = minted_ledger();
    assert!(token_exists(1, d.get_owners()));
    assert!(!token_exists(2, d.get_owners()));
    assert!(d.require_minted(1));
    assert_eq!(d.get_token_uris().get(&1), Some(&s("u")));
    assert_eq!(d.get_td_hashes().get(&1), Some(&s("h")));
    assert_eq!(d.get_deadlines().get(&1), Some(&1000));
    assert_eq!(d.get_documents().len(), 1);
    assert_eq!(d.get_documents().get(&1).map(|t| t.len()), Some(2));
}

#[test]
fn repeated_signer_is_enrolled_once() {
    let mut d = PetalDocuments::new();
    let r = d.safe_mint(s("A"), 7, s("u"), vec![s("S1"), s("S1")], s("h"), 10);
    assert_eq!(r, Ok(7));
    let doc = d.get_document(7);
    assert_eq!(doc.len(), 1);
    assert_eq!(doc.get(&s("S1")), Some(&SignatureStatus::Waiting));
}

#[test]
fn past_deadline_is_accepted_at_mint() {
    let mut d = PetalDocuments::new();
    assert_eq!(d.safe_mint(s("A"), 3, s("u"), vec![s("S1")], s("h"), 0), Ok(3));
    let r = d.sign_document(&s("h"), &s("S1"), SignatureStatus::Signed, 3, 1);
    assert_eq!(r, Err(Error::DeadlinePassed));
}

#[test]
fn sign_unminted_token() {
    let mut d = minted_ledger();
    let r = d.sign_document(&s("h"), &s("S1"), SignatureStatus::Signed, 9, 500);
    assert_eq!(r, Err(Error::TokenNotMinted));
    assert_eq!(Error::TokenNotMinted.code(), 1);
}

#[test]
fn not_a_signer_cannot_be_recorded() {
    let mut d = minted_ledger();
    let r = d.sign_document(&s("h"), &s("S1"), SignatureStatus::NotASigner, 1, 500);
    assert_eq!(r, Err(Error::NotASigner));
    assert_eq!(Error::NotASigner.code(), 3);
    assert_eq!(d.get_document(1).get(&s("S1")), Some(&SignatureStatus::Waiting));
    assert_eq!(d.get_nonces(&s("S1")), 0);
}

#[test]
fn nonces_of_later_first_signers_start_at_one() {
    let mut d = minted_ledger();
    assert_eq!(d.sign_document(&s("h"), &s("S1"), SignatureStatus::Signed, 1, 500), Ok(()));
    assert_eq!(d.sign_document(&s("h"), &s("S2"), SignatureStatus::Rejected, 1, 500), Ok(()));
    assert_eq!(d.get_nonces(&s("S1")), 0);
    assert_eq!(d.get_nonces(&s("S2")), 1);
}

#[test]
fn get_document_of_unknown_token_is_empty() {
    let d = minted_ledger();
    assert!(d.get_document(42).is_empty());
}

#[test]
fn test_counter_counts() {
    let mut d = PetalDocuments::new();
    assert_eq!(d.get_test_int(), 0);
    d.set_test_int();
    d.set_test_int();
    assert_eq!(d.get_test_int(), 2);
}

/// A ledger whose stored tables disagree: token 1 is owned and nothing else.
fn owned_only(
    hashes: Table<u32, String>,
    deadlines: Table<u32, u64>,
    documents: Table<u32, Table<String, SignatureStatus>>,
) -> PetalDocuments {
    let mut owners = Table::new();
    owners.set(1, s("A"));
    PetalDocuments::from_tables(
        None,
        owners,
        Table::new(),
        hashes,
        deadlines,
        documents,
        Table::new(),
        0,
    )
}

fn waiting_s1() -> Table<String, SignatureStatus> {
    let mut t = Table::new();
    t.set(s("S1"), SignatureStatus::Waiting);
    t
}

#[test]
fn missing_signings_are_reported() {
    let mut d = owned_only(Table::new(), Table::new(), Table::new());
    let r = d.sign_document(&s("h"), &s("S1"), SignatureStatus::Signed, 1, 0);
    assert_eq!(r, Err(Error::DocumentSigningsIsEmpty));
    assert_eq!(Error::DocumentSigningsIsEmpty.code(), 2);

    let mut other = Table::new();
    other.set(2, waiting_s1());
    let mut d = owned_only(Table::new(), Table::new(), other);
    let r = d.sign_document(&s("h"), &s("S1"), SignatureStatus::Signed, 1, 0);
    assert_eq!(r, Err(Error::DocumentSigningsIsEmpty));
}

#[test]
fn missing_hashes_are_reported() {
    let mut docs = Table::new();
    docs.set(1, waiting_s1());
    let mut d = owned_only(Table::new(), Table::new(), docs);
    let r = d.sign_document(&s("h"), &s("S1"), SignatureStatus::Signed, 1, 0);
    assert_eq!(r, Err(Error::DocumentHashesIsEmpty));
    assert_eq!(Error::DocumentHashesIsEmpty.code(), 6);

    let mut docs = Table::new();
    docs.set(1, waiting_s1());
    let mut hashes = Table::new();
    hashes.set(2, s("h"));
    let mut d = owned_only(hashes, Table::new(), docs);
    let r = d.sign_document(&s("h"), &s("S1"), SignatureStatus::Signed, 1, 0);
    assert_eq!(r, Err(Error::HashNotFound));
    assert_eq!(Error::HashNotFound.code(), 8);
}

#[test]
fn missing_deadlines_are_reported() {
    let mut docs = Table::new();
    docs.set(1, waiting_s1());
    let mut hashes = Table::new();
    hashes.set(1, s("h"));
    let mut d = owned_only(hashes, Table::new(), docs);
    let r = d.sign_document(&s("h"), &s("S1"), SignatureStatus::Signed, 1, 0);
    assert_eq!(r, Err(Error::DeadlinesIsEmpty));
    assert_eq!(Error::DeadlinesIsEmpty.code(), 9);

    let mut docs = Table::new();
    docs.set(1, waiting_s1());
    let mut hashes = Table::new();
    hashes.set(1, s("h"));
    let mut deadlines = Table::new();
    deadlines.set(2, 100);
    let mut d = owned_only(hashes, deadlines, docs);
    let r = d.sign_document(&s("h"), &s("S1"), SignatureStatus::Signed, 1, 0);
    assert_eq!(r, Err(Error::DeadlineNotFound));
    assert_eq!(Error::DeadlineNotFound.code(), 11);
}

#[test]
fn stored_not_a_signer_is_reported() {
    let mut inner = Table::new();
    inner.set(s("S1"), SignatureStatus::NotASigner);
    let mut docs = Table::new();
    docs.set(1, inner);
    let mut d = owned_only(Table::new(), Table::new(), docs);
    let r = d.sign_document(&s("h"), &s("S1"), SignatureStatus::Signed, 1, 0);
    assert_eq!(r, Err(Error::NotASigner));
}

#[test]
fn validation_stops_before_authentication() {
    let d = minted_ledger();
    assert_eq!(d.validate_signing(&s("h"), &s("S1"), 1, 500), Ok(()));
    assert_eq!(d.validate_signing(&s("h"), &s("S1"), 1, 2000), Err(Error::DeadlinePassed));
}

#[test]
fn remaining_error_codes() {
    assert_eq!(Error::SignatureExpired.code(), 12);
    assert_eq!(Error::TokenDoesNotExist.code(), 14);
}

#[test]
fn table_set_overwrites() {
    let mut t: Table<u32, u64> = Table::new();
    t.set(5, 1);
    t.set(6, 2);
    t.set(5, 3);
    assert_eq!(t.len(), 2);
    assert_eq!(t.get(&5), Some(&3));
    assert!(t.contains_key(&6));
    assert!(!t.contains_key(&7));
    let (k, v) = t.entry(0);
    assert_eq!((*k, *v), (5, 3));
}

#[test]
fn nonnegative_amounts() {
    assert!(check_nonnegative_amount(0));
    assert!(check_nonnegative_amount(12));
    assert!(!check_nonnegative_amount(-1));
}
