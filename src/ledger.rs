use vstd::prelude::*;

use crate::table::Table;
use crate::types::{AlreadyInitialized, Error, SignatureStatus};

verus! {

/// The abstract state of the ledger: one map per persistent table.
///
/// Accounts, hashes and URIs are seen as their text.
pub struct Ledger {
    pub admin: Option<Seq<char>>,
    pub owners: Map<u32, Seq<char>>,
    pub uris: Map<u32, Seq<char>>,
    pub hashes: Map<u32, Seq<char>>,
    pub deadlines: Map<u32, u64>,
    pub documents: Map<u32, Map<Seq<char>, SignatureStatus>>,
    pub nonces: Map<Seq<char>, u32>,
    pub test_int: u32,
}

/// Every signer of `signers`, waiting.
pub open spec fn waiting_for(signers: Seq<String>) -> Map<Seq<char>, SignatureStatus> {
    Map::new(
        |s: Seq<char>| exists|i: int| 0 <= i < signers.len() && #[trigger] signers[i]@ == s,
        |s: Seq<char>| SignatureStatus::Waiting,
    )
}

/// The result of a check: its error if it found one.
pub open spec fn as_result(e: Option<Error>) -> Result<(), Error> {
    match e {
        Some(e) => Err(e),
        None => Ok(()),
    }
}

impl Ledger {
    /// The ledger before anything happened.
    pub open spec fn empty() -> Ledger {
        Ledger {
            admin: None,
            owners: Map::empty(),
            uris: Map::empty(),
            hashes: Map::empty(),
            deadlines: Map::empty(),
            documents: Map::empty(),
            nonces: Map::empty(),
            test_int: 0,
        }
    }

    /// The five per-token tables hold the same token ids.
    pub open spec fn tables_agree(self) -> bool {
        &&& self.uris.dom() == self.owners.dom()
        &&& self.hashes.dom() == self.owners.dom()
        &&& self.deadlines.dom() == self.owners.dom()
        &&& self.documents.dom() == self.owners.dom()
    }

    /// Each document has at least one enrolled signer.
    pub open spec fn signers_present(self) -> bool {
        forall|t: u32| #[trigger]
            self.documents.contains_key(t) ==> self.documents[t].dom().finite()
                && self.documents[t].len() >= 1
    }

    /// No enrolled signer is stored as `NotASigner`.
    pub open spec fn statuses_stored(self) -> bool {
        forall|t: u32, s: Seq<char>| #[trigger]
            self.documents.contains_key(t) && #[trigger] self.documents[t].contains_key(s)
                ==> self.documents[t][s] != SignatureStatus::NotASigner
    }

    /// The invariants that every successful write keeps.
    pub open spec fn consistent(self) -> bool {
        &&& self.tables_agree()
        &&& self.signers_present()
        &&& self.statuses_stored()
    }

    /// A signer's nonce, 0 when it has none.
    pub open spec fn nonce_of(self, signer: Seq<char>) -> u32 {
        if self.nonces.contains_key(signer) {
            self.nonces[signer]
        } else {
            0
        }
    }

    /// Why minting `token_id` with `n_signers` signers fails, if it does.
    pub open spec fn mint_error(self, token_id: u32, n_signers: nat) -> Option<Error> {
        if n_signers == 0 {
            Some(Error::SignersListEmpty)
        } else if self.owners.contains_key(token_id) {
            Some(Error::TokenAlreadyMinted)
        } else {
            None
        }
    }

    /// The ledger after a successful mint.
    pub open spec fn minted(
        self,
        to: Seq<char>,
        token_id: u32,
        meta_uri: Seq<char>,
        signers: Seq<String>,
        document_hash: Seq<char>,
        deadline: u64,
    ) -> Ledger {
        Ledger {
            owners: self.owners.insert(token_id, to),
            uris: self.uris.insert(token_id, meta_uri),
            hashes: self.hashes.insert(token_id, document_hash),
            deadlines: self.deadlines.insert(token_id, deadline),
            documents: self.documents.insert(token_id, waiting_for(signers)),
            ..self
        }
    }

    /// Why signing fails at the checks made before the signer is
    /// authenticated, if it does: the first failing check, in order.
    pub open spec fn pre_auth_error(
        self,
        document_hash: Seq<char>,
        signer: Seq<char>,
        token_id: u32,
        now: u64,
    ) -> Option<Error> {
        if !self.owners.contains_key(token_id) {
            Some(Error::TokenNotMinted)
        } else if self.documents == Map::<u32, Map<Seq<char>, SignatureStatus>>::empty() {
            Some(Error::DocumentSigningsIsEmpty)
        } else if !self.documents.contains_key(token_id) {
            Some(Error::DocumentSigningsIsEmpty)
        } else if !self.documents[token_id].contains_key(signer) {
            Some(Error::SignerDoesNotExist)
        } else if self.documents[token_id][signer] == SignatureStatus::NotASigner {
            Some(Error::NotASigner)
        } else if self.documents[token_id][signer] == SignatureStatus::Signed {
            Some(Error::AlreadySigned)
        } else if self.hashes == Map::<u32, Seq<char>>::empty() {
            Some(Error::DocumentHashesIsEmpty)
        } else if !self.hashes.contains_key(token_id) {
            Some(Error::HashNotFound)
        } else if self.hashes[token_id] != document_hash {
            Some(Error::DocumentHashesDoesNotMatchTokenHash)
        } else if self.deadlines == Map::<u32, u64>::empty() {
            Some(Error::DeadlinesIsEmpty)
        } else if !self.deadlines.contains_key(token_id) {
            Some(Error::DeadlineNotFound)
        } else if now > self.deadlines[token_id] {
            Some(Error::DeadlinePassed)
        } else {
            None
        }
    }

    /// Why signing fails, if it does: the checks before authentication, then
    /// the signer must still be waiting, and `NotASigner` cannot be recorded.
    pub open spec fn sign_error(
        self,
        document_hash: Seq<char>,
        signer: Seq<char>,
        status: SignatureStatus,
        token_id: u32,
        now: u64,
    ) -> Option<Error> {
        match self.pre_auth_error(document_hash, signer, token_id, now) {
            Some(e) => Some(e),
            None => if self.documents[token_id][signer] != SignatureStatus::Waiting {
                Some(Error::AlreadySigned)
            } else if status == SignatureStatus::NotASigner {
                Some(Error::NotASigner)
            } else {
                None
            },
        }
    }

    /// The nonce recorded for `signer` by a successful signature: its nonce
    /// kept as it is while no nonce at all is recorded, else one more.
    pub open spec fn next_nonce(self, signer: Seq<char>) -> u32 {
        if self.nonces == Map::<Seq<char>, u32>::empty() {
            self.nonce_of(signer)
        } else {
            (self.nonce_of(signer) + 1) as u32
        }
    }

    /// The ledger after `signer` successfully gave `status` on `token_id`.
    pub open spec fn signed(self, signer: Seq<char>, status: SignatureStatus, token_id: u32) -> Ledger {
        Ledger {
            nonces: self.nonces.insert(signer, self.next_nonce(signer)),
            documents: self.documents.insert(
                token_id,
                self.documents[token_id].insert(signer, status),
            ),
            ..self
        }
    }

    /// The ledger after a call of `sign_document`, whether it succeeded or not.
    pub open spec fn sign_outcome(
        self,
        document_hash: Seq<char>,
        signer: Seq<char>,
        status: SignatureStatus,
        token_id: u32,
        now: u64,
    ) -> Ledger {
        if self.sign_error(document_hash, signer, status, token_id, now) is Some {
            self
        } else {
            self.signed(signer, status, token_id)
        }
    }
}

/// The state of a document-signing ledger.
pub struct PetalDocuments {
    admin: Option<String>,
    owners: Table<u32, String>,
    uris: Table<u32, String>,
    hashes: Table<u32, String>,
    deadlines: Table<u32, u64>,
    documents: Table<u32, Table<String, SignatureStatus>>,
    nonces: Table<String, u32>,
    test_int: u32,
}

impl View for PetalDocuments {
    type V = Ledger;

    closed spec fn view(&self) -> Ledger {
        Ledger {
            admin: match self.admin {
                Some(a) => Some(a@),
                None => None,
            },
            owners: self.owners@,
            uris: self.uris@,
            hashes: self.hashes@,
            deadlines: self.deadlines@,
            documents: self.documents@,
            nonces: self.nonces@,
            test_int: self.test_int,
        }
    }
}

/// Whether `owners` has an owner for `token_id`.
pub fn token_exists(token_id: u32, owners: &Table<u32, String>) -> (r: bool)
    ensures
        r == owners@.contains_key(token_id),
{
    match owners.get(&token_id) {
        Some(_) => true,
        None => false,
    }
}

/// The owner of `token_id`.
pub fn owner_of(token_id: u32, owners: &Table<u32, String>) -> (r: String)
    requires
        owners@.contains_key(token_id),
    ensures
        r@ == owners@[token_id],
{
    match owners.get(&token_id) {
        Some(v) => v.clone(),
        None => String::new(),
    }
}

impl PetalDocuments {
    /// An empty ledger, with no administrator and no token.
    pub fn new() -> (r: Self)
        ensures
            r@ == Ledger::empty(),
            r@.consistent(),
    {
        let r = PetalDocuments {
            admin: None,
            owners: Table::new(),
            uris: Table::new(),
            hashes: Table::new(),
            deadlines: Table::new(),
            documents: Table::new(),
            nonces: Table::new(),
            test_int: 0,
        };
        assert(r@ == Ledger::empty());
        r
    }

    /// A ledger made of tables as they were stored; they need not be consistent.
    pub fn from_tables(
        admin: Option<String>,
        owners: Table<u32, String>,
        uris: Table<u32, String>,
        hashes: Table<u32, String>,
        deadlines: Table<u32, u64>,
        documents: Table<u32, Table<String, SignatureStatus>>,
        nonces: Table<String, u32>,
        test_int: u32,
    ) -> (r: Self)
        ensures
            r@.admin == match admin {
                Some(a) => Some(a@),
                None => None::<Seq<char>>,
            },
            r@.owners == owners@,
            r@.uris == uris@,
            r@.hashes == hashes@,
            r@.deadlines == deadlines@,
            r@.documents == documents@,
            r@.nonces == nonces@,
            r@.test_int == test_int,
    {
        PetalDocuments { admin, owners, uris, hashes, deadlines, documents, nonces, test_int }
    }

    /// Sets the administrator, once; `token_id` has no effect.
    pub fn init(&mut self, admin: String, token_id: u32) -> (r: Result<(), AlreadyInitialized>)
        ensures
            old(self)@.admin is None ==> r is Ok && final(self)@ == (Ledger {
                admin: Some(admin@),
                ..old(self)@
            }),
            old(self)@.admin is Some ==> r is Err && final(self)@ == old(self)@,
            old(self)@.consistent() ==> final(self)@.consistent(),
    {
        if self.admin.is_some() {
            return Err(AlreadyInitialized);
        }
        self.admin = Some(admin);
        Ok(())
    }

    /// Whether `token_id` has been minted.
    pub fn require_minted(&self, token_id: u32) -> (r: bool)
        ensures
            r == self@.owners.contains_key(token_id),
    {
        token_exists(token_id, &self.owners)
    }

    /// Records `to` as the owner of a new token `token_id`.
    fn mint(&mut self, token_id: u32, to: String) -> (r: Result<(), Error>)
        ensures
            old(self)@.owners.contains_key(token_id) ==> r == Err::<(), Error>(
                Error::TokenAlreadyMinted,
            ) && final(self)@ == old(self)@,
            !old(self)@.owners.contains_key(token_id) ==> r is Ok && final(self)@ == (Ledger {
                owners: old(self)@.owners.insert(token_id, to@),
                ..old(self)@
            }),
    {
        if token_exists(token_id, &self.owners) {
            return Err(Error::TokenAlreadyMinted);
        }
        self.owners.set(token_id, to);
        Ok(())
    }

    /// Sets the metadata URI of the existing token `token_id`.
    fn set_token_uri(&mut self, token_id: u32, token_uri: String) -> (r: Result<(), Error>)
        ensures
            !old(self)@.owners.contains_key(token_id) ==> r == Err::<(), Error>(
                Error::TokenDoesNotExist,
            ) && final(self)@ == old(self)@,
            old(self)@.owners.contains_key(token_id) ==> r is Ok && final(self)@ == (Ledger {
                uris: old(self)@.uris.insert(token_id, token_uri@),
                ..old(self)@
            }),
    {
        if !token_exists(token_id, &self.owners) {
            return Err(Error::TokenDoesNotExist);
        }
        self.uris.set(token_id, token_uri);
        Ok(())
    }

    /// Mints document token `token_id` for `to`: binds its URI, its content
    /// hash and its deadline, and enrolls every signer as waiting.
    pub fn safe_mint(
        &mut self,
        to: String,
        token_id: u32,
        meta_uri: String,
        signers: Vec<String>,
        document_hash: String,
        deadline: u64,
    ) -> (r: Result<u32, Error>)
        ensures
            match old(self)@.mint_error(token_id, signers@.len()) {
                Some(e) => r == Err::<u32, Error>(e) && final(self)@ == old(self)@,
                None => r == Ok::<u32, Error>(token_id) && final(self)@ == old(self)@.minted(
                    to@,
                    token_id,
                    meta_uri@,
                    signers@,
                    document_hash@,
                    deadline,
                ),
            },
            old(self)@.consistent() ==> final(self)@.consistent(),
    {
        if signers.len() == 0 {
            return Err(Error::SignersListEmpty);
        }
        let ghost to_v = to@;
        match self.mint(token_id, to) {
            Ok(()) => {},
            Err(e) => {
                return Err(e);
            },
        }
        let ghost uri_v = meta_uri@;
        match self.set_token_uri(token_id, meta_uri) {
            Ok(()) => {},
            Err(e) => {
                return Err(e);
            },
        }
        let ghost hash_v = document_hash@;
        self.hashes.set(token_id, document_hash);
        self.deadlines.set(token_id, deadline);
        let mut inner: Table<String, SignatureStatus> = Table::new();
        let mut i: usize = 0;
        while i < signers.len()
            invariant
                i <= signers@.len(),
                inner@ == waiting_for(signers@.subrange(0, i as int)),
            decreases signers@.len() - i,
        {
            let ghost before = inner@;
            inner.set(signers[i].clone(), SignatureStatus::Waiting);
            proof {
                let prev = signers@.subrange(0, i as int);
                let next = signers@.subrange(0, i + 1);
                assert forall|s: Seq<char>| #[trigger] waiting_for(next).contains_key(s) <==> before.insert(signers@[i as int]@, SignatureStatus::Waiting).contains_key(s) by {
                    if waiting_for(next).contains_key(s) {
                        let j = choose|j: int| 0 <= j < next.len() && #[trigger] next[j]@ == s;
                        if j < i {
                            assert(prev[j]@ == s);
                        }
                    }
                    if before.contains_key(s) {
                        let j = choose|j: int| 0 <= j < prev.len() && #[trigger] prev[j]@ == s;
                        assert(next[j]@ == s);
                    }
                    if s == signers@[i as int]@ {
                        assert(next[i as int]@ == s);
                    }
                }
                assert(waiting_for(next) =~= before.insert(signers@[i as int]@, SignatureStatus::Waiting));
            }
            i = i + 1;
        }
        proof {
            assert(signers@.subrange(0, signers@.len() as int) =~= signers@);
        }
        let n = inner.len();
        self.documents.set(token_id, inner);
        proof {
            let o = old(self)@;
            let f = self@;
            assert(f == o.minted(to_v, token_id, uri_v, signers@, hash_v, deadline));
            if o.consistent() {
                assert(f.documents[token_id].contains_key(signers@[0]@));
                assert(f.uris.dom() =~= f.owners.dom());
                assert(f.hashes.dom() =~= f.owners.dom());
                assert(f.deadlines.dom() =~= f.owners.dom());
                assert(f.documents.dom() =~= f.owners.dom());
                assert forall|t: u32| #[trigger] f.documents.contains_key(t) implies f.documents[t].dom().finite()
                    && f.documents[t].len() >= 1 by {
                    if t == token_id {
                        assert(f.documents[t].dom().contains(signers@[0]@));
                    }
                }
            }
        }
        Ok(token_id)
    }

    /// Runs the checks that signing makes before the signer is authenticated.
    pub fn validate_signing(
        &self,
        document_hash: &String,
        signer: &String,
        token_id: u32,
        now: u64,
    ) -> (r: Result<(), Error>)
        ensures
            r == as_result(self@.pre_auth_error(document_hash@, signer@, token_id, now)),
    {
        if !self.require_minted(token_id) {
            return Err(Error::TokenNotMinted);
        }
        if self.documents.is_empty() {
            return Err(Error::DocumentSigningsIsEmpty);
        }
        let signings = match self.documents.get(&token_id) {
            Some(signings) => signings,
            None => {
                return Err(Error::DocumentSigningsIsEmpty);
            },
        };
        let current: SignatureStatus = match signings.get(signer) {
            Some(st) => *st,
            None => {
                return Err(Error::SignerDoesNotExist);
            },
        };
        if current == SignatureStatus::NotASigner {
            return Err(Error::NotASigner);
        } else if current == SignatureStatus::Signed {
            return Err(Error::AlreadySigned);
        }
        if self.hashes.is_empty() {
            return Err(Error::DocumentHashesIsEmpty);
        }
        match self.hashes.get(&token_id) {
            Some(hash) => {
                if !(*hash == *document_hash) {
                    return Err(Error::DocumentHashesDoesNotMatchTokenHash);
                }
            },
            None => {
                return Err(Error::HashNotFound);
            },
        }
        if self.deadlines.is_empty() {
            return Err(Error::DeadlinesIsEmpty);
        }
        match self.deadlines.get(&token_id) {
            Some(deadline) => {
                if now > *deadline {
                    return Err(Error::DeadlinePassed);
                }
            },
            None => {
                return Err(Error::DeadlineNotFound);
            },
        }
        Ok(())
    }

    /// Fails with `AlreadySigned` unless `signer` is still waiting on `token_id`.
    fn verify_signer(&self, signer: &String, token_id: u32) -> (r: Result<(), Error>)
        requires
            self@.documents.contains_key(token_id),
            self@.documents[token_id].contains_key(signer@),
        ensures
            r == if self@.documents[token_id][signer@] != SignatureStatus::Waiting {
                Err::<(), Error>(Error::AlreadySigned)
            } else {
                Ok(())
            },
    {
        let current: SignatureStatus = match self.documents.get(&token_id) {
            Some(signings) => match signings.get(signer) {
                Some(st) => *st,
                None => SignatureStatus::NotASigner,
            },
            None => SignatureStatus::NotASigner,
        };
        if current != SignatureStatus::Waiting {
            return Err(Error::AlreadySigned);
        }
        Ok(())
    }

    /// Records `status` from `signer` on document `token_id` at time `now`,
    /// and advances the signer's nonce.
    ///
    /// The host authenticates `signer` after `validate_signing` passed and
    /// before this call. The time is checked once: a second comparison of the
    /// same `now` with the same deadline could not fail, so `SignatureExpired`
    /// is never returned.
    pub fn sign_document(
        &mut self,
        document_hash: &String,
        signer: &String,
        status: SignatureStatus,
        token_id: u32,
        now: u64,
    ) -> (r: Result<(), Error>)
        requires
            old(self)@.nonce_of(signer@) < u32::MAX,
        ensures
            r == as_result(old(self)@.sign_error(document_hash@, signer@, status, token_id, now)),
            final(self)@ == old(self)@.sign_outcome(document_hash@, signer@, status, token_id, now),
            old(self)@.consistent() ==> final(self)@.consistent(),
    {
        match self.validate_signing(document_hash, signer, token_id, now) {
            Ok(()) => {},
            Err(e) => {
                return Err(e);
            },
        }
        match self.verify_signer(signer, token_id) {
            Ok(()) => {},
            Err(e) => {
                return Err(e);
            },
        }
        if status == SignatureStatus::NotASigner {
            return Err(Error::NotASigner);
        }
        let last: u32 = match self.nonces.get(signer) {
            Some(n) => *n,
            None => 0,
        };
        let next: u32 = if self.nonces.is_empty() {
            last
        } else {
            last + 1
        };
        self.nonces.set(signer.clone(), next);
        let mut inner = match self.documents.get(&token_id) {
            Some(signings) => signings.duplicate(),
            None => Table::new(),
        };
        let ghost before = inner@;
        inner.set(signer.clone(), status);
        self.documents.set(token_id, inner);
        proof {
            let o = old(self)@;
            let f = self@;
            assert(f == o.signed(signer@, status, token_id));
            if o.consistent() {
                assert(f.documents.dom() =~= o.documents.dom());
                assert(f.documents[token_id].dom() =~= o.documents[token_id].dom());
                assert forall|t: u32| #[trigger] f.documents.contains_key(t) implies f.documents[t].dom().finite()
                    && f.documents[t].len() >= 1 by {
                    assert(o.documents.contains_key(t));
                }
                assert forall|t: u32, s: Seq<char>| #[trigger] f.documents.contains_key(t)
                    && #[trigger] f.documents[t].contains_key(s) implies f.documents[t][s]
                    != SignatureStatus::NotASigner by {
                    assert(o.documents.contains_key(t));
                    if t == token_id && s != signer@ {
                        assert(o.documents[t].contains_key(s));
                    }
                }
            }
        }
        Ok(())
    }

    /// Counts up a debug counter that has no bearing on signing.
    pub fn set_test_int(&mut self)
        requires
            old(self)@.test_int < u32::MAX,
        ensures
            final(self)@ == (Ledger { test_int: (old(self)@.test_int + 1) as u32, ..old(self)@ }),
            old(self)@.consistent() ==> final(self)@.consistent(),
    {
        self.test_int = self.test_int + 1;
    }

    pub fn get_test_int(&self) -> (r: u32)
        ensures
            r == self@.test_int,
    {
        self.test_int
    }

    /// The administrator; the ledger must have been initialised.
    pub fn get_admin(&self) -> (r: String)
        requires
            self@.admin is Some,
        ensures
            Some(r@) == self@.admin,
    {
        match &self.admin {
            Some(a) => a.clone(),
            None => String::new(),
        }
    }

    /// The nonce of `user`, 0 when it has none.
    pub fn get_nonces(&self, user: &String) -> (r: u32)
        ensures
            r == self@.nonce_of(user@),
    {
        match self.nonces.get(user) {
            Some(n) => *n,
            None => 0,
        }
    }

    /// Every recorded nonce, by signer.
    pub fn get_nonces_table(&self) -> (r: &Table<String, u32>)
        ensures
            r@ == self@.nonces,
    {
        &self.nonces
    }

    pub fn get_owners(&self) -> (r: &Table<u32, String>)
        ensures
            r@ == self@.owners,
    {
        &self.owners
    }

    pub fn get_token_uris(&self) -> (r: &Table<u32, String>)
        ensures
            r@ == self@.uris,
    {
        &self.uris
    }

    /// The URI of token `doc_id`, which must exist.
    pub fn get_token_uri(&self, doc_id: u32) -> (r: String)
        requires
            self@.uris.contains_key(doc_id),
        ensures
            r@ == self@.uris[doc_id],
    {
        match self.uris.get(&doc_id) {
            Some(u) => u.clone(),
            None => String::new(),
        }
    }

    pub fn get_td_hashes(&self) -> (r: &Table<u32, String>)
        ensures
            r@ == self@.hashes,
    {
        &self.hashes
    }

    pub fn get_deadlines(&self) -> (r: &Table<u32, u64>)
        ensures
            r@ == self@.deadlines,
    {
        &self.deadlines
    }

    pub fn get_documents(&self) -> (r: &Table<u32, Table<String, SignatureStatus>>)
        ensures
            r@ == self@.documents,
    {
        &self.documents
    }

    /// The signers of document `doc_id` with their statuses; empty when it does not exist.
    pub fn get_document(&self, doc_id: u32) -> (r: Table<String, SignatureStatus>)
        ensures
            r@ == if self@.documents.contains_key(doc_id) {
                self@.documents[doc_id]
            } else {
                Map::empty()
            },
    {
        match self.documents.get(&doc_id) {
            Some(d) => d.duplicate(),
            None => Table::new(),
        }
    }
}

} // verus!
