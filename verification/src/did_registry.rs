//! The identity registry: one DID document per account, and verifiable
//! credentials that only their issuer can revoke.

use vstd::prelude::*;
use vstd::string::StringExecFns;
use crate::text::{
    clone_texts, decimal, decimal_text, distinct, first_index, lemma_decimal_injective,
    lemma_first_index, position, text_of, texts_of,
};

verus! {

/// Whether a credential still stands.
#[derive(Clone, Copy, PartialEq, Eq, Structural, Debug)]
pub enum CredentialStatus {
    Active,
    Revoked,
}

/// Why a change to the registry was refused. A refused change changes
/// nothing.
#[derive(Clone, Copy, PartialEq, Eq, Structural, Debug)]
pub enum RegistryError {
    /// The caller has no DID document, or no credential has the given id.
    NotFound,
    /// The caller is not the issuer.
    Unauthorized,
}

/// A verifiable credential.
#[derive(Debug, PartialEq, Eq)]
pub struct Credential {
    pub id: String,
    pub issuer: String,
    pub subject: String,
    pub credential_type: String,
    pub data_hash: String,
    pub issued_at: u64,
    pub status: CredentialStatus,
}

/// A DID document.
#[derive(Debug, PartialEq, Eq)]
pub struct DIDDocument {
    /// `did:near:` followed by the controller's account.
    pub id: String,
    /// The public key.
    pub verification_method: String,
    pub controller: String,
    pub created: u64,
    pub updated: u64,
    pub service_endpoints: Vec<String>,
}

/// What a [`Credential`] is, mathematically.
pub struct CredentialView {
    pub id: Seq<char>,
    pub issuer: Seq<char>,
    pub subject: Seq<char>,
    pub credential_type: Seq<char>,
    pub data_hash: Seq<char>,
    pub issued_at: nat,
    pub status: CredentialStatus,
}

/// What a [`DIDDocument`] is, mathematically.
pub struct DIDDocumentView {
    pub id: Seq<char>,
    pub verification_method: Seq<char>,
    pub controller: Seq<char>,
    pub created: nat,
    pub updated: nat,
    pub service_endpoints: Seq<Seq<char>>,
}

/// The text `did:near:`.
pub open spec fn did_prefix() -> Seq<char> {
    seq!['d', 'i', 'd', ':', 'n', 'e', 'a', 'r', ':']
}

/// The DID of an account.
pub open spec fn did_of(account: Seq<char>) -> Seq<char> {
    did_prefix() + account
}

/// The text `vc-`.
pub open spec fn credential_prefix() -> Seq<char> {
    seq!['v', 'c', '-']
}

/// The id of the credential that is issued after `n` others.
pub open spec fn credential_id(n: nat) -> Seq<char> {
    credential_prefix() + decimal(n)
}

/// The view of an optional list of texts.
pub open spec fn texts_opt(texts: Option<Vec<String>>) -> Option<Seq<Seq<char>>> {
    match texts {
        Some(t) => Some(texts_of(t@)),
        None => None,
    }
}

impl CredentialView {
    /// The credential with its status replaced.
    pub open spec fn with_status(self, status: CredentialStatus) -> CredentialView {
        CredentialView { status, ..self }
    }

    /// The outcome of a revocation asked for by `caller`: refused unless
    /// the caller is the issuer.
    pub open spec fn revoke_outcome(self, caller: Seq<char>) -> Result<(), RegistryError> {
        if caller == self.issuer {
            Ok(())
        } else {
            Err(RegistryError::Unauthorized)
        }
    }
}

impl DIDDocumentView {
    /// The document of `account` as it is at registration at `now`, without
    /// service endpoints.
    pub open spec fn fresh(
        account: Seq<char>,
        verification_method: Seq<char>,
        now: nat,
    ) -> DIDDocumentView {
        DIDDocumentView {
            id: did_of(account),
            verification_method,
            controller: account,
            created: now,
            updated: now,
            service_endpoints: Seq::empty(),
        }
    }

    /// The document after an update at `now`: each given value replaces the
    /// old one.
    pub open spec fn revised(
        self,
        verification_method: Option<Seq<char>>,
        service_endpoints: Option<Seq<Seq<char>>>,
        now: nat,
    ) -> DIDDocumentView {
        DIDDocumentView {
            verification_method: verification_method.unwrap_or(self.verification_method),
            service_endpoints: service_endpoints.unwrap_or(self.service_endpoints),
            updated: now,
            ..self
        }
    }
}

impl View for Credential {
    type V = CredentialView;

    open spec fn view(&self) -> CredentialView {
        CredentialView {
            id: self.id@,
            issuer: self.issuer@,
            subject: self.subject@,
            credential_type: self.credential_type@,
            data_hash: self.data_hash@,
            issued_at: self.issued_at as nat,
            status: self.status,
        }
    }
}

impl View for DIDDocument {
    type V = DIDDocumentView;

    open spec fn view(&self) -> DIDDocumentView {
        DIDDocumentView {
            id: self.id@,
            verification_method: self.verification_method@,
            controller: self.controller@,
            created: self.created as nat,
            updated: self.updated as nat,
            service_endpoints: texts_of(self.service_endpoints@),
        }
    }
}

impl Clone for Credential {
    fn clone(&self) -> (copy: Self)
        ensures
            copy == *self,
    {
        Credential {
            id: self.id.clone(),
            issuer: self.issuer.clone(),
            subject: self.subject.clone(),
            credential_type: self.credential_type.clone(),
            data_hash: self.data_hash.clone(),
            issued_at: self.issued_at,
            status: self.status,
        }
    }
}

impl Clone for DIDDocument {
    fn clone(&self) -> (copy: Self)
        ensures
            copy@ == self@,
    {
        DIDDocument {
            id: self.id.clone(),
            verification_method: self.verification_method.clone(),
            controller: self.controller.clone(),
            created: self.created,
            updated: self.updated,
            service_endpoints: clone_texts(&self.service_endpoints),
        }
    }
}

/// Writes the DID of an account.
pub fn did_text(account: &String) -> (did: String)
    ensures
        did@ == did_of(account@),
{
    proof {
        reveal_strlit("did:near:");
    }
    let did = String::from_str("did:near:").concat(account.as_str());
    assert(did@ =~= did_of(account@));
    did
}

/// Writes the id of the credential that is issued after `n` others.
pub fn credential_id_text(n: u64) -> (id: String)
    ensures
        id@ == credential_id(n as nat),
{
    proof {
        reveal_strlit("vc-");
    }
    let id = String::from_str("vc-").concat(decimal_text(n).as_str());
    assert(id@ =~= credential_id(n as nat));
    id
}

impl Credential {
    /// Revokes the credential on behalf of `caller`, who must be its
    /// issuer.
    pub fn revoke(&mut self, caller: &String) -> (outcome: Result<(), RegistryError>)
        ensures
            outcome == old(self)@.revoke_outcome(caller@),
            outcome is Ok ==> final(self)@ == old(self)@.with_status(CredentialStatus::Revoked),
            outcome is Err ==> *final(self) == *old(self),
    {
        if *caller != self.issuer {
            return Err(RegistryError::Unauthorized);
        }
        self.status = CredentialStatus::Revoked;
        Ok(())
    }
}

impl DIDDocument {
    /// Creates the document of `account` as it is at registration.
    pub fn new(account: String, verification_method: String, now: u64) -> (doc: Self)
        ensures
            doc@ == DIDDocumentView::fresh(account@, verification_method@, now as nat),
    {
        let id = did_text(&account);
        let doc = DIDDocument {
            id,
            verification_method,
            controller: account,
            created: now,
            updated: now,
            service_endpoints: Vec::new(),
        };
        assert(texts_of(doc.service_endpoints@) =~= Seq::empty());
        doc
    }

    /// Updates the document at `now`: each given value replaces the old
    /// one.
    pub fn update(
        &mut self,
        verification_method: Option<String>,
        service_endpoints: Option<Vec<String>>,
        now: u64,
    )
        ensures
            final(self)@ == old(self)@.revised(
                text_of(verification_method),
                texts_opt(service_endpoints),
                now as nat,
            ),
    {
        if let Some(vm) = verification_method {
            self.verification_method = vm;
        }
        if let Some(endpoints) = service_endpoints {
            self.service_endpoints = endpoints;
        }
        self.updated = now;
    }
}

/// The views of the given documents, in the same order.
pub open spec fn did_views(docs: Seq<DIDDocument>) -> Seq<DIDDocumentView> {
    docs.map_values(|d: DIDDocument| d@)
}

/// The views of the given credentials, in the same order.
pub open spec fn credential_views(credentials: Seq<Credential>) -> Seq<CredentialView> {
    credentials.map_values(|c: Credential| c@)
}

/// The controllers of the given documents, in the same order.
pub open spec fn controllers(docs: Seq<DIDDocumentView>) -> Seq<Seq<char>> {
    docs.map_values(|d: DIDDocumentView| d.controller)
}

/// The ids of the given credentials, in the same order.
pub open spec fn credential_ids(credentials: Seq<CredentialView>) -> Seq<Seq<char>> {
    credentials.map_values(|c: CredentialView| c.id)
}

/// The credentials among the given ones that were issued to `subject`, in
/// the same order.
pub open spec fn issued_to(credentials: Seq<CredentialView>, subject: Seq<char>) -> Seq<
    CredentialView,
>
    decreases credentials.len(),
{
    if credentials.len() == 0 {
        Seq::empty()
    } else if credentials.last().subject == subject {
        issued_to(credentials.drop_last(), subject).push(credentials.last())
    } else {
        issued_to(credentials.drop_last(), subject)
    }
}

/// What the registry is, mathematically.
pub struct RegistryView {
    /// The DID documents, in the order in which their accounts first
    /// registered.
    pub dids: Seq<DIDDocumentView>,
    /// The credentials, in the order in which they were issued.
    pub credentials: Seq<CredentialView>,
}

impl RegistryView {
    /// The registry before anything has happened.
    pub open spec fn empty() -> RegistryView {
        RegistryView { dids: Seq::empty(), credentials: Seq::empty() }
    }

    /// The number of credentials ever issued.
    pub open spec fn credential_count(self) -> nat {
        self.credentials.len()
    }

    /// The invariant of the registry: no account has two documents, each
    /// document carries the DID of its controller, and the credential
    /// issued after `n` others has the id `vc-n`.
    pub open spec fn wf(self) -> bool {
        &&& distinct(controllers(self.dids))
        &&& forall|i: int|
            0 <= i < self.dids.len() ==> (#[trigger] self.dids[i]).id == did_of(
                self.dids[i].controller,
            )
        &&& forall|n: int|
            0 <= n < self.credentials.len() ==> (#[trigger] self.credentials[n]).id
                == credential_id(n as nat)
    }

    /// The place of the document of `account`, if there is one.
    pub open spec fn find_did(self, account: Seq<char>) -> Option<int> {
        first_index(controllers(self.dids), account)
    }

    /// The document of `account`, if there is one.
    pub open spec fn resolve(self, account: Seq<char>) -> Option<DIDDocumentView> {
        match self.find_did(account) {
            Some(i) => Some(self.dids[i]),
            None => None,
        }
    }

    /// The registry after `account` has registered at `now`: the new
    /// document takes the place of the one that the account had, or the last
    /// place if it had none.
    pub open spec fn register(
        self,
        account: Seq<char>,
        verification_method: Seq<char>,
        now: nat,
    ) -> RegistryView {
        let doc = DIDDocumentView::fresh(account, verification_method, now);
        RegistryView {
            dids: match self.find_did(account) {
                Some(i) => self.dids.update(i, doc),
                None => self.dids.push(doc),
            },
            ..self
        }
    }

    /// The outcome of an update of the document of `caller`.
    pub open spec fn update_outcome(self, caller: Seq<char>) -> Result<(), RegistryError> {
        if self.find_did(caller) is Some {
            Ok(())
        } else {
            Err(RegistryError::NotFound)
        }
    }

    /// The registry after an attempted update of the document of `caller`.
    pub open spec fn after_update(
        self,
        caller: Seq<char>,
        verification_method: Option<Seq<char>>,
        service_endpoints: Option<Seq<Seq<char>>>,
        now: nat,
    ) -> RegistryView {
        match self.find_did(caller) {
            Some(i) => RegistryView {
                dids: self.dids.update(
                    i,
                    self.dids[i].revised(verification_method, service_endpoints, now),
                ),
                ..self
            },
            None => self,
        }
    }

    /// The place of the credential with the given id, if there is one.
    pub open spec fn find_credential(self, id: Seq<char>) -> Option<int> {
        first_index(credential_ids(self.credentials), id)
    }

    /// The credential with the given id, if there is one.
    pub open spec fn credential(self, id: Seq<char>) -> Option<CredentialView> {
        match self.find_credential(id) {
            Some(i) => Some(self.credentials[i]),
            None => None,
        }
    }

    /// The registry after `issuer` has issued a credential to `subject` at
    /// `now`: the credential is active and has the next id.
    pub open spec fn issue(
        self,
        issuer: Seq<char>,
        subject: Seq<char>,
        credential_type: Seq<char>,
        data_hash: Seq<char>,
        now: nat,
    ) -> RegistryView {
        RegistryView {
            credentials: self.credentials.push(
                CredentialView {
                    id: credential_id(self.credentials.len()),
                    issuer,
                    subject,
                    credential_type,
                    data_hash,
                    issued_at: now,
                    status: CredentialStatus::Active,
                },
            ),
            ..self
        }
    }

    /// The outcome of a revocation of the credential `id` asked for by
    /// `caller`.
    pub open spec fn revoke_outcome(self, caller: Seq<char>, id: Seq<char>) -> Result<
        (),
        RegistryError,
    > {
        match self.credential(id) {
            Some(c) => c.revoke_outcome(caller),
            None => Err(RegistryError::NotFound),
        }
    }

    /// The registry after an attempted revocation of the credential `id`.
    pub open spec fn after_revoke(self, caller: Seq<char>, id: Seq<char>) -> RegistryView {
        if self.revoke_outcome(caller, id) is Ok {
            let i = self.find_credential(id).unwrap();
            RegistryView {
                credentials: self.credentials.update(
                    i,
                    self.credentials[i].with_status(CredentialStatus::Revoked),
                ),
                ..self
            }
        } else {
            self
        }
    }
}

/// Credentials issued at different times have different ids.
pub proof fn lemma_credential_id_injective(a: nat, b: nat)
    requires
        credential_id(a) == credential_id(b),
    ensures
        a == b,
{
    let n = credential_prefix().len() as int;
    assert(decimal(a) =~= credential_id(a).subrange(n, credential_id(a).len() as int));
    assert(decimal(b) =~= credential_id(b).subrange(n, credential_id(b).len() as int));
    lemma_decimal_injective(a, b);
}

/// In a well-formed registry every credential is found under its own id,
/// and the id of the next credential is not taken yet.
pub proof fn law_credential_ids_are_unique(registry: RegistryView)
    requires
        registry.wf(),
    ensures
        distinct(credential_ids(registry.credentials)),
        forall|n: int|
            0 <= n < registry.credentials.len() ==> registry.credential(
                #[trigger] credential_id(n as nat),
            ) == Some(registry.credentials[n]),
        registry.credential(credential_id(registry.credential_count())) is None,
{
    let ids = credential_ids(registry.credentials);
    assert forall|i: int, j: int| 0 <= i < j < ids.len() implies ids[i] != ids[j] by {
        if ids[i] == ids[j] {
            lemma_credential_id_injective(i as nat, j as nat);
        }
    }
    assert forall|n: int| 0 <= n < registry.credentials.len() implies registry.credential(
        #[trigger] credential_id(n as nat),
    ) == Some(registry.credentials[n]) by {
        crate::text::lemma_first_index_of_distinct(ids, n);
    }
    let next = credential_id(registry.credential_count());
    lemma_first_index(ids, next);
    assert forall|j: int| 0 <= j < ids.len() implies ids[j] != next by {
        if ids[j] == next {
            lemma_credential_id_injective(j as nat, registry.credential_count());
        }
    }
}

/// The identity registry. Nothing is ever removed from it.
pub struct DaicDidRegistry {
    did_keys: Vec<String>,
    dids: Vec<DIDDocument>,
    credential_keys: Vec<String>,
    credentials: Vec<Credential>,
    credential_count: u64,
}

impl View for DaicDidRegistry {
    type V = RegistryView;

    closed spec fn view(&self) -> RegistryView {
        RegistryView {
            dids: did_views(self.dids@),
            credentials: credential_views(self.credentials@),
        }
    }
}

impl DaicDidRegistry {
    /// The invariant that every operation keeps: the view is well formed,
    /// the keys are those of the documents and of the credentials, and the
    /// stored count is the number of credentials.
    pub closed spec fn wf(&self) -> bool {
        &&& self@.wf()
        &&& texts_of(self.did_keys@) == controllers(self@.dids)
        &&& texts_of(self.credential_keys@) == credential_ids(self@.credentials)
        &&& self.credential_count == self.credentials@.len()
    }

    /// A well-formed registry has a well-formed view, whose sizes fit the
    /// machine.
    pub proof fn lemma_wf_view(&self)
        requires
            self.wf(),
        ensures
            self@.wf(),
            self@.credential_count() <= u64::MAX,
    {
    }

    /// An empty registry.
    pub fn new() -> (registry: Self)
        ensures
            registry.wf(),
            registry@ == RegistryView::empty(),
    {
        let registry = DaicDidRegistry {
            did_keys: Vec::new(),
            dids: Vec::new(),
            credential_keys: Vec::new(),
            credentials: Vec::new(),
            credential_count: 0,
        };
        assert(registry@.dids =~= Seq::empty());
        assert(registry@.credentials =~= Seq::empty());
        assert(texts_of(registry.did_keys@) =~= controllers(registry@.dids));
        assert(texts_of(registry.credential_keys@) =~= credential_ids(registry@.credentials));
        registry
    }

    /// Rebuilds a registry from stored documents and stored credentials.
    ///
    /// The parts are accepted exactly when they satisfy the registry's
    /// invariant: no account has two documents, each document carries the
    /// DID of its controller, and the credentials' ids count up from `vc-0`.
    pub fn from_parts(dids: Vec<DIDDocument>, credentials: Vec<Credential>) -> (registry: Option<
        Self,
    >)
        ensures
            registry is Some <==> (RegistryView {
                dids: did_views(dids@),
                credentials: credential_views(credentials@),
            }).wf(),
            registry is Some ==> registry->0.wf() && registry->0@ == (RegistryView {
                dids: did_views(dids@),
                credentials: credential_views(credentials@),
            }),
    {
        let ghost docs = did_views(dids@);
        let ghost accounts = controllers(docs);
        let mut did_keys: Vec<String> = Vec::new();
        let n: usize = dids.len();
        let mut i: usize = 0;
        while i < n
            invariant
                n == dids@.len(),
                docs == did_views(dids@),
                accounts == controllers(docs),
                i <= n,
                texts_of(did_keys@) == accounts.take(i as int),
                distinct(accounts.take(i as int)),
                forall|j: int| 0 <= j < i ==> (#[trigger] docs[j]).id == did_of(docs[j].controller),
            decreases n - i,
        {
            proof {
                lemma_first_index(accounts.take(i as int), accounts[i as int]);
            }
            if position(&did_keys, &dids[i].controller).is_some() {
                return None;
            }
            if dids[i].id != did_text(&dids[i].controller) {
                return None;
            }
            did_keys.push(dids[i].controller.clone());
            assert(texts_of(did_keys@) =~= accounts.take(i + 1));
            i = i + 1;
        }
        assert(accounts.take(n as int) =~= accounts);
        let ghost issued = credential_views(credentials@);
        let mut credential_keys: Vec<String> = Vec::new();
        let m: usize = credentials.len();
        let mut k: usize = 0;
        while k < m
            invariant
                m == credentials@.len(),
                issued == credential_views(credentials@),
                k <= m,
                texts_of(credential_keys@) == credential_ids(issued).take(k as int),
                forall|j: int| 0 <= j < k ==> (#[trigger] issued[j]).id == credential_id(j as nat),
            decreases m - k,
        {
            assert(issued[k as int].id == credentials@[k as int].id@);
            assert(credential_ids(issued)[k as int] == issued[k as int].id);
            if credentials[k].id != credential_id_text(k as u64) {
                return None;
            }
            let ghost before = texts_of(credential_keys@);
            credential_keys.push(credentials[k].id.clone());
            assert(texts_of(credential_keys@) =~= before.push(issued[k as int].id));
            assert(before.push(issued[k as int].id) =~= credential_ids(issued).take(k + 1));
            k = k + 1;
        }
        assert(credential_ids(issued).take(m as int) =~= credential_ids(issued));
        Some(
            DaicDidRegistry {
                did_keys,
                dids,
                credential_keys,
                credentials,
                credential_count: m as u64,
            },
        )
    }

    /// The place of the document of `account`, if there is one.
    fn did_slot(&self, account: &String) -> (slot: Option<usize>)
        requires
            self.wf(),
        ensures
            match slot {
                Some(i) => self@.find_did(account@) == Some(i as int) && i < self.dids@.len()
                    && self.dids@[i as int]@ == self@.dids[i as int]
                    && self@.dids[i as int].controller == account@,
                None => self@.find_did(account@) is None,
            },
    {
        proof {
            lemma_first_index(controllers(self@.dids), account@);
        }
        position(&self.did_keys, account)
    }

    /// The place of the credential with the given id, if there is one.
    fn credential_slot(&self, id: &String) -> (slot: Option<usize>)
        requires
            self.wf(),
        ensures
            match slot {
                Some(i) => self@.find_credential(id@) == Some(i as int) && i
                    < self.credentials@.len() && self.credentials@[i as int]@
                    == self@.credentials[i as int],
                None => self@.find_credential(id@) is None,
            },
    {
        proof {
            lemma_first_index(credential_ids(self@.credentials), id@);
        }
        position(&self.credential_keys, id)
    }

    /// Registers the DID document of `caller`. A document that the caller
    /// had is replaced, its time of creation too.
    pub fn register_did(&mut self, caller: String, verification_method: String, now: u64)
        requires
            old(self).wf(),
        ensures
            final(self).wf(),
            final(self)@ == old(self)@.register(caller@, verification_method@, now as nat),
    {
        let slot = self.did_slot(&caller);
        let key = caller.clone();
        let doc = DIDDocument::new(caller, verification_method, now);
        proof {
            lemma_first_index(controllers(self@.dids), key@);
        }
        match slot {
            Some(i) => {
                self.dids.set(i, doc);
                assert(self@.dids =~= old(self)@.dids.update(i as int, doc@));
                assert(controllers(self@.dids) =~= controllers(old(self)@.dids));
            },
            None => {
                self.did_keys.push(key);
                self.dids.push(doc);
                assert(self@.dids =~= old(self)@.dids.push(doc@));
                assert(controllers(self@.dids) =~= controllers(old(self)@.dids).push(key@));
                assert(texts_of(self.did_keys@) =~= texts_of(old(self).did_keys@).push(key@));
            },
        }
        assert(self@.credentials == old(self)@.credentials);
    }

    /// Updates the DID document of `caller`: each given value replaces the
    /// old one.
    pub fn update_did(
        &mut self,
        caller: &String,
        verification_method: Option<String>,
        service_endpoints: Option<Vec<String>>,
        now: u64,
    ) -> (outcome: Result<(), RegistryError>)
        requires
            old(self).wf(),
        ensures
            final(self).wf(),
            outcome == old(self)@.update_outcome(caller@),
            final(self)@ == old(self)@.after_update(
                caller@,
                text_of(verification_method),
                texts_opt(service_endpoints),
                now as nat,
            ),
            outcome is Err ==> final(self)@ == old(self)@,
    {
        let i: usize = match self.did_slot(caller) {
            Some(i) => i,
            None => { return Err(RegistryError::NotFound); },
        };
        let mut doc = self.dids[i].clone();
        doc.update(verification_method, service_endpoints, now);
        self.dids.set(i, doc);
        assert(self@.dids =~= old(self)@.dids.update(i as int, doc@));
        assert(controllers(self@.dids) =~= controllers(old(self)@.dids));
        assert(self@.credentials == old(self)@.credentials);
        Ok(())
    }

    /// The DID document of `account_id`, if it has one.
    pub fn resolve_did(&self, account_id: String) -> (found: Option<DIDDocument>)
        requires
            self.wf(),
        ensures
            found is Some <==> self@.resolve(account_id@) is Some,
            found is Some ==> found->0@ == self@.resolve(account_id@).unwrap(),
    {
        match self.did_slot(&account_id) {
            Some(i) => Some(self.dids[i].clone()),
            None => None,
        }
    }

    /// All DID documents, in the order in which their accounts first
    /// registered.
    pub fn get_all_dids(&self) -> (all: Vec<DIDDocument>)
        ensures
            did_views(all@) == self@.dids,
    {
        let mut all: Vec<DIDDocument> = Vec::new();
        let n: usize = self.dids.len();
        let mut i: usize = 0;
        while i < n
            invariant
                n == self.dids@.len(),
                i <= n,
                did_views(all@) == did_views(self.dids@).take(i as int),
            decreases n - i,
        {
            let copy = self.dids[i].clone();
            let ghost before = did_views(all@);
            all.push(copy);
            assert(did_views(all@) =~= before.push(copy@));
            assert(did_views(all@) =~= did_views(self.dids@).take(i + 1));
            i = i + 1;
        }
        assert(did_views(self.dids@).take(n as int) =~= did_views(self.dids@));
        all
    }

    /// Issues a credential from `issuer` to `subject` and returns its id:
    /// `vc-` followed by the number of credentials issued before it.
    pub fn issue_credential(
        &mut self,
        issuer: String,
        subject: String,
        credential_type: String,
        data_hash: String,
        now: u64,
    ) -> (id: String)
        requires
            old(self).wf(),
            old(self)@.credential_count() < u64::MAX,
        ensures
            final(self).wf(),
            id@ == credential_id(old(self)@.credential_count()),
            final(self)@ == old(self)@.issue(
                issuer@,
                subject@,
                credential_type@,
                data_hash@,
                now as nat,
            ),
    {
        let id = credential_id_text(self.credential_count);
        let credential = Credential {
            id: id.clone(),
            issuer,
            subject,
            credential_type,
            data_hash,
            issued_at: now,
            status: CredentialStatus::Active,
        };
        self.credential_keys.push(id.clone());
        self.credentials.push(credential);
        self.credential_count = self.credential_count + 1;
        assert(self@.credentials =~= old(self)@.credentials.push(credential@));
        assert(credential_ids(self@.credentials) =~= credential_ids(old(self)@.credentials).push(
            id@,
        ));
        assert(texts_of(self.credential_keys@) =~= texts_of(old(self).credential_keys@).push(id@));
        assert(self@.dids == old(self)@.dids);
        id
    }

    /// Revokes a credential on behalf of `caller`, who must be its issuer.
    pub fn revoke_credential(&mut self, caller: &String, credential_id: String) -> (outcome: Result<
        (),
        RegistryError,
    >)
        requires
            old(self).wf(),
        ensures
            final(self).wf(),
            outcome == old(self)@.revoke_outcome(caller@, credential_id@),
            final(self)@ == old(self)@.after_revoke(caller@, credential_id@),
            outcome is Err ==> final(self)@ == old(self)@,
    {
        let i: usize = match self.credential_slot(&credential_id) {
            Some(i) => i,
            None => { return Err(RegistryError::NotFound); },
        };
        let mut credential = self.credentials[i].clone();
        match credential.revoke(caller) {
            Ok(()) => {
                self.credentials.set(i, credential);
                assert(self@.credentials =~= old(self)@.credentials.update(
                    i as int,
                    credential@,
                ));
                assert(credential_ids(self@.credentials) =~= credential_ids(
                    old(self)@.credentials,
                ));
                assert(self@.dids == old(self)@.dids);
                Ok(())
            },
            Err(e) => Err(e),
        }
    }

    /// The credential with the given id, if there is one.
    pub fn get_credential(&self, credential_id: String) -> (found: Option<Credential>)
        requires
            self.wf(),
        ensures
            found is Some <==> self@.credential(credential_id@) is Some,
            found is Some ==> found->0@ == self@.credential(credential_id@).unwrap(),
    {
        match self.credential_slot(&credential_id) {
            Some(i) => Some(self.credentials[i].clone()),
            None => None,
        }
    }

    /// The credentials issued to `subject`, in the order in which they were
    /// issued.
    pub fn get_credentials_for(&self, subject: String) -> (issued: Vec<Credential>)
        ensures
            credential_views(issued@) == issued_to(self@.credentials, subject@),
    {
        let ghost views = credential_views(self.credentials@);
        let mut issued: Vec<Credential> = Vec::new();
        let n: usize = self.credentials.len();
        let mut i: usize = 0;
        while i < n
            invariant
                n == self.credentials@.len(),
                views == credential_views(self.credentials@),
                i <= n,
                credential_views(issued@) == issued_to(views.take(i as int), subject@),
            decreases n - i,
        {
            assert(views.take(i + 1).drop_last() =~= views.take(i as int));
            if self.credentials[i].subject == subject {
                let copy = self.credentials[i].clone();
                let ghost before = credential_views(issued@);
                issued.push(copy);
                assert(credential_views(issued@) =~= before.push(copy@));
            }
            i = i + 1;
        }
        assert(views.take(n as int) =~= views);
        issued
    }

    /// The number of credentials ever issued.
    pub fn get_credential_count(&self) -> (count: u64)
        requires
            self.wf(),
        ensures
            count == self@.credential_count(),
    {
        self.credential_count
    }
}

} // verus!
