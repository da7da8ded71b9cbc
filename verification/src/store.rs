//! The table of documents, one per controlling account, and the only paths
//! by which it changes.

use std::collections::BTreeMap;
use vstd::prelude::*;
use crate::document::{apply_call, Call, CallView, DidDocument, DocumentView};
use crate::error::Error;
use crate::primitives::{AccountId, BlockNumber, Config};
use crate::record::{document_of, from_record, record_fits, DocumentRecord, RecordView};

verus! {

/// What each stored document holds, by the account it is stored under.
pub open spec fn document_views(docs: Map<AccountId, DidDocument>) -> Map<
    AccountId,
    DocumentView,
> {
    Map::new(|k: AccountId| docs.contains_key(k), |k: AccountId| docs[k]@)
}

/// What holds of a table of documents at all times: the limits are positive,
/// and each document is stored under its controller and keeps within them.
pub open spec fn table_invariant(docs: Map<AccountId, DocumentView>, limits: Config) -> bool {
    &&& limits.valid()
    &&& forall|k: AccountId| #[trigger]
        docs.contains_key(k) ==> docs[k].controller == k && docs[k].within(limits)
}

/// The table after a document for `did` is created at `created_at`, or why
/// none is created.
pub open spec fn insert_new_result(
    docs: Map<AccountId, DocumentView>,
    did: AccountId,
    created_at: BlockNumber,
) -> Result<Map<AccountId, DocumentView>, Error> {
    if docs.contains_key(did) {
        Err(Error::DidDocumentAlreadyExists)
    } else {
        Ok(docs.insert(did, DocumentView::fresh(did, created_at)))
    }
}

/// The table after the persisted document `record` is put back under its
/// controller; none where that account has a document already or the record
/// does not fit the limits.
pub open spec fn restore_result(
    docs: Map<AccountId, DocumentView>,
    limits: Config,
    record: RecordView,
) -> Option<Map<AccountId, DocumentView>> {
    if docs.contains_key(record.controller) || !record_fits(record, limits) {
        None
    } else {
        Some(docs.insert(record.controller, document_of(record)))
    }
}

/// The table after `caller` applies `call` to the document of `did`, or why
/// the call is refused.
pub open spec fn mutate_result(
    docs: Map<AccountId, DocumentView>,
    limits: Config,
    did: AccountId,
    caller: AccountId,
    call: CallView,
) -> Result<Map<AccountId, DocumentView>, Error> {
    if !docs.contains_key(did) {
        Err(Error::DidDocumentNotFound)
    } else {
        match apply_call(docs[did], limits, caller, call) {
            Ok(doc) => Ok(docs.insert(did, doc)),
            Err(e) => Err(e),
        }
    }
}

/// The documents of all accounts.
#[derive(Debug, PartialEq, Eq)]
pub struct DocumentStore {
    documents: BTreeMap<AccountId, DidDocument>,
    limits: Config,
}

impl View for DocumentStore {
    type V = Map<AccountId, DocumentView>;

    closed spec fn view(&self) -> Map<AccountId, DocumentView> {
        document_views(self.documents@)
    }
}

impl DocumentStore {
    /// The limits are positive, and each document is well formed, is stored
    /// under its controller and was made with the store's limits.
    #[verifier::type_invariant]
    pub closed spec fn wf(self) -> bool {
        &&& self.limits.valid()
        &&& forall|k: AccountId| #[trigger]
            self.documents@.contains_key(k) ==> {
                &&& self.documents@[k].wf()
                &&& self.documents@[k]@.controller == k
                &&& self.documents@[k].limits() == self.limits
            }
    }

    /// The limits that every document of the store is held to.
    pub closed spec fn limits(&self) -> Config {
        self.limits
    }

    /// A well-formed store satisfies the table invariant.
    pub proof fn lemma_table_invariant(&self)
        requires
            self.wf(),
        ensures
            table_invariant(self@, self.limits()),
    {
        assert forall|k: AccountId| #[trigger] self@.contains_key(k) implies self@[k].controller
            == k && self@[k].within(self.limits()) by {
            assert(self.documents@.contains_key(k));
            self.documents@[k].lemma_within_limits();
        }
    }

    /// A store without documents, unless one of the limits is zero.
    pub fn new(limits: Config) -> (made: Option<Self>)
        ensures
            made is Some == limits.valid(),
            match made {
                Some(store) => store.wf() && store@ == Map::<AccountId, DocumentView>::empty()
                    && store.limits() == limits,
                None => true,
            },
    {
        if !limits.is_valid() {
            return None;
        }
        let store = DocumentStore { documents: BTreeMap::new(), limits };
        assert(store@ =~= Map::<AccountId, DocumentView>::empty());
        Some(store)
    }

    /// The limits the store was made with.
    pub fn config(&self) -> (limits: Config)
        ensures
            limits == self.limits(),
            table_invariant(self@, self.limits()),
    {
        proof {
            use_type_invariant(self);
            self.lemma_table_invariant();
        }
        self.limits
    }

    /// Whether `did` has a document.
    pub fn contains(&self, did: AccountId) -> (found: bool)
        ensures
            found == self@.contains_key(did),
    {
        self.documents.contains_key(&did)
    }

    /// The number of documents.
    pub fn len(&self) -> (n: usize)
        ensures
            self@.dom().finite(),
            n == self@.len(),
    {
        assert(self@.dom() =~= self.documents@.dom());
        self.documents.len()
    }

    /// A copy of the document of `did`, if it has one.
    pub fn get(&self, did: AccountId) -> (doc: Option<DidDocument>)
        ensures
            table_invariant(self@, self.limits()),
            match doc {
                Some(d) => self@.contains_key(did) && d@ == self@[did] && d.wf() && d.limits()
                    == self.limits(),
                None => !self@.contains_key(did),
            },
    {
        proof {
            use_type_invariant(self);
            self.lemma_table_invariant();
        }
        match self.documents.get(&did) {
            Some(stored) => {
                assert(self.documents@.contains_key(did));
                Some(stored.clone())
            },
            None => None,
        }
    }

    /// Creates the empty document of `did`, stamped with `created_at`, unless
    /// `did` already has a document: then nothing changes.
    pub fn insert_new(&mut self, did: AccountId, created_at: BlockNumber) -> (done: Result<
        (),
        Error,
    >)
        ensures
            final(self).wf(),
            final(self).limits() == old(self).limits(),
            table_invariant(final(self)@, final(self).limits()),
            match insert_new_result(old(self)@, did, created_at) {
                Ok(docs) => done == Ok::<(), Error>(()) && final(self)@ == docs,
                Err(e) => done == Err::<(), Error>(e) && final(self)@ == old(self)@,
            },
    {
        proof {
            use_type_invariant(&*self);
            self.lemma_table_invariant();
        }
        if self.documents.contains_key(&did) {
            return Err(Error::DidDocumentAlreadyExists);
        }
        let doc = DidDocument::new(did, created_at, self.limits);
        self.put(did, doc);
        proof {
            self.lemma_table_invariant();
        }
        Ok(())
    }

    /// Puts a persisted document back under its controller and says whether
    /// it did. It does not where that account has a document already or the
    /// record does not fit the limits: then nothing changes.
    pub fn restore(&mut self, record: DocumentRecord) -> (restored: bool)
        ensures
            final(self).wf(),
            final(self).limits() == old(self).limits(),
            table_invariant(final(self)@, final(self).limits()),
            match restore_result(old(self)@, old(self).limits(), record@) {
                Some(docs) => restored && final(self)@ == docs,
                None => !restored && final(self)@ == old(self)@,
            },
    {
        proof {
            use_type_invariant(&*self);
            self.lemma_table_invariant();
        }
        let did = record.controller;
        if self.documents.contains_key(&did) {
            return false;
        }
        match from_record(record, self.limits) {
            Some(doc) => {
                self.put(did, doc);
                proof {
                    self.lemma_table_invariant();
                }
                true
            },
            None => false,
        }
    }

    /// Applies `call` on behalf of `caller` to the document of `did`. The
    /// call works on a copy, which replaces the stored document only where
    /// the call succeeds: a refused call changes nothing.
    pub fn mutate(&mut self, did: AccountId, caller: AccountId, call: &Call) -> (done: Result<
        (),
        Error,
    >)
        ensures
            final(self).wf(),
            final(self).limits() == old(self).limits(),
            table_invariant(final(self)@, final(self).limits()),
            match mutate_result(old(self)@, old(self).limits(), did, caller, call@) {
                Ok(docs) => done == Ok::<(), Error>(()) && final(self)@ == docs,
                Err(e) => done == Err::<(), Error>(e) && final(self)@ == old(self)@,
            },
    {
        proof {
            use_type_invariant(&*self);
            self.lemma_table_invariant();
        }
        let mut doc = match self.documents.get(&did) {
            Some(stored) => {
                assert(self.documents@.contains_key(did));
                stored.clone()
            },
            None => {
                return Err(Error::DidDocumentNotFound);
            },
        };
        match doc.apply(caller, call) {
            Ok(()) => {
                self.put(did, doc);
                proof {
                    self.lemma_table_invariant();
                }
                Ok(())
            },
            Err(e) => Err(e),
        }
    }

    /// Stores `doc` under `did`, in place of what was there.
    fn put(&mut self, did: AccountId, doc: DidDocument)
        requires
            doc.wf(),
            doc@.controller == did,
            doc.limits() == old(self).limits(),
        ensures
            final(self).wf(),
            final(self).limits() == old(self).limits(),
            final(self)@ == old(self)@.insert(did, doc@),
    {
        proof {
            use_type_invariant(&*self);
        }
        // The table leaves the store while it changes, so that the store is
        // well formed at every step.
        let mut documents: BTreeMap<AccountId, DidDocument> = BTreeMap::new();
        std::mem::swap(&mut documents, &mut self.documents);
        documents.insert(did, doc);
        self.documents = documents;
        assert(self@ =~= old(self)@.insert(did, doc@));
    }
}

impl Clone for DocumentStore {
    /// A copy of the store, with the same limits.
    fn clone(&self) -> (copy: Self)
        ensures
            copy.wf(),
            copy@ == self@,
            copy.limits() == self.limits(),
    {
        proof {
            use_type_invariant(self);
        }
        let documents = self.documents.clone();
        DocumentStore { documents, limits: self.limits }
    }
}

} // verus!
