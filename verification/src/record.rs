//! The layout in which a document is persisted: its fields as plain values,
//! the linked chains as pairs in the order of their chain identifiers.

use vstd::prelude::*;
use crate::bounded_list::BoundedList;
use crate::bounded_map::{
    as_map, copy_entries, entry_views, lemma_entries_determined, strictly_increasing, BoundedMap,
};
use crate::bytes::{contents, copy_list};
use crate::document::{DidDocument, DocumentView};
use crate::primitives::{AccountId, BlockNumber, ChainId, Config};

verus! {

/// A document as it is persisted.
#[derive(Debug, PartialEq, Eq)]
pub struct DocumentRecord {
    pub controller: AccountId,
    pub linked_chains: Vec<(ChainId, Vec<u8>)>,
    pub public_keys: Vec<Vec<u8>>,
    pub services: Vec<Vec<u8>>,
    pub created_at: BlockNumber,
}

/// What a record holds.
pub struct RecordView {
    pub controller: AccountId,
    pub linked_chains: Seq<(ChainId, Seq<u8>)>,
    pub public_keys: Seq<Seq<u8>>,
    pub services: Seq<Seq<u8>>,
    pub created_at: BlockNumber,
}

impl View for DocumentRecord {
    type V = RecordView;

    open spec fn view(&self) -> RecordView {
        RecordView {
            controller: self.controller,
            linked_chains: entry_views(self.linked_chains@),
            public_keys: contents(self.public_keys@),
            services: contents(self.services@),
            created_at: self.created_at,
        }
    }
}

impl Clone for DocumentRecord {
    /// A copy of the record.
    fn clone(&self) -> (copy: Self)
        ensures
            copy@ == self@,
    {
        DocumentRecord {
            controller: self.controller,
            linked_chains: copy_entries(&self.linked_chains),
            public_keys: copy_list(&self.public_keys),
            services: copy_list(&self.services),
            created_at: self.created_at,
        }
    }
}

/// Whether a record can be a document under `limits`: the chain identifiers
/// increase from each pair to the next, and no collection is over its limit.
pub open spec fn record_fits(record: RecordView, limits: Config) -> bool {
    &&& strictly_increasing(record.linked_chains)
    &&& record.linked_chains.len() <= limits.max_linked_chains
    &&& record.public_keys.len() <= limits.max_public_keys
    &&& record.services.len() <= limits.max_services
}

/// The document that a record stands for.
pub open spec fn document_of(record: RecordView) -> DocumentView {
    DocumentView {
        controller: record.controller,
        linked_chains: as_map(record.linked_chains),
        public_keys: record.public_keys,
        services: record.services,
        created_at: record.created_at,
    }
}

/// Whether `record` is the layout of `doc`: it stands for `doc`, and its
/// chain identifiers increase from each pair to the next.
pub open spec fn is_record_of(record: RecordView, doc: DocumentView) -> bool {
    &&& strictly_increasing(record.linked_chains)
    &&& document_of(record) == doc
}

/// A document has one layout only.
pub proof fn law_one_record_per_document(a: RecordView, b: RecordView, doc: DocumentView)
    requires
        is_record_of(a, doc),
        is_record_of(b, doc),
    ensures
        a == b,
{
    lemma_entries_determined(a.linked_chains, b.linked_chains);
}

/// Laying a document out and reading the layout gives the document back,
/// and reading a fitting record and laying the document out gives the record
/// back.
pub proof fn law_record_round_trip(record: RecordView, doc: DocumentView, back: RecordView)
    requires
        is_record_of(record, doc),
        is_record_of(back, document_of(record)),
    ensures
        document_of(record) == doc,
        back == record,
{
    law_one_record_per_document(back, record, doc);
}

/// The layout of `doc`.
pub fn to_record(doc: &DidDocument) -> (record: DocumentRecord)
    ensures
        is_record_of(record@, doc@),
        record_fits(record@, doc.limits()),
{
    let chains = doc.linked_chains();
    let keys = doc.public_keys();
    let services = doc.services();
    proof {
        chains.lemma_entries();
        keys.lemma_len();
        services.lemma_len();
    }
    DocumentRecord {
        controller: doc.controller(),
        linked_chains: chains.to_vec(),
        public_keys: keys.to_vec(),
        services: services.to_vec(),
        created_at: doc.created_at(),
    }
}

/// The document that `record` stands for, held to `limits`; none where the
/// record does not fit.
pub fn from_record(record: DocumentRecord, limits: Config) -> (made: Option<DidDocument>)
    ensures
        made is Some == record_fits(record@, limits),
        match made {
            Some(doc) => doc.wf() && doc@ == document_of(record@) && doc.limits() == limits,
            None => true,
        },
{
    let DocumentRecord { controller, linked_chains, public_keys, services, created_at } = record;
    let chains = match BoundedMap::from_vec(linked_chains, limits.max_linked_chains) {
        Some(chains) => chains,
        None => {
            return None;
        },
    };
    let keys = match BoundedList::from_vec(public_keys, limits.max_public_keys) {
        Some(keys) => keys,
        None => {
            return None;
        },
    };
    let services = match BoundedList::from_vec(services, limits.max_services) {
        Some(services) => services,
        None => {
            return None;
        },
    };
    Some(DidDocument::from_parts(controller, chains, keys, services, created_at))
}

} // verus!
