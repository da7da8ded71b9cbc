//! The identity document of one account, and the operations its controller
//! may apply to it.

use vstd::prelude::*;
use crate::bounded_list::{without_first, BoundedList, CollectionError};
use crate::bounded_map::BoundedMap;
use crate::bytes::copy_bytes;
use crate::error::Error;
use crate::event::{Event, EventView};
use crate::primitives::{AccountId, BlockNumber, ChainId, Config};

verus! {

/// What a document holds.
pub struct DocumentView {
    /// The account that may change the document.
    pub controller: AccountId,
    /// The address of the identity on each linked chain.
    pub linked_chains: Map<ChainId, Seq<u8>>,
    /// The public keys, in the order in which they were added.
    pub public_keys: Seq<Seq<u8>>,
    /// The service descriptors, in the order in which they were added.
    pub services: Seq<Seq<u8>>,
    /// The height of the ledger when the document was created.
    pub created_at: BlockNumber,
}

impl DocumentView {
    /// The document of `controller` as it is when created at `created_at`.
    pub open spec fn fresh(controller: AccountId, created_at: BlockNumber) -> DocumentView {
        DocumentView {
            controller,
            linked_chains: Map::empty(),
            public_keys: Seq::empty(),
            services: Seq::empty(),
            created_at,
        }
    }

    /// No collection holds more than `limits` allows.
    pub open spec fn within(self, limits: Config) -> bool {
        &&& self.linked_chains.dom().finite()
        &&& self.linked_chains.len() <= limits.max_linked_chains
        &&& self.public_keys.len() <= limits.max_public_keys
        &&& self.services.len() <= limits.max_services
    }
}

/// A change that a controller asks of a document.
#[derive(Debug, PartialEq, Eq)]
pub enum Call {
    /// Record `address` as the identity's address on the chain `chain_id`.
    /// `chain_name` is a label for the reader; nothing depends on it.
    LinkChain { chain_name: Vec<u8>, chain_id: ChainId, address: Vec<u8> },
    /// Forget the address on the chain `chain_id`.
    UnlinkChain { chain_id: ChainId },
    /// Append a public key.
    AddPublicKey { key: Vec<u8> },
    /// Remove the first public key equal to `key`.
    RemovePublicKey { key: Vec<u8> },
    /// Append a service descriptor.
    AddService { service: Vec<u8> },
    /// Remove the first service descriptor equal to `service`.
    RemoveService { service: Vec<u8> },
}

/// A call, as far as its outcome depends on it.
pub enum CallView {
    LinkChain { chain_id: ChainId, address: Seq<u8> },
    UnlinkChain { chain_id: ChainId },
    AddPublicKey { key: Seq<u8> },
    RemovePublicKey { key: Seq<u8> },
    AddService { service: Seq<u8> },
    RemoveService { service: Seq<u8> },
}

impl View for Call {
    type V = CallView;

    open spec fn view(&self) -> CallView {
        match *self {
            Call::LinkChain { chain_name, chain_id, address } => CallView::LinkChain {
                chain_id,
                address: address@,
            },
            Call::UnlinkChain { chain_id } => CallView::UnlinkChain { chain_id },
            Call::AddPublicKey { key } => CallView::AddPublicKey { key: key@ },
            Call::RemovePublicKey { key } => CallView::RemovePublicKey { key: key@ },
            Call::AddService { service } => CallView::AddService { service: service@ },
            Call::RemoveService { service } => CallView::RemoveService { service: service@ },
        }
    }
}

/// Whether `caller` may change `doc`.
pub open spec fn authorized(doc: DocumentView, caller: AccountId) -> Result<(), Error> {
    if caller == doc.controller {
        Ok(())
    } else {
        Err(Error::NotController)
    }
}

/// The document that `call` by `caller` makes of `doc`, or why it is refused.
/// The caller is checked first, then the limit, then the entry itself.
pub open spec fn apply_call(
    doc: DocumentView,
    limits: Config,
    caller: AccountId,
    call: CallView,
) -> Result<DocumentView, Error> {
    if caller != doc.controller {
        Err(Error::NotController)
    } else {
        match call {
            CallView::LinkChain { chain_id, address } => {
                if doc.linked_chains.len() >= limits.max_linked_chains {
                    Err(Error::TooManyLinkedChains)
                } else if doc.linked_chains.contains_key(chain_id) {
                    Err(Error::ChainAlreadyLinked)
                } else {
                    Ok(
                        DocumentView {
                            linked_chains: doc.linked_chains.insert(chain_id, address),
                            ..doc
                        },
                    )
                }
            },
            CallView::UnlinkChain { chain_id } => {
                if doc.linked_chains.contains_key(chain_id) {
                    Ok(DocumentView { linked_chains: doc.linked_chains.remove(chain_id), ..doc })
                } else {
                    Err(Error::ChainNotLinked)
                }
            },
            CallView::AddPublicKey { key } => {
                if doc.public_keys.len() >= limits.max_public_keys {
                    Err(Error::TooManyPublicKeys)
                } else {
                    Ok(DocumentView { public_keys: doc.public_keys.push(key), ..doc })
                }
            },
            CallView::RemovePublicKey { key } => {
                if doc.public_keys.contains(key) {
                    Ok(DocumentView { public_keys: without_first(doc.public_keys, key), ..doc })
                } else {
                    Err(Error::PublicKeyNotFound)
                }
            },
            CallView::AddService { service } => {
                if doc.services.len() >= limits.max_services {
                    Err(Error::TooManyServices)
                } else {
                    Ok(DocumentView { services: doc.services.push(service), ..doc })
                }
            },
            CallView::RemoveService { service } => {
                if doc.services.contains(service) {
                    Ok(DocumentView { services: without_first(doc.services, service), ..doc })
                } else {
                    Err(Error::ServiceNotFound)
                }
            },
        }
    }
}

/// The event that reports `call` on the document of `did`.
pub open spec fn event_of(did: AccountId, call: CallView) -> EventView {
    match call {
        CallView::LinkChain { chain_id, address } => EventView::ChainLinked {
            did,
            chain_id,
            address,
        },
        CallView::UnlinkChain { chain_id } => EventView::ChainUnlinked { did, chain_id },
        CallView::AddPublicKey { key } => EventView::PublicKeyAdded { did, key },
        CallView::RemovePublicKey { key } => EventView::PublicKeyRemoved { did, key },
        CallView::AddService { service } => EventView::ServiceAdded { did, service },
        CallView::RemoveService { service } => EventView::ServiceRemoved { did, service },
    }
}

impl Call {
    /// The event that reports this call on the document of `did`.
    pub fn into_event(self, did: AccountId) -> (event: Event)
        ensures
            event@ == event_of(did, self@),
    {
        match self {
            Call::LinkChain { chain_name, chain_id, address } => Event::ChainLinked {
                did,
                chain_id,
                address,
            },
            Call::UnlinkChain { chain_id } => Event::ChainUnlinked { did, chain_id },
            Call::AddPublicKey { key } => Event::PublicKeyAdded { did, key },
            Call::RemovePublicKey { key } => Event::PublicKeyRemoved { did, key },
            Call::AddService { service } => Event::ServiceAdded { did, service },
            Call::RemoveService { service } => Event::ServiceRemoved { did, service },
        }
    }
}

/// The identity document of one account.
#[derive(Debug, PartialEq, Eq)]
pub struct DidDocument {
    controller: AccountId,
    linked_chains: BoundedMap,
    public_keys: BoundedList,
    services: BoundedList,
    created_at: BlockNumber,
}

impl View for DidDocument {
    type V = DocumentView;

    closed spec fn view(&self) -> DocumentView {
        DocumentView {
            controller: self.controller,
            linked_chains: self.linked_chains@,
            public_keys: self.public_keys@,
            services: self.services@,
            created_at: self.created_at,
        }
    }
}

impl DidDocument {
    /// Each collection keeps within its capacity.
    pub closed spec fn wf(&self) -> bool {
        &&& self.linked_chains.wf()
        &&& self.public_keys.wf()
        &&& self.services.wf()
    }

    /// The capacities the document's collections were made with.
    pub closed spec fn limits(&self) -> Config {
        Config {
            max_linked_chains: self.linked_chains.capacity(),
            max_public_keys: self.public_keys.capacity(),
            max_services: self.services.capacity(),
        }
    }

    /// A well-formed document keeps within its limits.
    pub proof fn lemma_within_limits(&self)
        requires
            self.wf(),
        ensures
            self@.within(self.limits()),
    {
        self.linked_chains.lemma_entries();
        self.public_keys.lemma_len();
        self.services.lemma_len();
    }

    /// The document of `controller`, created at `created_at`, with empty
    /// collections that will hold what `limits` allows.
    pub fn new(controller: AccountId, created_at: BlockNumber, limits: Config) -> (doc: Self)
        ensures
            doc.wf(),
            doc@ == DocumentView::fresh(controller, created_at),
            doc.limits() == limits,
    {
        DidDocument {
            controller,
            linked_chains: BoundedMap::new(limits.max_linked_chains),
            public_keys: BoundedList::new(limits.max_public_keys),
            services: BoundedList::new(limits.max_services),
            created_at,
        }
    }

    /// The document made of the given parts, which keep their capacities.
    pub fn from_parts(
        controller: AccountId,
        linked_chains: BoundedMap,
        public_keys: BoundedList,
        services: BoundedList,
        created_at: BlockNumber,
    ) -> (doc: Self)
        ensures
            doc.wf(),
            doc@ == (DocumentView {
                controller,
                linked_chains: linked_chains@,
                public_keys: public_keys@,
                services: services@,
                created_at,
            }),
            doc.limits() == (Config {
                max_linked_chains: linked_chains.capacity(),
                max_public_keys: public_keys.capacity(),
                max_services: services.capacity(),
            }),
    {
        proof {
            use_type_invariant(&linked_chains);
            use_type_invariant(&public_keys);
            use_type_invariant(&services);
        }
        DidDocument { controller, linked_chains, public_keys, services, created_at }
    }

    /// The account that may change the document.
    pub fn controller(&self) -> (who: AccountId)
        ensures
            who == self@.controller,
    {
        self.controller
    }

    /// The height of the ledger when the document was created.
    pub fn created_at(&self) -> (height: BlockNumber)
        ensures
            height == self@.created_at,
    {
        self.created_at
    }

    /// The linked chains.
    pub fn linked_chains(&self) -> (chains: &BoundedMap)
        ensures
            chains@ == self@.linked_chains,
            chains.capacity() == self.limits().max_linked_chains,
            chains.wf(),
    {
        proof {
            use_type_invariant(&self.linked_chains);
        }
        &self.linked_chains
    }

    /// The public keys.
    pub fn public_keys(&self) -> (keys: &BoundedList)
        ensures
            keys@ == self@.public_keys,
            keys.capacity() == self.limits().max_public_keys,
            keys.wf(),
    {
        proof {
            use_type_invariant(&self.public_keys);
        }
        &self.public_keys
    }

    /// The service descriptors.
    pub fn services(&self) -> (services: &BoundedList)
        ensures
            services@ == self@.services,
            services.capacity() == self.limits().max_services,
            services.wf(),
    {
        proof {
            use_type_invariant(&self.services);
        }
        &self.services
    }

    /// The guard of every change: only the controller passes.
    pub fn ensure_controller(&self, caller: AccountId) -> (pass: Result<(), Error>)
        ensures
            pass == authorized(self@, caller),
    {
        if caller == self.controller {
            Ok(())
        } else {
            Err(Error::NotController)
        }
    }

    /// Applies `call` on behalf of `caller`. A refused call changes nothing.
    pub fn apply(&mut self, caller: AccountId, call: &Call) -> (done: Result<(), Error>)
        ensures
            final(self).wf(),
            final(self).limits() == old(self).limits(),
            match apply_call(old(self)@, old(self).limits(), caller, call@) {
                Ok(doc) => done == Ok::<(), Error>(()) && final(self)@ == doc,
                Err(e) => done == Err::<(), Error>(e) && final(self)@ == old(self)@,
            },
    {
        proof {
            use_type_invariant(&self.linked_chains);
            use_type_invariant(&self.public_keys);
            use_type_invariant(&self.services);
            self.lemma_within_limits();
        }
        match self.ensure_controller(caller) {
            Ok(()) => {},
            Err(e) => {
                return Err(e);
            },
        }
        match call {
            Call::LinkChain { chain_name, chain_id, address } => {
                match self.linked_chains.try_insert(*chain_id, copy_bytes(address)) {
                    Ok(()) => Ok(()),
                    Err(CollectionError::DuplicateKey) => Err(Error::ChainAlreadyLinked),
                    Err(_) => Err(Error::TooManyLinkedChains),
                }
            },
            Call::UnlinkChain { chain_id } => {
                match self.linked_chains.remove(*chain_id) {
                    Ok(()) => Ok(()),
                    Err(_) => {
                        assert(self@.linked_chains =~= old(self)@.linked_chains);
                        Err(Error::ChainNotLinked)
                    },
                }
            },
            Call::AddPublicKey { key } => {
                match self.public_keys.try_insert(copy_bytes(key)) {
                    Ok(()) => Ok(()),
                    Err(_) => Err(Error::TooManyPublicKeys),
                }
            },
            Call::RemovePublicKey { key } => {
                match self.public_keys.remove(key) {
                    Ok(()) => Ok(()),
                    Err(_) => Err(Error::PublicKeyNotFound),
                }
            },
            Call::AddService { service } => {
                match self.services.try_insert(copy_bytes(service)) {
                    Ok(()) => Ok(()),
                    Err(_) => Err(Error::TooManyServices),
                }
            },
            Call::RemoveService { service } => {
                match self.services.remove(service) {
                    Ok(()) => Ok(()),
                    Err(_) => Err(Error::ServiceNotFound),
                }
            },
        }
    }
}

impl Clone for DidDocument {
    /// A copy of the document, held to the same limits.
    fn clone(&self) -> (copy: Self)
        ensures
            copy.wf(),
            copy@ == self@,
            copy.limits() == self.limits(),
    {
        DidDocument {
            controller: self.controller,
            linked_chains: self.linked_chains.clone(),
            public_keys: self.public_keys.clone(),
            services: self.services.clone(),
            created_at: self.created_at,
        }
    }
}

impl Clone for Call {
    /// A copy of the call.
    fn clone(&self) -> (copy: Self)
        ensures
            copy@ == self@,
    {
        match self {
            Call::LinkChain { chain_name, chain_id, address } => Call::LinkChain {
                chain_name: copy_bytes(chain_name),
                chain_id: *chain_id,
                address: copy_bytes(address),
            },
            Call::UnlinkChain { chain_id } => Call::UnlinkChain { chain_id: *chain_id },
            Call::AddPublicKey { key } => Call::AddPublicKey { key: copy_bytes(key) },
            Call::RemovePublicKey { key } => Call::RemovePublicKey { key: copy_bytes(key) },
            Call::AddService { service } => Call::AddService { service: copy_bytes(service) },
            Call::RemoveService { service } => Call::RemoveService {
                service: copy_bytes(service),
            },
        }
    }
}

} // verus!
