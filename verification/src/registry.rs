//! The registry: the table of documents, the event log and the height of the
//! ledger, with one entry point for each request.

use vstd::prelude::*;
use crate::document::{event_of, Call, CallView, DidDocument, DocumentView};
use crate::error::DispatchError;
use crate::event::{event_views, Event, EventView};
use crate::origin::{ensure_signed, signer, Origin};
use crate::primitives::{AccountId, BlockNumber, ChainId, Config};
use crate::record::DocumentRecord;
use crate::store::{
    insert_new_result, mutate_result, restore_result, table_invariant, DocumentStore,
};

verus! {

/// The state of a registry.
pub struct RegistryView {
    /// The limits every document is held to.
    pub config: Config,
    /// What each account's document holds.
    pub documents: Map<AccountId, DocumentView>,
    /// The events reported so far, oldest first.
    pub events: Seq<EventView>,
    /// The current height of the ledger.
    pub block_number: BlockNumber,
}

impl RegistryView {
    /// What holds of every registry: positive limits, each document stored
    /// under its controller and within the limits.
    pub open spec fn consistent(self) -> bool {
        table_invariant(self.documents, self.config)
    }
}

/// The state after a request: the new state where it succeeded, the old one
/// where it was refused.
pub open spec fn state_after(
    before: RegistryView,
    result: Result<RegistryView, DispatchError>,
) -> RegistryView {
    match result {
        Ok(after) => after,
        Err(_) => before,
    }
}

/// What a request returns to its caller.
pub open spec fn outcome(result: Result<RegistryView, DispatchError>) -> Result<
    (),
    DispatchError,
> {
    match result {
        Ok(_) => Ok(()),
        Err(e) => Err(e),
    }
}

/// The state after the host reports the height `height`: the ledger moves
/// there unless that would take it back.
pub open spec fn at_height(s: RegistryView, height: BlockNumber) -> RegistryView {
    if height >= s.block_number {
        RegistryView { block_number: height, ..s }
    } else {
        s
    }
}

/// The state in which a request by `origin` to create a document ends, or why
/// it is refused. The new document is empty, controlled by its creator and
/// stamped with the current height, and one event reports it.
pub open spec fn create_did_result(s: RegistryView, origin: Origin) -> Result<
    RegistryView,
    DispatchError,
> {
    match signer(origin) {
        Err(e) => Err(e),
        Ok(who) => match insert_new_result(s.documents, who, s.block_number) {
            Err(e) => Err(DispatchError::Module(e)),
            Ok(documents) => Ok(
                RegistryView {
                    documents,
                    events: s.events.push(
                        EventView::DidDocumentCreated { did: who, controller: who },
                    ),
                    ..s
                },
            ),
        },
    }
}

/// The state in which `call` by `origin` on its own document ends, or why it
/// is refused. A successful call changes that one document and adds one
/// event.
pub open spec fn dispatch_result(s: RegistryView, origin: Origin, call: CallView) -> Result<
    RegistryView,
    DispatchError,
> {
    match signer(origin) {
        Err(e) => Err(e),
        Ok(who) => match mutate_result(s.documents, s.config, who, who, call) {
            Err(e) => Err(DispatchError::Module(e)),
            Ok(documents) => Ok(
                RegistryView { documents, events: s.events.push(event_of(who, call)), ..s },
            ),
        },
    }
}

/// A registry of identity documents.
#[derive(Debug, PartialEq, Eq)]
pub struct Registry {
    store: DocumentStore,
    events: Vec<Event>,
    block_number: BlockNumber,
}

impl View for Registry {
    type V = RegistryView;

    closed spec fn view(&self) -> RegistryView {
        RegistryView {
            config: self.store.limits(),
            documents: self.store@,
            events: event_views(self.events@),
            block_number: self.block_number,
        }
    }
}

impl Registry {
    /// An empty registry at height zero, unless one of the limits is zero.
    pub fn new(config: Config) -> (made: Option<Self>)
        ensures
            made is Some == config.valid(),
            match made {
                Some(registry) => registry@ == (RegistryView {
                    config,
                    documents: Map::empty(),
                    events: Seq::empty(),
                    block_number: 0,
                }) && registry@.consistent(),
                None => true,
            },
    {
        match DocumentStore::new(config) {
            None => None,
            Some(store) => {
                let registry = Registry { store, events: Vec::new(), block_number: 0 };
                assert(registry@.events =~= Seq::<EventView>::empty());
                Some(registry)
            },
        }
    }

    /// The limits every document is held to.
    pub fn config(&self) -> (config: Config)
        ensures
            config == self@.config,
            self@.consistent(),
    {
        self.store.config()
    }

    /// The current height of the ledger.
    pub fn block_number(&self) -> (height: BlockNumber)
        ensures
            height == self@.block_number,
    {
        self.block_number
    }

    /// Moves the ledger to `height`, which stamps the documents created from
    /// now on, and says whether it did. The height never goes back: a lower
    /// one is refused and changes nothing.
    pub fn set_block_number(&mut self, height: BlockNumber) -> (moved: bool)
        ensures
            moved == (height >= old(self)@.block_number),
            final(self)@ == at_height(old(self)@, height),
    {
        if height >= self.block_number {
            self.block_number = height;
            true
        } else {
            false
        }
    }

    /// The events reported so far, oldest first.
    pub fn events(&self) -> (events: &Vec<Event>)
        ensures
            event_views(events@) == self@.events,
    {
        &self.events
    }

    /// The event reported last, if any was.
    pub fn last_event(&self) -> (event: Option<&Event>)
        ensures
            match event {
                Some(e) => self@.events.len() > 0 && e@ == self@.events.last(),
                None => self@.events.len() == 0,
            },
    {
        let n = self.events.len();
        if n == 0 {
            None
        } else {
            Some(&self.events[n - 1])
        }
    }

    /// Hands out the events reported so far and empties the log.
    pub fn take_events(&mut self) -> (events: Vec<Event>)
        ensures
            event_views(events@) == old(self)@.events,
            final(self)@ == (RegistryView { events: Seq::empty(), ..old(self)@ }),
    {
        let mut events: Vec<Event> = Vec::new();
        std::mem::swap(&mut events, &mut self.events);
        assert(self@.events =~= Seq::<EventView>::empty());
        events
    }

    /// A copy of the document that `did` controls, if it controls one.
    pub fn did_documents(&self, did: AccountId) -> (doc: Option<DidDocument>)
        ensures
            self@.consistent(),
            match doc {
                Some(d) => self@.documents.contains_key(did) && d@ == self@.documents[did]
                    && d.wf() && d.limits() == self@.config,
                None => !self@.documents.contains_key(did),
            },
    {
        self.store.get(did)
    }

    /// Puts a persisted document back under its controller and says whether
    /// it did. It does not where that account has a document already or the
    /// record does not fit the limits: then nothing changes. No event reports
    /// it.
    pub fn restore(&mut self, record: DocumentRecord) -> (restored: bool)
        ensures
            restored == restore_result(old(self)@.documents, old(self)@.config, record@) is Some,
            final(self)@ == match restore_result(
                old(self)@.documents,
                old(self)@.config,
                record@,
            ) {
                Some(documents) => RegistryView { documents, ..old(self)@ },
                None => old(self)@,
            },
            final(self)@.consistent(),
    {
        self.store.restore(record)
    }

    /// Creates the document of the caller: empty, controlled by the caller
    /// and stamped with the current height. An unsigned request fails with
    /// `BadOrigin`, a caller who already has a document with
    /// `DidDocumentAlreadyExists`; a refused request changes nothing.
    pub fn create_did(&mut self, origin: Origin) -> (done: Result<(), DispatchError>)
        ensures
            done == outcome(create_did_result(old(self)@, origin)),
            final(self)@ == state_after(old(self)@, create_did_result(old(self)@, origin)),
            final(self)@.consistent(),
    {
        let who = match ensure_signed(origin) {
            Ok(who) => who,
            Err(e) => {
                proof {
                    use_type_invariant(&self.store);
                    self.store.lemma_table_invariant();
                }
                return Err(e);
            },
        };
        match self.store.insert_new(who, self.block_number) {
            Ok(()) => {
                self.log(Event::DidDocumentCreated { did: who, controller: who });
                Ok(())
            },
            Err(e) => {
                Err(DispatchError::Module(e))
            },
        }
    }

    /// Applies `call` to the caller's own document and reports it with one
    /// event. An unsigned request fails with `BadOrigin`, a caller without a
    /// document with `DidDocumentNotFound`, and otherwise the call fails as
    /// the document refuses it; a refused request changes nothing.
    pub fn dispatch(&mut self, origin: Origin, call: Call) -> (done: Result<(), DispatchError>)
        ensures
            done == outcome(dispatch_result(old(self)@, origin, call@)),
            final(self)@ == state_after(old(self)@, dispatch_result(old(self)@, origin, call@)),
            final(self)@.consistent(),
    {
        let who = match ensure_signed(origin) {
            Ok(who) => who,
            Err(e) => {
                proof {
                    use_type_invariant(&self.store);
                    self.store.lemma_table_invariant();
                }
                return Err(e);
            },
        };
        match self.store.mutate(who, who, &call) {
            Ok(()) => {
                self.log(call.into_event(who));
                Ok(())
            },
            Err(e) => {
                Err(DispatchError::Module(e))
            },
        }
    }

    /// Appends one event to the log.
    fn log(&mut self, event: Event)
        ensures
            final(self)@ == (RegistryView {
                events: old(self)@.events.push(event@),
                ..old(self)@
            }),
    {
        self.events.push(event);
        assert(self@.events =~= old(self)@.events.push(event@));
    }

    /// Links the chain `chain_id` to the caller's document, with `address` as
    /// the identity's address there. Fails with `TooManyLinkedChains` where
    /// the document is full and with `ChainAlreadyLinked` where it already
    /// links `chain_id`. Nothing depends on `chain_name`.
    pub fn link_chain(
        &mut self,
        origin: Origin,
        chain_name: Vec<u8>,
        chain_id: ChainId,
        address: Vec<u8>,
    ) -> (done: Result<(), DispatchError>)
        ensures
            done == outcome(
                dispatch_result(
                    old(self)@,
                    origin,
                    CallView::LinkChain { chain_id, address: address@ },
                ),
            ),
            final(self)@ == state_after(
                old(self)@,
                dispatch_result(
                    old(self)@,
                    origin,
                    CallView::LinkChain { chain_id, address: address@ },
                ),
            ),
            final(self)@.consistent(),
    {
        self.dispatch(origin, Call::LinkChain { chain_name, chain_id, address })
    }

    /// Unlinks the chain `chain_id` from the caller's document. Fails with
    /// `ChainNotLinked` where the document does not link it.
    pub fn unlink_chain(&mut self, origin: Origin, chain_id: ChainId) -> (done: Result<
        (),
        DispatchError,
    >)
        ensures
            done == outcome(
                dispatch_result(old(self)@, origin, CallView::UnlinkChain { chain_id }),
            ),
            final(self)@ == state_after(
                old(self)@,
                dispatch_result(old(self)@, origin, CallView::UnlinkChain { chain_id }),
            ),
            final(self)@.consistent(),
    {
        self.dispatch(origin, Call::UnlinkChain { chain_id })
    }

    /// Appends `key` to the public keys of the caller's document. Fails with
    /// `TooManyPublicKeys` where the document is full.
    pub fn add_public_key(&mut self, origin: Origin, key: Vec<u8>) -> (done: Result<
        (),
        DispatchError,
    >)
        ensures
            done == outcome(
                dispatch_result(old(self)@, origin, CallView::AddPublicKey { key: key@ }),
            ),
            final(self)@ == state_after(
                old(self)@,
                dispatch_result(old(self)@, origin, CallView::AddPublicKey { key: key@ }),
            ),
            final(self)@.consistent(),
    {
        self.dispatch(origin, Call::AddPublicKey { key })
    }

    /// Removes the first public key equal to `key` from the caller's
    /// document. Fails with `PublicKeyNotFound` where there is none.
    pub fn remove_public_key(&mut self, origin: Origin, key: Vec<u8>) -> (done: Result<
        (),
        DispatchError,
    >)
        ensures
            done == outcome(
                dispatch_result(old(self)@, origin, CallView::RemovePublicKey { key: key@ }),
            ),
            final(self)@ == state_after(
                old(self)@,
                dispatch_result(old(self)@, origin, CallView::RemovePublicKey { key: key@ }),
            ),
            final(self)@.consistent(),
    {
        self.dispatch(origin, Call::RemovePublicKey { key })
    }

    /// Appends `service` to the services of the caller's document. Fails
    /// with `TooManyServices` where the document is full.
    pub fn add_service(&mut self, origin: Origin, service: Vec<u8>) -> (done: Result<
        (),
        DispatchError,
    >)
        ensures
            done == outcome(
                dispatch_result(old(self)@, origin, CallView::AddService { service: service@ }),
            ),
            final(self)@ == state_after(
                old(self)@,
                dispatch_result(old(self)@, origin, CallView::AddService { service: service@ }),
            ),
            final(self)@.consistent(),
    {
        self.dispatch(origin, Call::AddService { service })
    }

    /// Removes the first service equal to `service` from the caller's
    /// document. Fails with `ServiceNotFound` where there is none.
    pub fn remove_service(&mut self, origin: Origin, service: Vec<u8>) -> (done: Result<
        (),
        DispatchError,
    >)
        ensures
            done == outcome(
                dispatch_result(
                    old(self)@,
                    origin,
                    CallView::RemoveService { service: service@ },
                ),
            ),
            final(self)@ == state_after(
                old(self)@,
                dispatch_result(
                    old(self)@,
                    origin,
                    CallView::RemoveService { service: service@ },
                ),
            ),
            final(self)@.consistent(),
    {
        self.dispatch(origin, Call::RemoveService { service })
    }
}

impl Clone for Registry {
    /// A copy of the registry in its current state.
    fn clone(&self) -> (copy: Self)
        ensures
            copy@ == self@,
    {
        let mut events: Vec<Event> = Vec::with_capacity(self.events.len());
        let mut i: usize = 0;
        while i < self.events.len()
            invariant
                0 <= i <= self.events@.len(),
                events@.len() == i,
                forall|j: int| 0 <= j < i ==> events@[j]@ == self.events@[j]@,
            decreases self.events@.len() - i,
        {
            events.push(self.events[i].clone());
            i += 1;
        }
        assert(event_views(events@) =~= event_views(self.events@));
        Registry { store: self.store.clone(), events, block_number: self.block_number }
    }
}

} // verus!
