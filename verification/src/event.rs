//! What the registry reports of each successful operation.

use vstd::prelude::*;
use crate::bytes::copy_bytes;
use crate::primitives::{AccountId, ChainId};

verus! {

/// One entry of the event log. `did` is the account whose document changed.
#[derive(Debug, PartialEq, Eq)]
pub enum Event {
    DidDocumentCreated { did: AccountId, controller: AccountId },
    ChainLinked { did: AccountId, chain_id: ChainId, address: Vec<u8> },
    ChainUnlinked { did: AccountId, chain_id: ChainId },
    PublicKeyAdded { did: AccountId, key: Vec<u8> },
    PublicKeyRemoved { did: AccountId, key: Vec<u8> },
    ServiceAdded { did: AccountId, service: Vec<u8> },
    ServiceRemoved { did: AccountId, service: Vec<u8> },
}

/// An event with its byte strings taken by their contents.
pub enum EventView {
    DidDocumentCreated { did: AccountId, controller: AccountId },
    ChainLinked { did: AccountId, chain_id: ChainId, address: Seq<u8> },
    ChainUnlinked { did: AccountId, chain_id: ChainId },
    PublicKeyAdded { did: AccountId, key: Seq<u8> },
    PublicKeyRemoved { did: AccountId, key: Seq<u8> },
    ServiceAdded { did: AccountId, service: Seq<u8> },
    ServiceRemoved { did: AccountId, service: Seq<u8> },
}

impl View for Event {
    type V = EventView;

    open spec fn view(&self) -> EventView {
        match *self {
            Event::DidDocumentCreated { did, controller } => EventView::DidDocumentCreated {
                did,
                controller,
            },
            Event::ChainLinked { did, chain_id, address } => EventView::ChainLinked {
                did,
                chain_id,
                address: address@,
            },
            Event::ChainUnlinked { did, chain_id } => EventView::ChainUnlinked { did, chain_id },
            Event::PublicKeyAdded { did, key } => EventView::PublicKeyAdded { did, key: key@ },
            Event::PublicKeyRemoved { did, key } => EventView::PublicKeyRemoved {
                did,
                key: key@,
            },
            Event::ServiceAdded { did, service } => EventView::ServiceAdded {
                did,
                service: service@,
            },
            Event::ServiceRemoved { did, service } => EventView::ServiceRemoved {
                did,
                service: service@,
            },
        }
    }
}

impl Clone for Event {
    /// A copy of the event.
    fn clone(&self) -> (copy: Self)
        ensures
            copy@ == self@,
    {
        match self {
            Event::DidDocumentCreated { did, controller } => Event::DidDocumentCreated {
                did: *did,
                controller: *controller,
            },
            Event::ChainLinked { did, chain_id, address } => Event::ChainLinked {
                did: *did,
                chain_id: *chain_id,
                address: copy_bytes(address),
            },
            Event::ChainUnlinked { did, chain_id } => Event::ChainUnlinked {
                did: *did,
                chain_id: *chain_id,
            },
            Event::PublicKeyAdded { did, key } => Event::PublicKeyAdded {
                did: *did,
                key: copy_bytes(key),
            },
            Event::PublicKeyRemoved { did, key } => Event::PublicKeyRemoved {
                did: *did,
                key: copy_bytes(key),
            },
            Event::ServiceAdded { did, service } => Event::ServiceAdded {
                did: *did,
                service: copy_bytes(service),
            },
            Event::ServiceRemoved { did, service } => Event::ServiceRemoved {
                did: *did,
                service: copy_bytes(service),
            },
        }
    }
}

/// The contents of an event log.
pub open spec fn event_views(events: Seq<Event>) -> Seq<EventView> {
    Seq::new(events.len(), |i: int| events[i]@)
}

} // verus!
