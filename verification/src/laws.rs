//! What holds of the registry whatever its state and whoever calls: each law
//! is proved of the state transitions that the entry points carry out.

use vstd::prelude::*;
use crate::bounded_list::{first_index, lemma_first_index, lemma_first_index_exists, without_first};
use crate::document::{apply_call, event_of, CallView, DocumentView};
use crate::error::{DispatchError, Error};
use crate::event::EventView;
use crate::origin::Origin;
use crate::primitives::{AccountId, ChainId, Config};
use crate::primitives::BlockNumber;
use crate::registry::{
    at_height, create_did_result, dispatch_result, outcome, state_after, RegistryView,
};
use crate::bounded_map::lemma_as_map_len;
use crate::record::{is_record_of, record_fits, RecordView};
use crate::store::{mutate_result, restore_result};

verus! {

/// A successful creation leaves the caller with a document that the caller
/// controls, that is stamped with the current height and whose three
/// collections are empty.
pub proof fn law_created_document_is_empty(s: RegistryView, who: AccountId)
    requires
        create_did_result(s, Origin::Signed(who)) is Ok,
    ensures
        ({
            let t = state_after(s, create_did_result(s, Origin::Signed(who)));
            &&& t.documents.contains_key(who)
            &&& t.documents[who].controller == who
            &&& t.documents[who].linked_chains == Map::<ChainId, Seq<u8>>::empty()
            &&& t.documents[who].public_keys == Seq::<Seq<u8>>::empty()
            &&& t.documents[who].services == Seq::<Seq<u8>>::empty()
            &&& t.documents[who].created_at == s.block_number
        }),
{
}

/// An account without a document can always create one, and an account with
/// a document never can: the request fails with `DidDocumentAlreadyExists`
/// and the state stays as it was.
pub proof fn law_one_document_per_account(s: RegistryView, who: AccountId)
    ensures
        !s.documents.contains_key(who) ==> create_did_result(s, Origin::Signed(who)) is Ok,
        s.documents.contains_key(who) ==> {
            &&& outcome(create_did_result(s, Origin::Signed(who))) == Err::<(), DispatchError>(
                DispatchError::Module(Error::DidDocumentAlreadyExists),
            )
            &&& state_after(s, create_did_result(s, Origin::Signed(who))) == s
        },
{
}

/// Creating a document twice in a row fails the second time and leaves the
/// state as the first creation made it.
pub proof fn law_second_creation_fails(s: RegistryView, who: AccountId)
    requires
        create_did_result(s, Origin::Signed(who)) is Ok,
    ensures
        ({
            let t = state_after(s, create_did_result(s, Origin::Signed(who)));
            &&& outcome(create_did_result(t, Origin::Signed(who))) == Err::<(), DispatchError>(
                DispatchError::Module(Error::DidDocumentAlreadyExists),
            )
            &&& state_after(t, create_did_result(t, Origin::Signed(who))) == t
        }),
{
}

/// An unsigned request fails with `BadOrigin`, whatever it asks for, and
/// changes nothing: it creates no document and reports no event.
pub proof fn law_unsigned_is_refused(s: RegistryView, call: CallView)
    ensures
        outcome(create_did_result(s, Origin::Unsigned)) == Err::<(), DispatchError>(
            DispatchError::BadOrigin,
        ),
        state_after(s, create_did_result(s, Origin::Unsigned)) == s,
        outcome(dispatch_result(s, Origin::Unsigned, call)) == Err::<(), DispatchError>(
            DispatchError::BadOrigin,
        ),
        state_after(s, dispatch_result(s, Origin::Unsigned, call)) == s,
{
}

/// Whatever an account without a document asks of its document, the request
/// fails with `DidDocumentNotFound` and changes nothing.
pub proof fn law_no_document_not_found(s: RegistryView, who: AccountId, call: CallView)
    requires
        !s.documents.contains_key(who),
    ensures
        outcome(dispatch_result(s, Origin::Signed(who), call)) == Err::<(), DispatchError>(
            DispatchError::Module(Error::DidDocumentNotFound),
        ),
        state_after(s, dispatch_result(s, Origin::Signed(who), call)) == s,
{
}

/// A document that links as many chains as it may refuses every further
/// link with `TooManyLinkedChains`, also of a chain that it links already,
/// and stays as it was.
pub proof fn law_full_chains_refuse(
    s: RegistryView,
    who: AccountId,
    chain_id: ChainId,
    address: Seq<u8>,
)
    requires
        s.consistent(),
        s.documents.contains_key(who),
        s.documents[who].linked_chains.len() == s.config.max_linked_chains,
    ensures
        ({
            let r = dispatch_result(
                s,
                Origin::Signed(who),
                CallView::LinkChain { chain_id, address },
            );
            &&& outcome(r) == Err::<(), DispatchError>(
                DispatchError::Module(Error::TooManyLinkedChains),
            )
            &&& state_after(s, r) == s
        }),
{
}

/// A document that holds as many public keys as it may refuses every
/// further key with `TooManyPublicKeys` and stays as it was.
pub proof fn law_full_keys_refuse(s: RegistryView, who: AccountId, key: Seq<u8>)
    requires
        s.consistent(),
        s.documents.contains_key(who),
        s.documents[who].public_keys.len() == s.config.max_public_keys,
    ensures
        ({
            let r = dispatch_result(s, Origin::Signed(who), CallView::AddPublicKey { key });
            &&& outcome(r) == Err::<(), DispatchError>(
                DispatchError::Module(Error::TooManyPublicKeys),
            )
            &&& state_after(s, r) == s
        }),
{
}

/// A document that holds as many services as it may refuses every further
/// service with `TooManyServices` and stays as it was.
pub proof fn law_full_services_refuse(s: RegistryView, who: AccountId, service: Seq<u8>)
    requires
        s.consistent(),
        s.documents.contains_key(who),
        s.documents[who].services.len() == s.config.max_services,
    ensures
        ({
            let r = dispatch_result(s, Origin::Signed(who), CallView::AddService { service });
            &&& outcome(r) == Err::<(), DispatchError>(
                DispatchError::Module(Error::TooManyServices),
            )
            &&& state_after(s, r) == s
        }),
{
}

/// Below the limit a new entry is always accepted: a chain that is not yet
/// linked, and any key or service.
pub proof fn law_room_is_granted(s: RegistryView, who: AccountId, call: CallView)
    requires
        s.consistent(),
        s.documents.contains_key(who),
        match call {
            CallView::LinkChain { chain_id, address } => s.documents[who].linked_chains.len()
                < s.config.max_linked_chains && !s.documents[who].linked_chains.contains_key(
                chain_id,
            ),
            CallView::AddPublicKey { key } => s.documents[who].public_keys.len()
                < s.config.max_public_keys,
            CallView::AddService { service } => s.documents[who].services.len()
                < s.config.max_services,
            _ => false,
        },
    ensures
        dispatch_result(s, Origin::Signed(who), call) is Ok,
{
}

/// Linking a chain and unlinking it at once succeeds and restores every
/// document to what it was before the link. What remains are the two events
/// that report the link and the unlink.
pub proof fn law_link_then_unlink_restores(
    s: RegistryView,
    who: AccountId,
    chain_id: ChainId,
    address: Seq<u8>,
)
    requires
        dispatch_result(s, Origin::Signed(who), CallView::LinkChain { chain_id, address }) is Ok,
    ensures
        ({
            let t = state_after(
                s,
                dispatch_result(s, Origin::Signed(who), CallView::LinkChain { chain_id, address }),
            );
            let r = dispatch_result(t, Origin::Signed(who), CallView::UnlinkChain { chain_id });
            &&& r is Ok
            &&& state_after(t, r).documents == s.documents
            &&& state_after(t, r).config == s.config
            &&& state_after(t, r).block_number == s.block_number
            &&& state_after(t, r).events == s.events.push(
                EventView::ChainLinked { did: who, chain_id, address },
            ).push(EventView::ChainUnlinked { did: who, chain_id })
        }),
{
    let doc = s.documents[who];
    let t = state_after(
        s,
        dispatch_result(s, Origin::Signed(who), CallView::LinkChain { chain_id, address }),
    );
    let r = dispatch_result(t, Origin::Signed(who), CallView::UnlinkChain { chain_id });
    assert(t.documents[who].linked_chains == doc.linked_chains.insert(chain_id, address));
    assert(doc.linked_chains.insert(chain_id, address).remove(chain_id) =~= doc.linked_chains);
    assert(state_after(t, r).documents =~= s.documents);
}

/// Appending a public key and removing it at once restores the list where
/// the key was not in it before; otherwise the earlier occurrence goes, and
/// the list holds the same keys as before with that one moved to the end.
pub proof fn law_add_then_remove_key(s: RegistryView, who: AccountId, key: Seq<u8>)
    requires
        dispatch_result(s, Origin::Signed(who), CallView::AddPublicKey { key }) is Ok,
    ensures
        ({
            let t = state_after(
                s,
                dispatch_result(s, Origin::Signed(who), CallView::AddPublicKey { key }),
            );
            let r = dispatch_result(t, Origin::Signed(who), CallView::RemovePublicKey { key });
            &&& r is Ok
            &&& !s.documents[who].public_keys.contains(key) ==> state_after(t, r).documents
                == s.documents
            &&& s.documents[who].public_keys.contains(key) ==> state_after(
                t,
                r,
            ).documents[who].public_keys == without_first(s.documents[who].public_keys, key).push(
                key,
            )
        }),
{
    let keys = s.documents[who].public_keys;
    let pushed = keys.push(key);
    let t = state_after(
        s,
        dispatch_result(s, Origin::Signed(who), CallView::AddPublicKey { key }),
    );
    let r = dispatch_result(t, Origin::Signed(who), CallView::RemovePublicKey { key });
    assert(t.documents[who].public_keys == pushed);
    assert(pushed[keys.len() as int] == key);
    assert(pushed.contains(key));
    if keys.contains(key) {
        let i = first_index(keys, key);
        lemma_first_index_exists(keys, key);
        lemma_first_index(pushed, key, i);
        assert(pushed.remove(i) =~= keys.remove(i).push(key));
    } else {
        lemma_first_index(pushed, key, keys.len() as int);
        assert(pushed.remove(keys.len() as int) =~= keys);
        assert(state_after(t, r).documents =~= s.documents);
    }
}

/// Nobody but its controller changes a document: a call by another account
/// fails with `NotController`, whatever it asks for, and the table stays as
/// it was.
pub proof fn law_only_controller_mutates(
    docs: Map<AccountId, DocumentView>,
    limits: Config,
    did: AccountId,
    caller: AccountId,
    call: CallView,
)
    requires
        docs.contains_key(did),
        docs[did].controller == did,
        caller != did,
    ensures
        apply_call(docs[did], limits, caller, call) == Err::<DocumentView, Error>(
            Error::NotController,
        ),
        mutate_result(docs, limits, did, caller, call) == Err::<
            Map<AccountId, DocumentView>,
            Error,
        >(Error::NotController),
{
}

/// A request changes at most the caller's own document, and never who
/// controls it or when it was created.
pub proof fn law_others_untouched(s: RegistryView, origin: Origin, call: CallView, did: AccountId)
    requires
        s.documents.contains_key(did),
    ensures
        ({
            let t = state_after(s, dispatch_result(s, origin, call));
            let u = state_after(s, create_did_result(s, origin));
            &&& t.documents.dom() == s.documents.dom()
            &&& t.documents[did].controller == s.documents[did].controller
            &&& t.documents[did].created_at == s.documents[did].created_at
            &&& origin != Origin::Signed(did) ==> t.documents[did] == s.documents[did]
            &&& u.documents.contains_key(did)
            &&& u.documents[did] == s.documents[did]
        }),
{
    let t = state_after(s, dispatch_result(s, origin, call));
    assert(t.documents.dom() =~= s.documents.dom());
}

/// The limits and the height never change by a request, a successful request
/// reports exactly one event, and a refused one reports none.
pub proof fn law_one_event_per_success(s: RegistryView, origin: Origin, call: CallView)
    ensures
        ({
            let r = dispatch_result(s, origin, call);
            let t = state_after(s, r);
            &&& t.config == s.config
            &&& t.block_number == s.block_number
            &&& r is Ok ==> origin is Signed && t.events == s.events.push(
                event_of(origin->Signed_0, call),
            )
            &&& r is Err ==> t == s
        }),
        ({
            let r = create_did_result(s, origin);
            let t = state_after(s, r);
            &&& t.config == s.config
            &&& t.block_number == s.block_number
            &&& r is Ok ==> origin is Signed && t.events == s.events.push(
                EventView::DidDocumentCreated {
                    did: origin->Signed_0,
                    controller: origin->Signed_0,
                },
            )
            &&& r is Err ==> t == s
        }),
{
}

/// The height never goes back, whatever the host reports and whatever is
/// requested, and a new document is stamped with the height of its creation.
pub proof fn law_height_never_goes_back(
    s: RegistryView,
    height: BlockNumber,
    origin: Origin,
    call: CallView,
)
    ensures
        at_height(s, height).block_number >= s.block_number,
        height >= s.block_number ==> at_height(s, height).block_number == height,
        at_height(s, height).documents == s.documents,
        at_height(s, height).events == s.events,
        at_height(s, height).config == s.config,
        state_after(s, create_did_result(s, origin)).block_number == s.block_number,
        state_after(s, dispatch_result(s, origin, call)).block_number == s.block_number,
{
}

/// What is persisted of a document can be restored: the layout of a document
/// within the limits fits them, and restoring it into a table that lacks the
/// document's controller puts the same document there.
pub proof fn law_persisted_document_restores(
    docs: Map<AccountId, DocumentView>,
    limits: Config,
    doc: DocumentView,
    record: RecordView,
)
    requires
        doc.within(limits),
        is_record_of(record, doc),
        !docs.contains_key(doc.controller),
    ensures
        record_fits(record, limits),
        restore_result(docs, limits, record) == Some(docs.insert(doc.controller, doc)),
{
    lemma_as_map_len(record.linked_chains);
}

/// Every request keeps the registry consistent: each document stays stored
/// under its controller, and no collection outgrows its limit.
pub proof fn law_consistency_is_kept(s: RegistryView, origin: Origin, call: CallView)
    requires
        s.consistent(),
    ensures
        state_after(s, dispatch_result(s, origin, call)).consistent(),
        state_after(s, create_did_result(s, origin)).consistent(),
{
    let t = state_after(s, dispatch_result(s, origin, call));
    if dispatch_result(s, origin, call) is Ok {
        let who = origin->Signed_0;
        let doc = s.documents[who];
        assert(s.documents.contains_key(who));
        assert(doc.within(s.config));
        match call {
            CallView::RemovePublicKey { key } => {
                lemma_first_index_exists(doc.public_keys, key);
            },
            CallView::RemoveService { service } => {
                lemma_first_index_exists(doc.services, service);
            },
            CallView::LinkChain { chain_id, address } => {
                assert(t.documents[who].linked_chains.dom().finite());
                assert(t.documents[who].linked_chains.len() <= s.config.max_linked_chains);
            },
            CallView::UnlinkChain { chain_id } => {
                assert(t.documents[who].linked_chains.dom().finite());
                assert(t.documents[who].linked_chains.len() <= s.config.max_linked_chains);
            },
            _ => {},
        }
        assert(t.documents[who].within(s.config));
        assert forall|k: AccountId| #[trigger] t.documents.contains_key(k) implies t.documents[k].controller
            == k && t.documents[k].within(t.config) by {
            if k != who {
                assert(s.documents.contains_key(k));
            }
        }
    }
    let u = state_after(s, create_did_result(s, origin));
    if create_did_result(s, origin) is Ok {
        let who = origin->Signed_0;
        assert(u.documents[who].within(s.config));
        assert forall|k: AccountId| #[trigger] u.documents.contains_key(k) implies u.documents[k].controller
            == k && u.documents[k].within(u.config) by {
            if k != who {
                assert(s.documents.contains_key(k));
            }
        }
    }
}

} // verus!
