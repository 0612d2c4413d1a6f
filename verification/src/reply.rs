//! The broker: what a connection of a world server is answered, and what
//! becomes of the realm it registered when it registers again or closes.

use crate::keys::KeyStorage;
use crate::messages::{ClientOpcodes, ClientOpcodesView, ServerOpcodes, ServerOpcodesView};
use crate::realm_list::{
    after_add, after_remove, first_free_id, ids_in_use, lemma_absent_filter, lemma_first_free_id,
    RealmListImpl, RealmView,
};
use crate::srp::{session_key, srp_session_key};
use vstd::prelude::*;
use wow_srp::server::SrpServer;

verus! {

/// The answer to a request for the session key of `name`.
pub open spec fn session_key_answer(sessions: Map<Seq<char>, SrpServer>, name: Seq<char>) -> ClientOpcodesView {
    ClientOpcodesView::SessionKeyAnswer {
        name,
        session_key: if sessions.dom().contains(name) {
            Some(srp_session_key(sessions[name]))
        } else {
            None
        },
    }
}

/// Answers a request for a session key with the key of the session stored
/// under `name`, or with none if there is no such session.
pub fn session_key_request<S: KeyStorage>(users: &mut S, name: String) -> (r: ClientOpcodes)
    ensures
        final(users).sessions() == old(users).sessions(),
        r@ == session_key_answer(old(users).sessions(), name@),
{
    let session_key = match users.get_key_for_user(name.as_str()) {
        Some(server) => Some(session_key(&server)),
        None => None,
    };
    ClientOpcodes::SessionKeyAnswer { name, session_key }
}

/// The registry without the realm that a connection owns.
pub open spec fn without_owned(realms: Seq<RealmView>, owned: Option<u8>) -> Seq<RealmView> {
    match owned {
        Some(id) => after_remove(realms, id),
        None => realms,
    }
}

/// The registry after a registration by a connection that owns `owned`: the
/// realm it owned gives way to the new one.
pub open spec fn after_register(
    realms: Seq<RealmView>,
    owned: Option<u8>,
    name: Seq<char>,
    address: Seq<char>,
) -> Seq<RealmView> {
    after_add(without_owned(realms, owned), name, address)
}

/// The id that such a registration is answered with, which the connection
/// owns from then on.
pub open spec fn owned_after_register(realms: Seq<RealmView>, owned: Option<u8>) -> Option<u8> {
    first_free_id(ids_in_use(without_owned(realms, owned)))
}

/// Registers a realm for the connection and answers with its id. A connection
/// owns one realm at most: the realm it owned before leaves the registry, and
/// the new one takes the smallest id that is then free.
pub fn register_realm_request(
    realm: &mut RealmListImpl,
    realm_id: &mut Option<u8>,
    name: String,
    address: String,
) -> (r: ClientOpcodes)
    ensures
        final(realm)@ == after_register(old(realm)@, *old(realm_id), name@, address@),
        *final(realm_id) == owned_after_register(old(realm)@, *old(realm_id)),
        r == (ClientOpcodes::RegisterRealmReply { realm_id: *final(realm_id) }),
        forall|id: u8|
            ids_in_use(final(realm)@).contains(id) <==> (*final(realm_id) == Some(id) || (ids_in_use(
                old(realm)@,
            ).contains(id) && *old(realm_id) != Some(id))),
        *final(realm_id) matches Some(id) ==> *old(realm_id) == Some(id) || !ids_in_use(
            old(realm)@,
        ).contains(id),
{
    match *realm_id {
        Some(owned) => realm.remove_realm(owned),
        None => {},
    }
    *realm_id = realm.add_realm(name, address);
    ClientOpcodes::RegisterRealmReply { realm_id: *realm_id }
}

/// Handles one message of a world server and gives the reply to send. A
/// request for a session key leaves the registry and the owned realm as they are.
pub fn handle_reply<S: KeyStorage>(
    message: ServerOpcodes,
    users: &mut S,
    realm: &mut RealmListImpl,
    realm_id: &mut Option<u8>,
) -> (r: ClientOpcodes)
    ensures
        final(users).sessions() == old(users).sessions(),
        match message@ {
            ServerOpcodesView::RequestSessionKey { name } => {
                &&& r@ == session_key_answer(old(users).sessions(), name)
                &&& final(realm)@ == old(realm)@
                &&& *final(realm_id) == *old(realm_id)
            },
            ServerOpcodesView::RegisterRealm { name, address, .. } => {
                &&& final(realm)@ == after_register(old(realm)@, *old(realm_id), name, address)
                &&& *final(realm_id) == owned_after_register(old(realm)@, *old(realm_id))
                &&& r == (ClientOpcodes::RegisterRealmReply { realm_id: *final(realm_id) })
                &&& forall|id: u8|
                    ids_in_use(final(realm)@).contains(id) <==> (*final(realm_id) == Some(id) || (
                    ids_in_use(old(realm)@).contains(id) && *old(realm_id) != Some(id)))
                &&& *final(realm_id) matches Some(id) ==> *old(realm_id) == Some(id) || !ids_in_use(
                    old(realm)@,
                ).contains(id)
            },
        },
{
    match message {
        ServerOpcodes::RequestSessionKey { name } => session_key_request(users, name),
        ServerOpcodes::RegisterRealm { name, address, .. } => register_realm_request(
            realm,
            realm_id,
            name,
            address,
        ),
    }
}

/// The connection has closed, for whatever reason: the realm it owns, if it
/// owns one, leaves the registry, and no other does.
pub fn connection_closed(realm: &mut RealmListImpl, realm_id: Option<u8>)
    ensures
        final(realm)@ == without_owned(old(realm)@, realm_id),
        forall|id: u8|
            ids_in_use(final(realm)@).contains(id) <==> (ids_in_use(old(realm)@).contains(id)
                && realm_id != Some(id)),
{
    match realm_id {
        Some(id) => realm.remove_realm(id),
        None => {},
    }
}

/// The registry and the owned realm of a connection after it has made the
/// registrations `requests` (pairs of name and address), one after the other.
pub open spec fn after_registers(
    realms: Seq<RealmView>,
    owned: Option<u8>,
    requests: Seq<(Seq<char>, Seq<char>)>,
) -> (Seq<RealmView>, Option<u8>)
    decreases requests.len(),
{
    if requests.len() == 0 {
        (realms, owned)
    } else {
        let earlier = after_registers(realms, owned, requests.drop_last());
        (
            after_register(earlier.0, earlier.1, requests.last().0, requests.last().1),
            owned_after_register(earlier.0, earlier.1),
        )
    }
}

/// However often a connection registers, once it has closed the registry is
/// what it was without the realm the connection owned at the start: none of
/// the realms it registered is left, and none of the ids it was answered
/// with is in use.
pub proof fn lemma_closed_connection_frees_realm(
    realms: Seq<RealmView>,
    owned: Option<u8>,
    requests: Seq<(Seq<char>, Seq<char>)>,
)
    ensures
        without_owned(
            after_registers(realms, owned, requests).0,
            after_registers(realms, owned, requests).1,
        ) == without_owned(realms, owned),
        forall|k: int|
            0 <= k < requests.len() ==> match (#[trigger] after_registers(
                realms,
                owned,
                requests.take(k + 1),
            )).1 {
                Some(id) => !ids_in_use(without_owned(realms, owned)).contains(id),
                None => true,
            },
    decreases requests.len(),
{
    let base = without_owned(realms, owned);
    if requests.len() > 0 {
        lemma_closed_connection_frees_realm(realms, owned, requests.drop_last());
        let earlier = after_registers(realms, owned, requests.drop_last());
        lemma_register_then_close(earlier.0, earlier.1, requests.last().0, requests.last().1);
        assert forall|k: int| 0 <= k < requests.len() implies match (#[trigger] after_registers(
            realms,
            owned,
            requests.take(k + 1),
        )).1 {
            Some(id) => !ids_in_use(base).contains(id),
            None => true,
        } by {
            let upto = requests.take(k + 1);
            assert(upto.drop_last() =~= requests.take(k));
            if k < requests.len() - 1 {
                assert(requests.take(k) =~= requests.drop_last().take(k));
                assert(upto =~= requests.drop_last().take(k + 1));
            } else {
                assert(upto =~= requests);
                lemma_first_free_id(ids_in_use(base), None);
            }
        }
    }
}

/// A registration followed by the removal of the realm it made leaves the
/// registry without what the connection owned before.
proof fn lemma_register_then_close(
    realms: Seq<RealmView>,
    owned: Option<u8>,
    name: Seq<char>,
    address: Seq<char>,
)
    ensures
        without_owned(
            after_register(realms, owned, name, address),
            owned_after_register(realms, owned),
        ) == without_owned(realms, owned),
{
    reveal(Seq::filter);
    let base = without_owned(realms, owned);
    lemma_first_free_id(ids_in_use(base), None);
    if let Some(id) = first_free_id(ids_in_use(base)) {
        let added = after_add(base, name, address);
        assert forall|j: int| 0 <= j < base.len() implies base[j].realm_id != id by {
            assert(ids_in_use(base).contains(base[j].realm_id));
        }
        lemma_absent_filter(base, id);
        assert(added.drop_last() =~= base);
        assert(added.last().realm_id == id);
    }
}

} // verus!
