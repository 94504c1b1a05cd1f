use crate::fingerprint::{fingerprint, fingerprint_spec};
use crate::shared_map::{
    registry_contents, registry_get, registry_insert, registry_new, registry_remove,
};
use crate::structs::{
    altered_spec, apply_spec, empty_state, lemma_apply_generate_inverse, removed_spec, state_view,
    SimpleDiff, SimpleDiffTrait,
};
use crate::{ClientUpdate, ClientUpdateRequest};
use dashmap::DashMap;
use std::collections::BTreeMap;
use vstd::prelude::*;

verus! {

/// What the server believes a client holds: the state last sent to it and
/// that state's fingerprint.
#[derive(Clone, Debug)]
pub struct ClientState {
    pub state: BTreeMap<u64, String>,
    pub hash: u64,
}

/// The authoritative state and, for each client it has answered, what that
/// client was last brought to.
pub struct Server {
    pub state: BTreeMap<u64, String>,
    client_states: DashMap<u64, ClientState>,
}

impl Default for Server {
    fn default() -> (r: Self)
        ensures
            r.current_state()@ == empty_state(),
            r.registry().dom() == Set::<u64>::empty(),
    {
        Server::new(BTreeMap::new())
    }
}

impl Server {
    /// The authoritative state.
    pub closed spec fn current_state(&self) -> BTreeMap<u64, String> {
        self.state
    }

    /// What the server has recorded, by client identifier.
    pub closed spec fn registry(&self) -> Map<u64, ClientState> {
        registry_contents(self.client_states)
    }

    /// A server holding `data`, that knows no client yet.
    pub fn new(data: BTreeMap<u64, String>) -> (r: Self)
        ensures
            r.current_state() == data,
            r.registry().dom() == Set::<u64>::empty(),
    {
        Server { state: data, client_states: registry_new() }
    }

    /// Forgets what was recorded for client `id`; its next request gets a
    /// complete update.
    pub fn forget_client(&mut self, id: u64)
        ensures
            final(self).current_state() == old(self).current_state(),
            final(self).registry() == old(self).registry().remove(id),
    {
        registry_remove(&mut self.client_states, id);
    }

    /// The authoritative state, to read.
    pub fn get_state(&self) -> (r: &BTreeMap<u64, String>)
        ensures
            *r == self.current_state(),
    {
        &self.state
    }

    /// The authoritative state, to change; what the server has recorded of its
    /// clients stays as it was.
    pub fn get_state_mut(&mut self) -> (r: &mut BTreeMap<u64, String>)
        ensures
            *r == old(self).current_state(),
            final(self).current_state() == *final(r),
            final(self).registry() == old(self).registry(),
    {
        &mut self.state
    }

    fn calculate_hash(&self) -> (r: u64)
        ensures
            r == fingerprint_spec(self.current_state()@),
    {
        fingerprint(&self.state)
    }

    /// The update for the client that sent `request`. An unknown client, or one
    /// whose reported fingerprint is not the one recorded for it, gets the
    /// patch from the empty state; any other gets the patch from the state
    /// recorded for it. Either way the client is then recorded as holding the
    /// current state. The exclusive borrow makes the fingerprint, the patch and
    /// the new record all come from one and the same state.
    pub fn get_client_diff(&mut self, request: ClientUpdateRequest) -> (r: ClientUpdate)
        ensures
            final(self).current_state() == old(self).current_state(),
            ({
                let fp = fingerprint_spec(old(self).current_state()@);
                let reg = old(self).registry();
                if reg.contains_key(request.id) && reg[request.id].hash == request.current_hash {
                    &&& r matches ClientUpdate::Diff { diff, newhash, oldhash }
                    &&& diff.is_diff_of(reg[request.id].state@, old(self).current_state()@)
                    &&& newhash == fp
                    &&& oldhash == request.current_hash
                } else {
                    &&& r matches ClientUpdate::Complete { complete_diff, newhash }
                    &&& complete_diff.is_diff_of(empty_state(), old(self).current_state()@)
                    &&& newhash == fp
                }
            }),
            final(self).registry().dom() == old(self).registry().dom().insert(request.id),
            forall|id: u64| #[trigger]
                final(self).registry().contains_key(id) && id != request.id
                    ==> final(self).registry()[id] == old(self).registry()[id],
            final(self).registry()[request.id].hash == fingerprint_spec(old(self).current_state()@),
            final(self).registry()[request.id].state@ == old(self).current_state()@,
    {
        let serverhash = self.calculate_hash();
        let upd = match registry_get(&self.client_states, request.id) {
            Some(clientstate) => {
                if clientstate.hash == request.current_hash {
                    ClientUpdate::Diff {
                        diff: SimpleDiff::generate(&clientstate.state, &self.state),
                        newhash: serverhash,
                        oldhash: request.current_hash,
                    }
                } else {
                    let new: BTreeMap<u64, String> = BTreeMap::new();
                    ClientUpdate::Complete {
                        complete_diff: SimpleDiff::generate(&new, &self.state),
                        newhash: serverhash,
                    }
                }
            },
            None => {
                let new: BTreeMap<u64, String> = BTreeMap::new();
                ClientUpdate::Complete {
                    complete_diff: SimpleDiff::generate(&new, &self.state),
                    newhash: serverhash,
                }
            },
        };
        let snapshot = ClientState { state: self.state.clone(), hash: serverhash };
        registry_insert(&mut self.client_states, request.id, snapshot);
        upd
    }
}

} // verus!

verus! {

/// A client that applies the complete update built for `server_state`, from
/// whatever it held, ends with the server's fingerprint.
pub proof fn lemma_complete_update_synchronises(server_state: Map<u64, String>)
    ensures
        fingerprint_spec(
            apply_spec(
                empty_state(),
                altered_spec(empty_state(), server_state),
                removed_spec(empty_state(), server_state),
            ),
        ) == fingerprint_spec(server_state),
{
    lemma_apply_generate_inverse(empty_state(), server_state);
}

/// A client that holds what the server recorded for it and applies the
/// incremental update built from that record ends with the server's
/// fingerprint.
pub proof fn lemma_diff_update_synchronises(
    client_state: Map<u64, String>,
    recorded: Map<u64, String>,
    server_state: Map<u64, String>,
)
    requires
        state_view(client_state) == state_view(recorded),
    ensures
        fingerprint_spec(
            apply_spec(
                client_state,
                altered_spec(recorded, server_state),
                removed_spec(recorded, server_state),
            ),
        ) == fingerprint_spec(server_state),
{
    lemma_apply_generate_inverse(recorded, server_state);
    let r1 = apply_spec(
        client_state,
        altered_spec(recorded, server_state),
        removed_spec(recorded, server_state),
    );
    let r2 = apply_spec(
        recorded,
        altered_spec(recorded, server_state),
        removed_spec(recorded, server_state),
    );
    assert(client_state.dom() =~= state_view(client_state).dom());
    assert(recorded.dom() =~= state_view(recorded).dom());
    assert forall|k: u64| client_state.contains_key(k) implies client_state[k]@ == recorded[k]@ by {
        assert(state_view(client_state)[k] == state_view(recorded)[k]);
    }
    assert(state_view(r1) =~= state_view(r2));
}

} // verus!
