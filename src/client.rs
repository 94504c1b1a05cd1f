use crate::fingerprint::{fingerprint, fingerprint_spec};
use crate::structs::{apply_spec, empty_state, SimpleDiffTrait};
use crate::{ClientUpdate, ClientUpdateRequest, UpdateError};
use std::collections::BTreeMap;
use vstd::prelude::*;

verus! {

/// A replica of the server's state, under its own identifier.
pub struct Client {
    pub id: u64,
    pub state: BTreeMap<u64, String>,
}

impl Client {
    /// A client with the given identifier and an empty state.
    pub fn with_id(id: u64) -> (r: Self)
        ensures
            r.id == id,
            r.state@ == empty_state(),
    {
        Client { id, state: BTreeMap::new() }
    }

    /// The identifier this client goes by on the server.
    pub fn id(&self) -> (r: u64)
        ensures
            r == self.id,
    {
        self.id
    }

    fn calculate_hash(&self) -> (r: u64)
        ensures
            r == fingerprint_spec(self.state@),
    {
        fingerprint(&self.state)
    }

    /// A request carrying this client's identifier and the fingerprint of its state.
    pub fn update_request(&self) -> (r: ClientUpdateRequest)
        ensures
            r.id == self.id,
            r.current_hash == fingerprint_spec(self.state@),
    {
        ClientUpdateRequest { id: self.id, current_hash: self.calculate_hash() }
    }

    /// Applies an update from the server and checks the resulting fingerprint.
    /// A complete update replaces the state; an incremental one is applied
    /// only if the state's fingerprint is the one it was built against, and
    /// otherwise leaves the state as it was.
    pub fn apply_update(&mut self, client_update: ClientUpdate) -> (r: Result<(), UpdateError>)
        ensures
            final(self).id == old(self).id,
            match client_update {
                ClientUpdate::Complete { complete_diff, newhash } => {
                    &&& final(self).state@ == apply_spec(
                        empty_state(),
                        complete_diff.altered@,
                        complete_diff.removed@,
                    )
                    &&& r == if fingerprint_spec(final(self).state@) == newhash {
                        Ok::<(), UpdateError>(())
                    } else {
                        Err(UpdateError::HashResultDiff)
                    }
                },
                ClientUpdate::Diff { diff, newhash, oldhash } => {
                    if fingerprint_spec(old(self).state@) != oldhash {
                        &&& r == Err::<(), UpdateError>(UpdateError::InvalidUpdateStartState)
                        &&& final(self).state@ == old(self).state@
                    } else {
                        &&& final(self).state@ == apply_spec(
                            old(self).state@,
                            diff.altered@,
                            diff.removed@,
                        )
                        &&& r == if fingerprint_spec(final(self).state@) == newhash {
                            Ok::<(), UpdateError>(())
                        } else {
                            Err(UpdateError::HashResultDiff)
                        }
                    }
                },
            },
            r is Ok ==> fingerprint_spec(final(self).state@) == client_update.new_hash(),
    {
        let currenthash = self.calculate_hash();
        match client_update {
            ClientUpdate::Complete { complete_diff, newhash } => {
                self.state = BTreeMap::new();
                complete_diff.apply_to(&mut self.state);
                if newhash == self.calculate_hash() {
                    Ok(())
                } else {
                    Err(UpdateError::HashResultDiff)
                }
            },
            ClientUpdate::Diff { diff, newhash, oldhash } => {
                if currenthash == oldhash {
                    diff.apply_to(&mut self.state);
                    if newhash == self.calculate_hash() {
                        Ok(())
                    } else {
                        Err(UpdateError::HashResultDiff)
                    }
                } else {
                    Err(UpdateError::InvalidUpdateStartState)
                }
            },
        }
    }
}

} // verus!
