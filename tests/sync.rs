use delta_sync::client::Client;
use delta_sync::fingerprint::fingerprint;
use delta_sync::server::Server;
use delta_sync::structs::SimpleDiffTrait;
use delta_sync::{ClientUpdate, ClientUpdateRequest, ConcMap, SimpleDiff, UpdateError};
use std::collections::{BTreeMap, BTreeSet};

fn state(entries: &[(u64, &str)]) -> BTreeMap<u64, String> {
    entries.iter().map(|(k, v)| (*k, v.to_string())).collect()
}

fn keys(ks: &[u64]) -> BTreeSet<u64> {
    ks.iter().copied().collect()
}

#[test]
fn update_works() {
    let mut client = Client::with_id(1337);
    let mut server = Server::default();
    for i in 0..100u64 {
        server.get_state_mut().insert(i, format!("anchor {}", i * 7));
    }

    let request = client.update_request();
    let client_update = server.get_client_diff(request);
    assert!(client.apply_update(client_update).is_ok());
    assert_eq!(&client.state, server.get_state());

    for i in 0..50u64 {
        server.get_state_mut().insert(i, format!("moved {}", i * 3));
    }

    let request = client.update_request();
    let client_update = server.get_client_diff(request);
    match &client_update {
        ClientUpdate::Complete { .. } => panic!("Should not be a complete update!"),
        ClientUpdate::Diff { diff, .. } => {
            assert_eq!(diff.altered.len(), 50);
            assert!(diff.removed.is_empty());
        }
    }
    let res = client.apply_update(client_update);
    assert!(res.is_ok());
    assert_eq!(&client.state, server.get_state());
}

#[test]
fn scenario_first_contact_gets_complete() {
    let mut server = Server::new(state(&[(1, "A"), (2, "B")]));
    let h0 = fingerprint(server.get_state());
    let mut client = Client::with_id(7);
    let update = server.get_client_diff(ClientUpdateRequest { id: 7, current_hash: 0 });
    match &update {
        ClientUpdate::Complete { complete_diff, newhash } => {
            assert_eq!(complete_diff.altered, state(&[(1, "A"), (2, "B")]));
            assert!(complete_diff.removed.is_empty());
            assert_eq!(*newhash, h0);
        }
        ClientUpdate::Diff { .. } => panic!("expected a complete update"),
    }
    assert_eq!(client.apply_update(update), Ok(()));
    assert_eq!(client.state, state(&[(1, "A"), (2, "B")]));
    assert_eq!(fingerprint(&client.state), h0);
}

#[test]
fn scenario_second_contact_gets_diff() {
    let mut server = Server::new(state(&[(1, "A"), (2, "B")]));
    let h0 = fingerprint(server.get_state());
    let mut client = Client::with_id(7);
    let first = server.get_client_diff(ClientUpdateRequest { id: 7, current_hash: 0 });
    assert_eq!(client.apply_update(first), Ok(()));

    server.get_state_mut().remove(&2);
    server.get_state_mut().insert(3, "C".to_string());
    let h1 = fingerprint(server.get_state());
    assert_ne!(h0, h1);

    let request = client.update_request();
    assert_eq!(request.current_hash, h0);
    let update = server.get_client_diff(request);
    match &update {
        ClientUpdate::Diff { diff, newhash, oldhash } => {
            assert_eq!(diff.altered, state(&[(3, "C")]));
            assert_eq!(diff.removed, keys(&[2]));
            assert_eq!(*newhash, h1);
            assert_eq!(*oldhash, h0);
        }
        ClientUpdate::Complete { .. } => panic!("expected an incremental update"),
    }
    assert_eq!(client.apply_update(update), Ok(()));
    assert_eq!(client.state, state(&[(1, "A"), (3, "C")]));
    assert_eq!(fingerprint(&client.state), h1);
}

#[test]
fn stale_hash_triggers_resync() {
    let mut server = Server::new(state(&[(1, "A"), (2, "B")]));
    let mut client = Client::with_id(7);
    let first = server.get_client_diff(client.update_request());
    assert_eq!(client.apply_update(first), Ok(()));

    server.get_state_mut().insert(4, "D".to_string());
    let mut restarted = Client::with_id(7);
    let update = server.get_client_diff(restarted.update_request());
    assert!(matches!(update, ClientUpdate::Complete { .. }));
    assert_eq!(restarted.apply_update(update), Ok(()));
    assert_eq!(fingerprint(&restarted.state), fingerprint(server.get_state()));
    assert_eq!(restarted.state, state(&[(1, "A"), (2, "B"), (4, "D")]));
}

#[test]
fn out_of_order_diff_rejected() {
    let mut client = Client::with_id(3);
    client.state = state(&[(1, "A")]);
    let mut diff = SimpleDiff::new();
    diff.altered.insert(2, "B".to_string());
    let wrong_old = fingerprint(&client.state).wrapping_add(1);
    let update = ClientUpdate::Diff { diff, newhash: 0, oldhash: wrong_old };
    assert_eq!(client.apply_update(update), Err(UpdateError::InvalidUpdateStartState));
    assert_eq!(client.state, state(&[(1, "A")]));
}

#[test]
fn wrong_new_hash_is_reported() {
    let mut client = Client::with_id(3);
    let mut diff = SimpleDiff::new();
    diff.altered.insert(2, "B".to_string());
    let right = fingerprint(&state(&[(2, "B")]));
    let update = ClientUpdate::Complete { complete_diff: diff, newhash: right.wrapping_add(1) };
    assert_eq!(client.apply_update(update), Err(UpdateError::HashResultDiff));
    assert_eq!(client.state, state(&[(2, "B")]));

    let start = fingerprint(&client.state);
    let mut patch = SimpleDiff::new();
    patch.removed.insert(2);
    let update = ClientUpdate::Diff { diff: patch, newhash: 5, oldhash: start };
    assert_eq!(client.apply_update(update), Err(UpdateError::HashResultDiff));
    assert!(client.state.is_empty());
}

#[test]
fn unknown_client_always_gets_complete() {
    let mut server = Server::new(state(&[(5, "E")]));
    let hash_of_e = fingerprint(&state(&[(5, "E")]));
    let update = server.get_client_diff(ClientUpdateRequest { id: 9, current_hash: hash_of_e });
    assert!(matches!(update, ClientUpdate::Complete { .. }));
}

#[test]
fn forgotten_client_gets_complete() {
    let mut server = Server::new(state(&[(5, "E")]));
    let mut client = Client::with_id(9);
    let first = server.get_client_diff(client.update_request());
    assert_eq!(client.apply_update(first), Ok(()));
    let again = server.get_client_diff(client.update_request());
    assert!(matches!(again, ClientUpdate::Diff { .. }));
    server.forget_client(9);
    let after = server.get_client_diff(client.update_request());
    assert!(matches!(after, ClientUpdate::Complete { .. }));
    assert_eq!(client.id(), 9);
}

#[test]
fn generate_then_apply_gives_target() {
    let a = state(&[(1, "A"), (2, "B"), (3, "C")]);
    let b = state(&[(1, "A"), (2, "b"), (4, "D")]);
    let d = SimpleDiff::generate(&a, &b);
    assert_eq!(d.altered, state(&[(2, "b"), (4, "D")]));
    assert_eq!(d.removed, keys(&[3]));
    let mut c = a.clone();
    d.apply_to(&mut c);
    assert_eq!(c, b);
}

#[test]
fn generate_of_equal_states_is_empty() {
    let a = state(&[(1, "A"), (2, "B")]);
    let d = SimpleDiff::generate(&a, &a.clone());
    assert!(d.altered.is_empty());
    assert!(d.removed.is_empty());
    let e = SimpleDiff::generate(&BTreeMap::new(), &BTreeMap::new());
    assert!(e.altered.is_empty() && e.removed.is_empty());
}

#[test]
fn fingerprint_depends_on_contents() {
    let a = state(&[(1, "A"), (2, "B")]);
    let b = state(&[(1, "A"), (2, "C")]);
    let c = state(&[(1, "A")]);
    assert_eq!(fingerprint(&a), fingerprint(&a.clone()));
    assert_ne!(fingerprint(&a), fingerprint(&b));
    assert_ne!(fingerprint(&a), fingerprint(&c));
    assert_ne!(fingerprint(&c), fingerprint(&BTreeMap::new()));
}

fn conc(entries: &[(u64, &str)]) -> ConcMap {
    let m = ConcMap::identity();
    for (k, v) in entries {
        m.0.insert(*k, v.to_string());
    }
    m
}

#[test]
fn concurrent_state_orders_entries() {
    let m = conc(&[(30, "z"), (10, "x"), (20, "y")]);
    let b = m.as_btree();
    assert_eq!(b, state(&[(10, "x"), (20, "y"), (30, "z")]));
    assert_eq!(m.fingerprint(), fingerprint(&b));
    assert!(ConcMap::identity().as_btree().is_empty());
}

#[test]
fn concurrent_state_diff_and_apply() {
    let a = conc(&[(1, "A"), (2, "B")]);
    let b = conc(&[(1, "A"), (3, "C")]);
    let d = a.diff(&b);
    assert_eq!(d.altered, state(&[(3, "C")]));
    assert_eq!(d.removed, keys(&[2]));
    let mut c = conc(&[(1, "A"), (2, "B")]);
    c.apply(&d);
    assert_eq!(c.as_btree(), b.as_btree());
    assert_eq!(c.fingerprint(), b.fingerprint());
}

#[test]
fn defaults_are_empty() {
    let d = SimpleDiff::default();
    assert!(d.altered.is_empty() && d.removed.is_empty());
    assert!(ConcMap::default().as_btree().is_empty());
    let server = Server::default();
    assert!(server.get_state().is_empty());
    assert_eq!(
        Client::with_id(2).update_request(),
        ClientUpdateRequest { id: 2, current_hash: fingerprint(&BTreeMap::new()) }
    );
}
