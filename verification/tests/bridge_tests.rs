use zeco::auth::{guest_accepts, host_decision_byte};
use zeco::bridge::{guest_accept_action, host_accept_action, AcceptAction, Bridge, LinkStatus};
use zeco::codec::{decode_session_meta, encode_session_meta};
use zeco::session::remote_session_name;

#[test]
fn links_do_not_cross_talk() {
    let mut b = Bridge::new();
    b.send_metadata();
    let first = b.open_link();
    let second = b.open_link();
    let third = b.open_link();
    b.relay_to_peer(first, &vec![1, 1, 1]);
    b.relay_to_peer(second, &vec![2, 2]);
    b.relay_to_local(third, &vec![3]);
    b.relay_to_peer(first, &vec![9]);
    assert_eq!(b.links[first].to_peer, vec![1, 1, 1, 9]);
    assert_eq!(b.links[second].to_peer, vec![2, 2]);
    assert_eq!(b.links[second].to_local, Vec::<u8>::new());
    assert_eq!(b.links[third].to_local, vec![3]);
    assert_eq!(b.links[third].to_peer, Vec::<u8>::new());
}

#[test]
fn bytes_stay_in_order_per_link() {
    let mut b = Bridge::new();
    b.send_metadata();
    let id = b.open_link();
    b.relay_to_peer(id, &vec![10, 11]);
    b.relay_to_peer(id, &vec![12]);
    b.relay_to_local(id, &vec![20]);
    b.relay_to_local(id, &vec![21, 22]);
    assert_eq!(b.links[id].to_peer, vec![10, 11, 12]);
    assert_eq!(b.links[id].to_local, vec![20, 21, 22]);
}

#[test]
fn failed_link_leaves_the_rest_running() {
    let mut b = Bridge::new();
    b.send_metadata();
    let first = b.open_link();
    let second = b.open_link();
    b.relay_to_peer(second, &vec![7]);
    // The local session socket was unreachable for the first pairing.
    b.end_link(first, true);
    assert_eq!(b.links[first].status, LinkStatus::Failed);
    assert_eq!(b.links[second].status, LinkStatus::Open);
    assert_eq!(b.links[second].to_peer, vec![7]);
    // A later, independently opened link still succeeds.
    let third = b.open_link();
    b.relay_to_local(third, &vec![8, 9]);
    assert_eq!(b.links[third].status, LinkStatus::Open);
    assert_eq!(b.links[third].to_local, vec![8, 9]);
}

#[test]
fn accept_loop_policies_differ() {
    assert_eq!(host_accept_action(true), AcceptAction::OpenLink);
    assert_eq!(host_accept_action(false), AcceptAction::FailRun);
    assert_eq!(guest_accept_action(true), AcceptAction::OpenLink);
    assert_eq!(guest_accept_action(false), AcceptAction::LogAndContinue);
}

#[test]
fn end_to_end_session_share() {
    // Host side: the session is named "work", version "1.0"; a correct
    // secret is exchanged, then the metadata, then one link carries the
    // bytes b"hello" from the guest's local socket to the host's session
    // socket verbatim.
    let secret = vec![b's'; 32];
    let byte = host_decision_byte(&secret, &secret.clone());
    assert_eq!(byte, 1);
    assert!(guest_accepts(byte));

    let meta = encode_session_meta(&String::from("1.0"), &String::from("work")).unwrap();
    let (version, name, rest) = decode_session_meta(&meta).unwrap();
    assert_eq!(version, "1.0");
    assert_eq!(name, "work");
    assert!(rest.is_empty());

    // The guest binds its local rendezvous socket under the
    // version-specific runtime directory.
    let local_name = remote_session_name(&name);
    assert_eq!(local_name, "work-remote");

    // Guest side: one local connection becomes one peer stream.
    let mut guest = Bridge::new();
    guest.send_metadata();
    let g = guest.open_link();
    guest.relay_to_peer(g, &b"hello".to_vec());
    assert_eq!(guest.links[g].to_peer, b"hello".to_vec());

    // Host side: the same stream's bytes go to the session socket.
    let mut host = Bridge::new();
    host.send_metadata();
    let h = host.open_link();
    let from_peer = host.links.len();
    assert_eq!(from_peer, 1);
    host.relay_to_local(h, &guest.links[g].to_peer.clone());
    assert_eq!(host.links[h].to_local, b"hello".to_vec());
}
