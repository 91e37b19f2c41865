//! The assembled core end to end: handshake, transport with promotion,
//! rekey, timer-driven destruction — with the receiver-index map checked
//! against the sessions that hold the indexes at every step.

use wireguard_core::device::derive_public_key;
use wireguard_core::peer::{TimerAction, TimerMessage};
use wireguard_core::tunnel::Tunnel;

const IP: [u8; 16] = [0, 0, 0, 0, 0, 0, 0, 0, 0, 0, 0xff, 0xff, 127, 0, 0, 1];

#[test]
fn tunnel_end_to_end() {
    let sk_a: [u8; 32] = rand::random();
    let sk_b: [u8; 32] = rand::random();
    let pk_a = derive_public_key(&sk_a);
    let pk_b = derive_public_key(&sk_b);

    let mut a = Tunnel::new(sk_a);
    let mut b = Tunnel::new(sk_b);
    let pa = a.add_peer(pk_b, 0).unwrap();
    let pb = b.add_peer(pk_a, 0).unwrap();

    // Handshake: A initiates, B answers with a session waiting in `next`,
    // A confirms straight into `current`.
    let init = a.start_handshake(&pk_b, 0).unwrap();
    assert_eq!(a.device.id_map.len(), 1);
    let (who, resp, none_sent) = b.process_handshake(&init, 0).unwrap();
    assert_eq!(who, pb);
    assert!(none_sent.is_empty());
    let resp = resp.unwrap();
    assert!(b.peers[pb].ladder.next.is_some());
    assert!(b.peers[pb].ladder.current.is_none());
    let (who, none, exercised) = a.process_handshake(&resp, 0).unwrap();
    assert_eq!(who, pa);
    assert!(none.is_none());
    assert!(a.peers[pa].ladder.current.is_some());
    // With nothing queued, the fresh session is exercised by a keepalive.
    assert_eq!(exercised.len(), 1);
    let (_, ka_plain, _) = b.process_transport(&exercised[0], IP, 51820, 0).unwrap();
    assert!(ka_plain.is_empty());
    // That keepalive already promoted B's session.
    assert!(b.peers[pb].ladder.next.is_none());
    assert!(b.peers[pb].ladder.current.as_ref().unwrap().confirmed);

    // A sends an inner packet.
    let sent = a.send_packet(pa, vec![0x45, 1, 2, 3], 1).unwrap();
    assert_eq!(sent.len(), 1);
    let (who, plain, _) = b.process_transport(&sent[0], IP, 51820, 1).unwrap();
    assert_eq!(who, pb);
    assert_eq!(plain, vec![0x45, 1, 2, 3]);
    assert_eq!(b.peers[pb].endpoint, Some((IP, 51820)));

    // And back.
    let sent = b.send_packet(pb, vec![9], 2).unwrap();
    assert_eq!(sent.len(), 1);
    let (_, plain, _) = a.process_transport(&sent[0], IP, 7, 2).unwrap();
    assert_eq!(plain, vec![9]);

    // Rekey: a second handshake rolls A's old session into `past`, and a
    // packet queued while it completed drains through the new session.
    let old_id = a.peers[pa].ladder.current.as_ref().unwrap().local_id;
    let init2 = a.start_handshake(&pk_b, 200).unwrap();
    let (_, resp2, _) = b.process_handshake(&init2, 200).unwrap();
    a.peers[pa].queue_egress(vec![8, 8], 200);
    let (_, _, drained) = a.process_handshake(&resp2.unwrap(), 200).unwrap();
    assert_eq!(drained.len(), 1);
    assert!(a.peers[pa].queue.is_empty());
    let (_, plain, _) = b.process_transport(&drained[0], IP, 51820, 200).unwrap();
    assert_eq!(plain, vec![8, 8]);
    assert_eq!(a.peers[pa].ladder.past.as_ref().unwrap().local_id, old_id);
    assert_ne!(a.peers[pa].ladder.current.as_ref().unwrap().local_id, old_id);

    // Every live receiver index names a session some peer still holds.
    for (id, pi) in &a.device.id_map {
        let lad = &a.peers[*pi].ladder;
        let held = [&lad.next, &lad.current, &lad.past]
            .iter()
            .any(|s| s.as_ref().map(|s| s.local_id) == Some(*id));
        assert!(held, "index not held by any session slot");
    }

    // Reject destroys the current session and releases its index.
    let cur_id = a.peers[pa].ladder.current.as_ref().unwrap().local_id;
    let ids_before = a.device.id_map.len();
    let action = a.timer_fired(pa, TimerMessage::Reject(cur_id), 400);
    assert_eq!(action, TimerAction::Destroyed(cur_id));
    assert!(a.peers[pa].ladder.current.is_none());
    assert_eq!(a.device.id_map.len(), ids_before - 1);
}

#[test]
fn tunnel_drops_what_the_device_drops() {
    let sk_a: [u8; 32] = rand::random();
    let sk_b: [u8; 32] = rand::random();
    let pk_a = derive_public_key(&sk_a);
    let pk_b = derive_public_key(&sk_b);
    let mut a = Tunnel::new(sk_a);
    let mut b = Tunnel::new(sk_b);
    a.add_peer(pk_b, 0).unwrap();
    b.add_peer(pk_a, 0).unwrap();

    let init = a.start_handshake(&pk_b, 0).unwrap();
    b.process_handshake(&init, 0).unwrap();
    // The replayed initiation carries a stale timestamp.
    assert!(b.process_handshake(&init, 0).is_err());
    // A transport datagram for an unknown receiver index is dropped.
    let mut bogus = vec![4u8, 0, 0, 0];
    bogus.extend_from_slice(&0xDEADBEEFu32.to_le_bytes());
    bogus.extend_from_slice(&[0u8; 24]);
    assert!(b.process_transport(&bogus, IP, 1, 1).is_err());
}

#[test]
fn cookie_reply_is_kept_at_the_interface() {
    let sk_a: [u8; 32] = rand::random();
    let sk_b: [u8; 32] = rand::random();
    let pk_a = derive_public_key(&sk_a);
    let pk_b = derive_public_key(&sk_b);
    let mut a = Tunnel::new(sk_a);
    let mut b = Tunnel::new(sk_b);
    let pa = a.add_peer(pk_b, 0).unwrap();
    b.add_peer(pk_a, 0).unwrap();

    let init = a.start_handshake(&pk_b, 0).unwrap();
    let our_id = u32::from_le_bytes([init[4], init[5], init[6], init[7]]);

    // A well-formed type-3 datagram naming the live index is kept.
    let mut reply = vec![3u8, 0, 0, 0];
    reply.extend_from_slice(&our_id.to_le_bytes());
    reply.extend_from_slice(&[7u8; 56]);
    let who = a.process_cookie_reply(&reply).unwrap();
    assert_eq!(who, pa);
    assert_eq!(a.peers[pa].cookie_reply.as_deref(), Some(&[7u8; 56][..]));

    // Wrong shape or a dead index is dropped.
    assert!(a.process_cookie_reply(&reply[..63]).is_err());
    let mut bogus = reply.clone();
    bogus[4] ^= 1;
    bogus[5] ^= 1;
    assert!(a.process_cookie_reply(&bogus).is_err() || our_id ^ 0x0101 == our_id);
}
