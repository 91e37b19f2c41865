//! The transport path over keys from a real handshake: framing, the
//! encrypt-then-decrypt identity, replay rejection, session expiry, the
//! ladder, and the timer decisions.

use wireguard_core::device::{derive_public_key, Device};
use wireguard_core::peer::{Peer, TimerAction, TimerMessage};
use wireguard_core::peer::{classify_datagram, DatagramKind};
use wireguard_core::session::{Session, SessionLadder};
use wireguard_core::types::{KeyPair, TransportError, KEEPALIVE_TIMEOUT, REJECT_AFTER_TIME,
    REKEY_AFTER_TIME};

fn handshaken_pair() -> (KeyPair, KeyPair) {
    let sk1: [u8; 32] = rand::random();
    let pk1 = derive_public_key(&sk1);
    let sk2: [u8; 32] = rand::random();
    let pk2 = derive_public_key(&sk2);
    let mut a: Device<u8> = Device::new(sk1);
    let mut b: Device<u8> = Device::new(sk2);
    a.add(pk2, 1).unwrap();
    b.add(pk1, 2).unwrap();
    let init = a.begin(&pk2).unwrap();
    let (_, resp, ks_r) = b.process(&init).unwrap();
    let (_, _, ks_i) = a.process(&resp.unwrap()).unwrap();
    (ks_i.unwrap(), ks_r.unwrap())
}

#[test]
fn encrypt_then_decrypt_is_identity() {
    let (ks_i, ks_r) = handshaken_pair();
    let mut sa = Session::from_key_pair(&ks_i, 0);
    let mut sb = Session::from_key_pair(&ks_r, 0);

    let payload = vec![0x45u8, 1, 2, 3, 4, 5, 6, 7, 8, 9];
    let datagram = sa.encrypt_transport(&payload, 1).unwrap();
    assert_eq!(datagram.len(), 16 + payload.len() + 16);
    assert_eq!(datagram[0], 4);
    let plain = sb.decrypt_transport(&datagram, 1).unwrap();
    assert_eq!(plain, payload);

    // And in the other direction, with an empty keepalive.
    let ka = sb.encrypt_transport(&[], 2).unwrap();
    assert_eq!(ka.len(), 32);
    let plain = sa.decrypt_transport(&ka, 2).unwrap();
    assert!(plain.is_empty());
    assert!(sa.confirmed);
}

#[test]
fn duplicate_counter_is_dropped() {
    let (ks_i, ks_r) = handshaken_pair();
    let mut sa = Session::from_key_pair(&ks_i, 0);
    let mut sb = Session::from_key_pair(&ks_r, 0);

    let datagram = sa.encrypt_transport(&[1, 2, 3], 0).unwrap();
    assert!(sb.decrypt_transport(&datagram, 0).is_ok());
    assert_eq!(sb.decrypt_transport(&datagram, 0).err(), Some(TransportError::Replay));
}

#[test]
fn unknown_receiver_is_dropped_unchanged() {
    let (ks_i, ks_r) = handshaken_pair();
    let mut sa = Session::from_key_pair(&ks_i, 0);
    let mut sb = Session::from_key_pair(&ks_r, 0);

    let mut datagram = sa.encrypt_transport(&[1, 2, 3], 0).unwrap();
    let bogus = 0xDEADBEEFu32.to_le_bytes();
    datagram[4] = bogus[0];
    datagram[5] = bogus[1];
    datagram[6] = bogus[2];
    datagram[7] = bogus[3];
    let before_ctr = sb.send_ctr;
    assert_eq!(
        sb.decrypt_transport(&datagram, 0).err(),
        Some(TransportError::UnknownReceiverId),
    );
    assert_eq!(sb.send_ctr, before_ctr);
    assert!(!sb.confirmed);
}

#[test]
fn tampered_ciphertext_fails_decryption() {
    let (ks_i, ks_r) = handshaken_pair();
    let mut sa = Session::from_key_pair(&ks_i, 0);
    let mut sb = Session::from_key_pair(&ks_r, 0);
    let mut datagram = sa.encrypt_transport(&[1, 2, 3], 0).unwrap();
    let last = datagram.len() - 1;
    datagram[last] ^= 0x80;
    assert_eq!(sb.decrypt_transport(&datagram, 0).err(), Some(TransportError::Decryption));
}

#[test]
fn counters_are_monotonic_on_the_wire() {
    let (ks_i, _) = handshaken_pair();
    let mut sa = Session::from_key_pair(&ks_i, 0);
    for expected in 0u64..5 {
        let d = sa.encrypt_transport(&[9], 0).unwrap();
        let ctr = u64::from_le_bytes([d[8], d[9], d[10], d[11], d[12], d[13], d[14], d[15]]);
        assert_eq!(ctr, expected);
    }
}

#[test]
fn expired_session_refuses_to_send() {
    let (ks_i, _) = handshaken_pair();
    let mut sa = Session::from_key_pair(&ks_i, 100);
    assert_eq!(
        sa.encrypt_transport(&[1], 100 + REJECT_AFTER_TIME).err(),
        Some(TransportError::ExpiredSession),
    );
    assert!(sa.encrypt_transport(&[1], 100 + REJECT_AFTER_TIME - 1).is_ok());
}

#[test]
fn promotion_is_idempotent() {
    let (ks_i, ks_r) = handshaken_pair();
    let fresh = Session::from_key_pair(&ks_i, 0);
    let id = fresh.local_id;
    let older = Session::from_key_pair(&ks_r, 0);
    let older_id = older.local_id;

    let mut ladder = SessionLadder::new();
    ladder.current = Some(older);
    ladder.next = Some(fresh);

    // First promotion rotates the ladder.
    let dead = ladder.promote(id);
    assert_eq!(dead, None);
    assert!(ladder.next.is_none());
    assert_eq!(ladder.current.as_ref().unwrap().local_id, id);
    assert!(ladder.current.as_ref().unwrap().confirmed);
    assert_eq!(ladder.past.as_ref().unwrap().local_id, older_id);

    // Promoting the same id again is a no-op.
    let dead = ladder.promote(id);
    assert_eq!(dead, None);
    assert!(ladder.next.is_none());
    assert_eq!(ladder.current.as_ref().unwrap().local_id, id);
    assert_eq!(ladder.past.as_ref().unwrap().local_id, older_id);
}

#[test]
fn persistent_keepalive_fires_on_schedule() {
    let (ks_i, _) = handshaken_pair();
    let mut session = Session::from_key_pair(&ks_i, 0);
    session.confirmed = true;
    let id = session.local_id;
    let mut peer = Peer::new(5);
    peer.ladder.current = Some(session);

    // Fires regardless of traffic, and re-arms at the configured interval.
    assert_eq!(peer.handle_timer(TimerMessage::PersistentKeepalive(id), 5),
        TimerAction::SendKeepalive(5));
    assert_eq!(peer.handle_timer(TimerMessage::PersistentKeepalive(id), 10),
        TimerAction::SendKeepalive(5));
    // A firing for a dead session is dropped.
    assert_eq!(peer.handle_timer(TimerMessage::PersistentKeepalive(id ^ 1), 15),
        TimerAction::Nothing);
}

#[test]
fn passive_keepalive_answers_idle_received_traffic() {
    let (ks_i, _) = handshaken_pair();
    let mut session = Session::from_key_pair(&ks_i, 0);
    session.last_received = 0;
    session.last_sent = 0;
    let id = session.local_id;
    let mut peer = Peer::new(0);
    peer.ladder.current = Some(session);

    // Too early: re-check later.
    assert_eq!(peer.handle_timer(TimerMessage::PassiveKeepalive(id), 3),
        TimerAction::Retry(KEEPALIVE_TIMEOUT - 3));
    // Idle long enough: send one keepalive, once.
    assert_eq!(peer.handle_timer(TimerMessage::PassiveKeepalive(id), KEEPALIVE_TIMEOUT),
        TimerAction::SendKeepalive(KEEPALIVE_TIMEOUT));
    assert_eq!(peer.handle_timer(TimerMessage::PassiveKeepalive(id), KEEPALIVE_TIMEOUT),
        TimerAction::Retry(KEEPALIVE_TIMEOUT));
}

#[test]
fn rekey_timer_renews_an_aged_session() {
    let (ks_i, _) = handshaken_pair();
    let session = Session::from_key_pair(&ks_i, 0);
    let id = session.local_id;
    let mut peer = Peer::new(0);
    peer.ladder.current = Some(session);
    peer.last_handshake = 0;

    // Young session: wait out the remainder.
    assert_eq!(peer.handle_timer(TimerMessage::Rekey(id), 100),
        TimerAction::Retry(REKEY_AFTER_TIME - 100));
    // Old session: a new handshake is due.
    assert_eq!(peer.handle_timer(TimerMessage::Rekey(id), REKEY_AFTER_TIME + 1),
        TimerAction::SendHandshakeInit);
}

#[test]
fn reject_timer_destroys_the_session() {
    let (ks_i, _) = handshaken_pair();
    let session = Session::from_key_pair(&ks_i, 0);
    let id = session.local_id;
    let mut peer = Peer::new(0);
    peer.ladder.current = Some(session);

    assert_eq!(peer.handle_timer(TimerMessage::Reject(id), REJECT_AFTER_TIME),
        TimerAction::Destroyed(id));
    assert!(peer.ladder.current.is_none());
    // A second firing for the same id is dropped silently.
    assert_eq!(peer.handle_timer(TimerMessage::Reject(id), REJECT_AFTER_TIME),
        TimerAction::Nothing);
}

#[test]
fn rekey_after_time_rolls_the_old_session_into_past() {
    // A confirmed session ages past REKEY_AFTER_TIME; the rekey timer asks
    // for a fresh initiation, and when its response arrives the old
    // session moves to `past`.
    let (ks_i, _) = handshaken_pair();
    let old_session = Session::from_key_pair(&ks_i, 0);
    let old_id = old_session.local_id;
    let mut peer = Peer::new(0);
    peer.ladder.current = Some(old_session);
    peer.last_handshake = 0;

    let now = REKEY_AFTER_TIME + 1;
    assert_eq!(peer.handle_timer(TimerMessage::Rekey(old_id), now),
        TimerAction::SendHandshakeInit);

    // The new exchange completes and lands in `next`.
    let (ks_i2, _) = handshaken_pair();
    let new_session = Session::from_key_pair(&ks_i2, now);
    let new_id = new_session.local_id;
    if new_id == old_id {
        return; // one-in-four-billion collision: nothing to check
    }
    peer.ladder.next = Some(Session { confirmed: false, ..new_session });
    let dead = peer.ladder.promote(new_id);
    assert_eq!(dead, None);
    assert_eq!(peer.ladder.current.as_ref().unwrap().local_id, new_id);
    assert_eq!(peer.ladder.past.as_ref().unwrap().local_id, old_id);
}

#[test]
fn egress_queue_drops_oldest_at_capacity() {
    let mut peer = Peer::new(0);
    for i in 0..wireguard_core::types::MAX_QUEUED_PACKETS {
        peer.queue_egress(vec![(i % 256) as u8], 0);
    }
    assert_eq!(peer.queue.len(), wireguard_core::types::MAX_QUEUED_PACKETS);
    peer.queue_egress(vec![0xAB], 1);
    assert_eq!(peer.queue.len(), wireguard_core::types::MAX_QUEUED_PACKETS);
    assert_eq!(peer.queue.last().unwrap(), &vec![0xAB]);
    assert_eq!(peer.queue[0], vec![1]);
}

#[test]
fn datagram_classification_follows_the_type_byte() {
    assert_eq!(classify_datagram(&[]), DatagramKind::Unknown);
    assert_eq!(classify_datagram(&[1, 0, 0, 0]), DatagramKind::Initiation);
    assert_eq!(classify_datagram(&[2, 0, 0, 0]), DatagramKind::Response);
    assert_eq!(classify_datagram(&[3, 0, 0, 0]), DatagramKind::CookieReply);
    assert_eq!(classify_datagram(&[4, 0, 0, 0]), DatagramKind::Transport);
    assert_eq!(classify_datagram(&[7, 0, 0, 0]), DatagramKind::Unknown);
}

#[test]
fn ladder_receive_promotes_the_next_session() {
    // The initiator's freshly negotiated session waits in `next`; the first
    // authenticated inbound datagram promotes it to `current` and displaces
    // the ladder downward.
    let (ks_i, ks_r) = handshaken_pair();
    let (ks_i_old, _) = handshaken_pair();

    let mut remote = Session::from_key_pair(&ks_r, 0);
    let fresh = Session { confirmed: false, ..Session::from_key_pair(&ks_i, 0) };
    let fresh_id = fresh.local_id;
    let old_current = Session::from_key_pair(&ks_i_old, 0);
    let old_id = old_current.local_id;
    if fresh_id == old_id {
        return; // one-in-four-billion collision: nothing to check
    }

    let mut ladder = SessionLadder::new();
    ladder.current = Some(old_current);
    ladder.next = Some(fresh);

    let datagram = remote.encrypt_transport(&[7, 8, 9], 1).unwrap();
    let (plain, dead) = ladder.handle_transport(&datagram, 1).unwrap();
    assert_eq!(plain, vec![7, 8, 9]);
    assert_eq!(dead, None);
    assert!(ladder.next.is_none());
    assert_eq!(ladder.current.as_ref().unwrap().local_id, fresh_id);
    assert!(ladder.current.as_ref().unwrap().confirmed);
    assert_eq!(ladder.past.as_ref().unwrap().local_id, old_id);

    // A later datagram finds the session in `current`: no further motion.
    let datagram = remote.encrypt_transport(&[1], 2).unwrap();
    let (plain, dead) = ladder.handle_transport(&datagram, 2).unwrap();
    assert_eq!(plain, vec![1]);
    assert_eq!(dead, None);
    assert_eq!(ladder.current.as_ref().unwrap().local_id, fresh_id);
    assert_eq!(ladder.past.as_ref().unwrap().local_id, old_id);
}

#[test]
fn peer_receive_updates_the_endpoint() {
    let (ks_i, ks_r) = handshaken_pair();
    let mut remote = Session::from_key_pair(&ks_r, 0);
    let mut peer = Peer::new(0);
    peer.ladder.current = Some(Session::from_key_pair(&ks_i, 0));
    assert!(peer.endpoint.is_none());

    let ip = [0u8, 0, 0, 0, 0, 0, 0, 0, 0, 0, 0xff, 0xff, 192, 0, 2, 1];
    let datagram = remote.encrypt_transport(&[5], 1).unwrap();
    let (plain, dead) = peer.handle_transport(&datagram, ip, 51820, 1).unwrap();
    assert_eq!(plain, vec![5]);
    assert_eq!(dead, None);
    assert_eq!(peer.endpoint, Some((ip, 51820)));

    // A datagram that fails to authenticate moves nothing.
    let mut bad = remote.encrypt_transport(&[5], 2).unwrap();
    let last = bad.len() - 1;
    bad[last] ^= 1;
    let other_ip = [0u8; 16];
    assert!(peer.handle_transport(&bad, other_ip, 1, 2).is_err());
    assert_eq!(peer.endpoint, Some((ip, 51820)));
}

#[test]
fn install_next_destroys_an_unpromoted_next() {
    let (ks_i, _) = handshaken_pair();
    let (ks_i2, _) = handshaken_pair();
    let first = Session { confirmed: false, ..Session::from_key_pair(&ks_i, 0) };
    let first_id = first.local_id;
    let second = Session { confirmed: false, ..Session::from_key_pair(&ks_i2, 7) };
    if second.local_id == first_id {
        return; // one-in-four-billion collision: nothing to check
    }

    let mut peer = Peer::new(0);
    assert_eq!(peer.install_next(first, 3), None);
    assert_eq!(peer.last_sent_init, 3);
    let dead = peer.install_next(second, 9);
    assert_eq!(dead, Some(first_id));
    assert_eq!(peer.last_sent_init, 9);
}

#[test]
fn drain_queue_seals_front_first_with_consecutive_counters() {
    let (ks_i, ks_r) = handshaken_pair();
    let mut peer = Peer::new(0);
    peer.ladder.current = Some(Session::from_key_pair(&ks_i, 0));
    let mut remote = Session::from_key_pair(&ks_r, 0);

    peer.queue_egress(vec![1, 1], 0);
    peer.queue_egress(vec![2, 2], 0);
    peer.queue_egress(vec![3, 3], 0);
    let datagrams = peer.drain_queue(1);
    assert_eq!(datagrams.len(), 3);
    assert!(peer.queue.is_empty());
    for (i, d) in datagrams.iter().enumerate() {
        let ctr = u64::from_le_bytes([d[8], d[9], d[10], d[11], d[12], d[13], d[14], d[15]]);
        assert_eq!(ctr, i as u64);
        let plain = remote.decrypt_transport(d, 1).unwrap();
        assert_eq!(plain, vec![(i + 1) as u8, (i + 1) as u8]);
    }
}

#[test]
fn handshake_still_mirrors_under_a_real_clock() {
    let sk1: [u8; 32] = rand::random();
    let pk1 = derive_public_key(&sk1);
    let sk2: [u8; 32] = rand::random();
    let pk2 = derive_public_key(&sk2);
    let mut a: Device<u8> = Device::new(sk1);
    let mut b: Device<u8> = Device::new(sk2);
    a.add(pk2, 1).unwrap();
    b.add(pk1, 2).unwrap();
    a.set_clock(1_700_000_000);
    b.set_clock(1_700_000_000);

    let init = a.begin(&pk2).unwrap();
    let (_, resp, ks_r) = b.process(&init).unwrap();
    let (_, _, ks_i) = a.process(&resp.unwrap()).unwrap();
    let (ks_i, ks_r) = (ks_i.unwrap(), ks_r.unwrap());
    assert_eq!(ks_i.send, ks_r.recv);
    assert_eq!(ks_i.recv, ks_r.send);

    // A second initiation still advances the embedded stamp.
    let init2 = a.begin(&pk2).unwrap();
    assert!(b.process(&init2).is_ok());
    assert_eq!(b.process(&init).err(),
        Some(wireguard_core::types::HandshakeError::InvalidTimestamp));
}

#[test]
fn egress_rejects_packets_outside_the_size_bounds() {
    let (ks_i, _) = handshaken_pair();
    let mut peer = Peer::new(0);
    peer.ladder.current = Some(Session::from_key_pair(&ks_i, 0));

    assert_eq!(peer.handle_egress(vec![], 0).err(), Some(TransportError::Oversize));
    let huge = vec![0u8; wireguard_core::types::MAX_CONTENT_SIZE + 1];
    assert_eq!(peer.handle_egress(huge, 0).err(), Some(TransportError::Oversize));

    let sent = peer.handle_egress(vec![9, 9], 0).unwrap();
    assert_eq!(sent.len(), 1);
    assert!(peer.queue.is_empty());

    // Without a ready session the packet waits in the queue.
    let mut waiting = Peer::new(0);
    let sent = waiting.handle_egress(vec![7], 0).unwrap();
    assert!(sent.is_empty());
    assert_eq!(waiting.queue.len(), 1);
}
