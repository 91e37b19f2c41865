//! The full Noise-IK exchange between two devices, and the error paths a
//! responder takes on bad datagrams.

use wireguard_core::device::{derive_public_key, Device};
use wireguard_core::types::{ConfigError, HandshakeError};

fn keypair() -> ([u8; 32], [u8; 32]) {
    let sk: [u8; 32] = rand::random();
    let pk = derive_public_key(&sk);
    (sk, pk)
}

#[test]
fn handshake() {
    // generate new keypairs

    let (sk1, pk1) = keypair();
    let (sk2, pk2) = keypair();

    // intialize devices on both ends

    let mut dev1: Device<i32> = Device::new(sk1);
    let mut dev2: Device<i32> = Device::new(sk2);

    dev1.add(pk2, 1337).unwrap();
    dev2.add(pk1, 2600).unwrap();

    // do a few handshakes

    for i in 0..10 {
        println!("handshake : {}", i);

        // create initiation

        let msg1 = dev1.begin(&pk2).unwrap();

        // process initiation and create response

        let (_, msg2, ks_r) = dev2.process(&msg1).unwrap();

        let ks_r = ks_r.unwrap();
        let msg2 = msg2.unwrap();

        assert!(!ks_r.confirmed, "Responders key-pair is confirmed");

        // process response and obtain confirmed key-pair

        let (_, msg3, ks_i) = dev1.process(&msg2).unwrap();
        let ks_i = ks_i.unwrap();

        assert!(msg3.is_none(), "Returned message after response");
        assert!(ks_i.confirmed, "Initiators key-pair is not confirmed");

        assert_eq!(ks_i.send, ks_r.recv, "KeyI.send != KeyR.recv");
        assert_eq!(ks_i.recv, ks_r.send, "KeyI.recv != KeyR.send");

        dev1.release(ks_i.send.id);
        dev2.release(ks_r.send.id);
    }
}

#[test]
fn fresh_handshake_message_sizes() {
    let (sk1, pk1) = keypair();
    let (sk2, pk2) = keypair();
    let mut a: Device<u8> = Device::new(sk1);
    let mut b: Device<u8> = Device::new(sk2);
    a.add(pk2, 1).unwrap();
    b.add(pk1, 2).unwrap();

    let init = a.begin(&pk2).unwrap();
    assert_eq!(init.len(), 148);
    assert_eq!(init[0], 1);

    let (peer, resp, ks_r) = b.process(&init).unwrap();
    assert_eq!(peer, 2);
    let resp = resp.unwrap();
    assert_eq!(resp.len(), 92);
    assert_eq!(resp[0], 2);
    assert!(!ks_r.unwrap().confirmed);

    let (_, none_msg, ks_i) = a.process(&resp).unwrap();
    assert!(none_msg.is_none());
    let ks_i = ks_i.unwrap();
    let ks_r = ks_r.unwrap();
    assert!(ks_i.confirmed);
    assert_eq!(ks_i.send.key, ks_r.recv.key);
    assert_eq!(ks_i.recv.key, ks_r.send.key);
}

#[test]
fn replayed_initiation_is_rejected() {
    let (sk1, pk1) = keypair();
    let (sk2, pk2) = keypair();
    let mut a: Device<u8> = Device::new(sk1);
    let mut b: Device<u8> = Device::new(sk2);
    a.add(pk2, 1).unwrap();
    b.add(pk1, 2).unwrap();

    let init = a.begin(&pk2).unwrap();
    b.process(&init).unwrap();
    let replayed = b.process(&init);
    assert_eq!(replayed.err(), Some(HandshakeError::InvalidTimestamp));
}

#[test]
fn later_initiations_carry_larger_timestamps() {
    let (sk1, pk1) = keypair();
    let (sk2, pk2) = keypair();
    let mut a: Device<u8> = Device::new(sk1);
    let mut b: Device<u8> = Device::new(sk2);
    a.add(pk2, 1).unwrap();
    b.add(pk1, 2).unwrap();

    let first = a.begin(&pk2).unwrap();
    let second = a.begin(&pk2).unwrap();
    // Newest first: accepted.
    b.process(&second).unwrap();
    // The older one now carries a stale timestamp.
    assert_eq!(b.process(&first).err(), Some(HandshakeError::InvalidTimestamp));
}

#[test]
fn bad_mac1_is_rejected_before_anything_else() {
    let (sk1, pk1) = keypair();
    let (sk2, pk2) = keypair();
    let mut a: Device<u8> = Device::new(sk1);
    let mut b: Device<u8> = Device::new(sk2);
    a.add(pk2, 1).unwrap();
    b.add(pk1, 2).unwrap();

    let mut init = a.begin(&pk2).unwrap();
    init[120] ^= 0xff;
    assert_eq!(b.process(&init).err(), Some(HandshakeError::InvalidMac1));
}

#[test]
fn malformed_datagrams_are_rejected() {
    let (sk1, _) = keypair();
    let mut a: Device<u8> = Device::new(sk1);
    assert_eq!(a.process(&[]).err(), Some(HandshakeError::InvalidMessageFormat));
    assert_eq!(a.process(&[9, 0, 0, 0]).err(), Some(HandshakeError::InvalidMessageFormat));
    assert_eq!(a.process(&[1, 0, 0]).err(), Some(HandshakeError::InvalidMessageFormat));
}

#[test]
fn config_errors() {
    let (sk1, pk1) = keypair();
    let (_, pk2) = keypair();
    let mut a: Device<u8> = Device::new(sk1);
    a.add(pk2, 1).unwrap();
    assert_eq!(a.add(pk2, 2).err(), Some(ConfigError::DuplicatePublicKey));
    assert_eq!(a.add(pk1, 3).err(), Some(ConfigError::SelfPublicKey));
    assert_eq!(a.psk(pk1, None).err(), Some(ConfigError::UnknownPublicKey));
    a.psk(pk2, Some([7u8; 32])).unwrap();
    assert_eq!(a.begin(&pk1).err(), Some(HandshakeError::UnknownPublicKey));
}

#[test]
fn psk_must_match_on_both_ends() {
    let (sk1, pk1) = keypair();
    let (sk2, pk2) = keypair();
    let mut a: Device<u8> = Device::new(sk1);
    let mut b: Device<u8> = Device::new(sk2);
    a.add(pk2, 1).unwrap();
    b.add(pk1, 2).unwrap();
    a.psk(pk2, Some([9u8; 32])).unwrap();
    b.psk(pk1, Some([9u8; 32])).unwrap();

    let init = a.begin(&pk2).unwrap();
    let (_, resp, _) = b.process(&init).unwrap();
    a.process(&resp.unwrap()).unwrap();

    // Now mismatch the psk: the response no longer authenticates.
    b.psk(pk1, Some([8u8; 32])).unwrap();
    let init = a.begin(&pk2).unwrap();
    let (_, resp, _) = b.process(&init).unwrap();
    assert_eq!(a.process(&resp.unwrap()).err(), Some(HandshakeError::Decryption));
}

#[test]
fn release_after_allocate_restores_the_id_map() {
    let (sk1, pk1) = keypair();
    let (sk2, pk2) = keypair();
    let mut a: Device<u8> = Device::new(sk1);
    let mut b: Device<u8> = Device::new(sk2);
    a.add(pk2, 1).unwrap();
    b.add(pk1, 2).unwrap();

    let before = a.id_map.clone();
    let init = a.begin(&pk2).unwrap();
    let id = u32::from_le_bytes([init[4], init[5], init[6], init[7]]);
    assert_eq!(a.id_map.len(), before.len() + 1);
    a.release(id);
    assert_eq!(a.id_map, before);
}
