//! The handshake device: the static identity, the peer table, the
//! receiver-index allocator, and the consumption and production of the
//! initiation and response messages of the Noise-IK exchange.

use vstd::prelude::*;
use crate::types::HandshakeError;
use crate::types::ConfigError;
use crate::types::Key;
use crate::types::KeyPair;
use crate::types::Output;
use crate::types::MAX_ALLOC_RETRIES;
use crate::crypto::blake2s_of;
use crate::crypto::x25519_of;
use crate::crypto::base_point;
use crate::bytes::le32;
use crate::bytes::be64;
use crate::noise::chain_zero;
use crate::noise::hash_zero;
use crate::noise::hash_rpk;
use crate::noise::mac1_key_of;
use crate::noise::mac1_label;
use crate::noise::construction_label;
use crate::noise::identifier_label;
use crate::noise::zero_nonce;
use crate::noise::resp_empty_key;
use crate::noise::init_static_key;
use crate::noise::init_static_aad;
use crate::noise::init_ts_key;
use crate::noise::init_ts_aad;
use crate::noise::resp_empty_aad;
use crate::noise::transport_key_initiator_send;
use crate::noise::transport_key_initiator_recv;
use crate::noise::transport_key_responder_send;
use crate::noise::transport_key_responder_recv;
use crate::noise::init_chain;
use crate::noise::init_hash_full;
use crate::crypto::seal_of;

verus! {

/// The all-zero pre-shared key, used when a peer has none configured.
pub open spec fn zero_psk() -> Seq<u8> {
    Seq::new(32, |i: int| 0u8)
}

/// A handshake this device initiated and has not yet completed: the chain
/// reached after the initiation was built, with the ephemeral secret and
/// the receiver index chosen for it.
#[derive(Clone, Copy)]
pub struct HsState {
    pub local_id: u32,
    pub esk: [u8; 32],
    pub ck: [u8; 32],
    pub h: [u8; 32],
}

/// One configured peer: its static key material, the derived values the
/// handshake needs, the timestamp ledger, and the in-flight handshake.
#[derive(Clone, Copy)]
pub struct PeerEntry<T> {
    pub pk: [u8; 32],
    pub ss: [u8; 32],
    pub psk: [u8; 32],
    pub identifier: T,
    pub mac1_key: [u8; 32],
    pub h_pre: [u8; 32],
    pub ts_ctr: u64,
    pub last_ts: u64,
    pub hs: Option<HsState>,
}

/// The handshake state machine of one interface: a static key pair, the
/// peers it may talk to, and the map from live receiver indexes to peers.
pub struct Device<T> {
    pub sk: [u8; 32],
    pub pk: [u8; 32],
    /// The latest wall-clock seconds the caller supplied; initiation
    /// stamps never fall below it.
    pub clock_secs: u64,
    pub mac1_key_own: [u8; 32],
    pub chain_start: [u8; 32],
    pub hash_start: [u8; 32],
    pub hash_own: [u8; 32],
    pub peers: Vec<PeerEntry<T>>,
    pub id_map: Vec<(u32, usize)>,
}

impl<T: Copy> Device<T> {
    /// Some peer is configured with this public key.
    pub open spec fn has_pk(self, pk: Seq<u8>) -> bool {
        exists|i: int| 0 <= i < self.peers@.len() && self.peers@[i].pk@ == pk
    }

    /// This receiver index is live.
    pub open spec fn has_id(self, id: u32) -> bool {
        exists|i: int| 0 <= i < self.id_map@.len() && self.id_map@[i].0 == id
    }

    /// The receiver-index map, as the sequence of its entries.
    pub open spec fn ids(self) -> Seq<(u32, usize)> {
        self.id_map@
    }

    /// The peer table.
    pub open spec fn peers_seq(self) -> Seq<PeerEntry<T>> {
        self.peers@
    }

    /// The index of the peer holding `pk` (meaningful when `has_pk`).
    pub open spec fn pk_slot(self, pk: Seq<u8>) -> int {
        choose|i: int| 0 <= i < self.peers@.len() && self.peers@[i].pk@ == pk
    }

    /// The peer holding `pk` (meaningful when `has_pk`).
    pub open spec fn peer_by_pk(self, pk: Seq<u8>) -> PeerEntry<T> {
        self.peers@[self.pk_slot(pk)]
    }

    /// The position in the receiver-index map of `id` (meaningful when
    /// `has_id`).
    pub open spec fn id_slot(self, id: u32) -> int {
        choose|i: int| 0 <= i < self.id_map@.len() && self.id_map@[i].0 == id
    }

    /// The peer bound to the live receiver index `id` (meaningful when
    /// `has_id`).
    pub open spec fn peer_by_id(self, id: u32) -> PeerEntry<T> {
        self.peers@[self.id_map@[self.id_slot(id)].1 as int]
    }

    /// Under `wf`, public keys are distinct, so `pk_slot` names exactly the
    /// index where `pk` was found.
    pub proof fn lemma_pk_slot_is(self, pk: Seq<u8>, i: int)
        requires
            self.wf(),
            0 <= i < self.peers@.len(),
            self.peers@[i].pk@ == pk,
        ensures
            self.has_pk(pk),
            self.pk_slot(pk) == i,
    {
        assert(self.has_pk(pk));
        let c = self.pk_slot(pk);
        assert(0 <= c < self.peers@.len() && self.peers@[c].pk@ == pk);
        if c < i {
            assert(self.peers@[c].pk@ != self.peers@[i].pk@);
        } else if i < c {
            assert(self.peers@[i].pk@ != self.peers@[c].pk@);
        }
    }

    /// Under `wf`, receiver indexes are distinct, so `id_slot` names
    /// exactly the position where `id` was found.
    pub proof fn lemma_id_slot_is(self, id: u32, i: int)
        requires
            self.wf(),
            0 <= i < self.id_map@.len(),
            self.id_map@[i].0 == id,
        ensures
            self.has_id(id),
            self.id_slot(id) == i,
    {
        assert(self.has_id(id));
        let c = self.id_slot(id);
        assert(0 <= c < self.id_map@.len() && self.id_map@[c].0 == id);
        if c < i {
            assert(self.id_map@[c].0 != self.id_map@[i].0);
        } else if i < c {
            assert(self.id_map@[i].0 != self.id_map@[c].0);
        }
    }

    /// Receiver indexes are pairwise distinct and point at configured
    /// peers; public keys are pairwise distinct and differ from the
    /// device's own; the cached chain values are the ones the protocol
    /// prescribes.
    pub open spec fn wf(self) -> bool {
        &&& forall|i: int, j: int| 0 <= i < j < self.id_map@.len()
            ==> self.id_map@[i].0 != self.id_map@[j].0
        &&& forall|i: int| 0 <= i < self.id_map@.len()
            ==> #[trigger] self.id_map@[i].1 < self.peers@.len()
        &&& forall|i: int, j: int| 0 <= i < j < self.peers@.len()
            ==> self.peers@[i].pk@ != self.peers@[j].pk@
        &&& forall|i: int| 0 <= i < self.peers@.len()
            ==> (#[trigger] self.peers@[i]).pk@ != self.pk@
        &&& forall|i: int| 0 <= i < self.peers@.len()
            ==> (#[trigger] self.peers@[i]).ss@ == x25519_of(self.sk@, self.peers@[i].pk@)
        &&& forall|i: int| 0 <= i < self.peers@.len()
            ==> (#[trigger] self.peers@[i]).mac1_key@ == mac1_key_of(self.peers@[i].pk@)
        &&& forall|i: int| 0 <= i < self.peers@.len()
            ==> (#[trigger] self.peers@[i]).h_pre@ == hash_rpk(self.peers@[i].pk@)
        &&& self.mac1_key_own@ == mac1_key_of(self.pk@)
        &&& self.chain_start@ == chain_zero()
        &&& self.hash_start@ == hash_zero()
        &&& self.hash_own@ == hash_rpk(self.pk@)
    }

    /// Initialize a fresh device around a static secret key: derive the
    /// public key and the cached protocol constants; no peers, no live
    /// receiver indexes.
    pub fn new(sk: [u8; 32]) -> (r: Device<T>)
        ensures
            r.wf(),
            r.sk@ == sk@,
            r.pk@ == x25519_of(sk@, base_point()),
            r.peers_seq().len() == 0,
            r.ids().len() == 0,
            r.clock_secs == 0,
    {
        let base = crate::crypto::base_point_bytes();
        let pk = crate::crypto::x25519(&sk, &base);
        let cons = construction_bytes();
        let chain_start = crate::crypto::blake2s(cons.as_slice());
        let mut idbuf: Vec<u8> = Vec::new();
        crate::bytes::push_all(&mut idbuf, chain_start.as_slice());
        let ident = identifier_bytes();
        crate::bytes::push_all(&mut idbuf, ident.as_slice());
        let hash_start = crate::crypto::blake2s(idbuf.as_slice());
        let hash_own = mix_hash(&hash_start, pk.as_slice());
        let mac1_key_own = mac1_key_for(&pk);
        Device {
            sk,
            pk,
            clock_secs: 0,
            mac1_key_own,
            chain_start,
            hash_start,
            hash_own,
            peers: Vec::new(),
            id_map: Vec::new(),
        }
    }

    /// Feed the device the current wall-clock time in seconds.  The next
    /// initiation embeds a timestamp no smaller than this value and
    /// strictly greater than every timestamp sent to that peer before.
    pub fn set_clock(&mut self, secs: u64)
        requires
            old(self).wf(),
        ensures
            final(self).wf(),
            final(self).clock_secs == secs,
            final(self).peers_seq() == old(self).peers_seq(),
            final(self).ids() == old(self).ids(),
            final(self).sk == old(self).sk && final(self).pk == old(self).pk,
    {
        self.clock_secs = secs;
    }

    /// Add a peer by its public key.  Fails on a key already configured
    /// and on the device's own key; otherwise the peer is appended with an
    /// all-zero pre-shared key, a fresh timestamp ledger and no handshake.
    pub fn add(&mut self, pk: [u8; 32], identifier: T) -> (r: Result<(), ConfigError>)
        requires
            old(self).wf(),
        ensures
            final(self).wf(),
            r is Err ==> *final(self) == *old(self),
            r == Err::<(), ConfigError>(ConfigError::DuplicatePublicKey)
                <==> old(self).has_pk(pk@),
            r == Err::<(), ConfigError>(ConfigError::SelfPublicKey)
                <==> (!old(self).has_pk(pk@) && pk@ == old(self).pk@),
            r is Ok <==> (!old(self).has_pk(pk@) && pk@ != old(self).pk@),
            r is Ok ==> {
                &&& final(self).peers_seq().len() == old(self).peers_seq().len() + 1
                &&& forall|j: int| 0 <= j < old(self).peers_seq().len()
                    ==> final(self).peers_seq()[j] == old(self).peers_seq()[j]
                &&& final(self).peers_seq().last().pk@ == pk@
                &&& final(self).peers_seq().last().psk@ == zero_psk()
                &&& final(self).peers_seq().last().identifier == identifier
                &&& final(self).peers_seq().last().ts_ctr == 0
                &&& final(self).peers_seq().last().last_ts == 0
                &&& final(self).peers_seq().last().hs is None
                &&& final(self).ids() == old(self).ids()
            },
            final(self).sk == old(self).sk && final(self).pk == old(self).pk,
    {
        if let Some(_) = self.find_pk_index(&pk) {
            return Err(ConfigError::DuplicatePublicKey);
        }
        if crate::crypto::bytes_eq(pk.as_slice(), self.pk.as_slice()) {
            return Err(ConfigError::SelfPublicKey);
        }
        let ss = crate::crypto::x25519(&self.sk, &pk);
        let mac1_key = mac1_key_for(&pk);
        let h_pre = mix_hash(&self.hash_start, pk.as_slice());
        let psk: [u8; 32] = [0; 32];
        proof {
            assert(psk@ =~= zero_psk());
        }
        self.peers.push(PeerEntry {
            pk,
            ss,
            psk,
            identifier,
            mac1_key,
            h_pre,
            ts_ctr: 0,
            last_ts: 0,
            hs: None,
        });
        Ok(())
    }

    /// Set or clear the pre-shared key of the peer holding `pk`; clearing
    /// stores the all-zero key.  Fails when no peer holds `pk`.
    pub fn psk(&mut self, pk: [u8; 32], psk: Option<[u8; 32]>) -> (r: Result<(), ConfigError>)
        requires
            old(self).wf(),
        ensures
            final(self).wf(),
            r == Err::<(), ConfigError>(ConfigError::UnknownPublicKey) <==> !old(self).has_pk(pk@),
            r is Ok <==> old(self).has_pk(pk@),
            r is Err ==> *final(self) == *old(self),
            r is Ok ==> {
                &&& final(self).peers_seq().len() == old(self).peers_seq().len()
                &&& final(self).ids() == old(self).ids()
                &&& forall|j: int| 0 <= j < old(self).peers_seq().len()
                    && old(self).peers_seq()[j].pk@ != pk@
                    ==> final(self).peers_seq()[j] == old(self).peers_seq()[j]
                &&& forall|j: int| 0 <= j < old(self).peers_seq().len()
                    && old(self).peers_seq()[j].pk@ == pk@
                    ==> (#[trigger] final(self).peers_seq()[j]).psk@
                            == (if psk is Some { psk.unwrap()@ } else { zero_psk() })
                        && final(self).peers_seq()[j].pk == old(self).peers_seq()[j].pk
                        && final(self).peers_seq()[j].hs == old(self).peers_seq()[j].hs
                        && final(self).peers_seq()[j].last_ts == old(self).peers_seq()[j].last_ts
            },
            final(self).sk == old(self).sk && final(self).pk == old(self).pk,
    {
        let pi = match self.find_pk_index(&pk) {
            Some(pi) => pi,
            None => {
                return Err(ConfigError::UnknownPublicKey);
            },
        };
        let entry = self.peers[pi];
        let newpsk: [u8; 32] = match psk {
            Some(v) => v,
            None => [0; 32],
        };
        proof {
            if psk is None {
                assert(newpsk@ =~= zero_psk());
            }
        }
        self.peers.set(pi, PeerEntry { psk: newpsk, ..entry });
        Ok(())
    }

    /// Release a receiver index back to the pool: the entry holding it, if
    /// any, leaves the map and every other entry stays.
    pub fn release(&mut self, id: u32)
        requires
            old(self).wf(),
        ensures
            final(self).wf(),
            !old(self).has_id(id) ==> *final(self) == *old(self),
            old(self).has_id(id) ==> exists|i: int|
                0 <= i < old(self).ids().len() && old(self).ids()[i].0 == id
                    && final(self).ids() == old(self).ids().remove(i),
            !final(self).has_id(id),
            final(self).peers_seq() == old(self).peers_seq(),
            final(self).sk == old(self).sk && final(self).pk == old(self).pk,
            final(self).clock_secs == old(self).clock_secs,
    {
        let k = match self.find_id_index(id) {
            Some(k) => k,
            None => {
                return;
            },
        };
        self.id_map.remove(k);
        proof {
            assert(0 <= k && (k as int) < old(self).ids().len()
                && old(self).ids()[k as int].0 == id
                && self.id_map@ == old(self).ids().remove(k as int));
            assert(exists|i: int|
                0 <= i < old(self).ids().len() && old(self).ids()[i].0 == id
                    && self.id_map@ == old(self).ids().remove(i)) by {
                assert(old(self).ids()[k as int].0 == id
                    && self.id_map@ == old(self).ids().remove(k as int));
            }
            assert forall|i: int| 0 <= i < self.id_map@.len()
                implies self.id_map@[i].0 != id by {
                if i < k {
                    assert(self.id_map@[i] == old(self).id_map@[i]);
                } else {
                    assert(self.id_map@[i] == old(self).id_map@[i + 1]);
                }
            }
        }
    }

    /// Begin a handshake toward the peer holding `pk`: allocate a fresh
    /// receiver index, advance the peer's transmitted-timestamp counter,
    /// record the in-flight handshake, and return the 148-byte initiation.
    pub fn begin(&mut self, pk: &[u8; 32]) -> (r: Result<Vec<u8>, HandshakeError>)
        requires
            old(self).wf(),
        ensures
            final(self).wf(),
            final(self).peers_seq().len() == old(self).peers_seq().len(),
            r is Err ==> *final(self) == *old(self),
            r == Err::<Vec<u8>, HandshakeError>(HandshakeError::UnknownPublicKey)
                <==> !old(self).has_pk(pk@),
            r is Err ==> r == Err::<Vec<u8>, HandshakeError>(HandshakeError::UnknownPublicKey)
                || r == Err::<Vec<u8>, HandshakeError>(HandshakeError::IndexExhaustion)
                || r == Err::<Vec<u8>, HandshakeError>(HandshakeError::InvalidTimestamp),
            r == Err::<Vec<u8>, HandshakeError>(HandshakeError::InvalidTimestamp)
                <==> (old(self).has_pk(pk@)
                    && (old(self).peer_by_pk(pk@).ts_ctr >= 0x3FFF_FFFF_FFFF_FFFF
                        || old(self).clock_secs >= 0x4000_0000_0000_0000)),
            old(self).has_pk(pk@)
                && old(self).peer_by_pk(pk@).ts_ctr < 0x3FFF_FFFF_FFFF_FFFF
                && old(self).clock_secs < 0x4000_0000_0000_0000
                ==> r is Ok || r == Err::<Vec<u8>, HandshakeError>(HandshakeError::IndexExhaustion),
            r is Ok ==> ({
                let pi = old(self).pk_slot(pk@);
                &&& r.unwrap()@.len() == 148
                &&& r.unwrap()@[0] == 1u8
                &&& final(self).ids().len() == old(self).ids().len() + 1
                &&& final(self).ids() == old(self).ids().push(final(self).ids().last())
                &&& !old(self).has_id(final(self).ids().last().0)
                &&& le32(r.unwrap()@.subrange(4, 8)) == final(self).ids().last().0
                &&& 0 <= pi < old(self).peers_seq().len()
                &&& old(self).peers_seq()[pi].pk@ == pk@
                &&& final(self).ids().last().1 == pi
                &&& (forall|j: int| 0 <= j < old(self).peers_seq().len() && j != pi
                    ==> final(self).peers_seq()[j] == old(self).peers_seq()[j])
                &&& final(self).peers_seq()[pi].ts_ctr > old(self).peers_seq()[pi].ts_ctr
                &&& final(self).peers_seq()[pi].ts_ctr >= old(self).clock_secs
                &&& final(self).peers_seq()[pi].hs is Some
                &&& final(self).peers_seq()[pi].hs.unwrap().local_id
                        == final(self).ids().last().0
                &&& final(self).peers_seq()[pi].identifier == old(self).peers_seq()[pi].identifier
                &&& final(self).peers_seq()[pi].last_ts == old(self).peers_seq()[pi].last_ts
                &&& final(self).peers_seq()[pi].pk == old(self).peers_seq()[pi].pk
                &&& final(self).peers_seq()[pi].psk == old(self).peers_seq()[pi].psk
            }),
            final(self).sk == old(self).sk && final(self).pk == old(self).pk,
    {
        let pi = match self.find_pk_index(pk) {
            Some(pi) => pi,
            None => {
                return Err(HandshakeError::UnknownPublicKey);
            },
        };
        proof {
            old(self).lemma_pk_slot_is(pk@, pi as int);
        }
        let peer = self.peers[pi];
        if peer.ts_ctr >= 0x3FFF_FFFF_FFFF_FFFF || self.clock_secs >= 0x4000_0000_0000_0000 {
            return Err(HandshakeError::InvalidTimestamp);
        }
        let local_id = match self.allocate(pi) {
            Ok(id) => id,
            Err(e) => {
                return Err(e);
            },
        };

        // Walk the initiator side of the Noise chain.
        let zero = zero_nonce_bytes();
        let esk = crate::crypto::random_bytes32();
        let base = crate::crypto::base_point_bytes();
        let epk = crate::crypto::x25519(&esk, &base);
        let ck = crate::crypto::kdf1(&self.chain_start, epk.as_slice());
        let h = mix_hash(&peer.h_pre, epk.as_slice());
        let dh_e = crate::crypto::x25519(&esk, &peer.pk);
        let (ck, k1) = crate::crypto::kdf2(&ck, dh_e.as_slice());
        let enc_static = crate::crypto::aead_seal(&k1, &zero, h.as_slice(), self.pk.as_slice());
        let h = mix_hash(&h, enc_static.as_slice());
        let (ck, k2) = crate::crypto::kdf2(&ck, peer.ss.as_slice());
        let tsc = if self.clock_secs > peer.ts_ctr {
            self.clock_secs
        } else {
            peer.ts_ctr + 1
        };
        // TAI64N: the labelled seconds, big-endian, then zero nanoseconds.
        let stamp = 0x4000_0000_0000_0000 + tsc;
        let mut ts: Vec<u8> = Vec::new();
        crate::bytes::put_u64_be(&mut ts, stamp);
        ts.push(0);
        ts.push(0);
        ts.push(0);
        ts.push(0);
        let enc_ts = crate::crypto::aead_seal(&k2, &zero, h.as_slice(), ts.as_slice());
        let h = mix_hash(&h, enc_ts.as_slice());

        // Frame the message and its MACs.
        let mut out: Vec<u8> = Vec::new();
        out.push(1);
        out.push(0);
        out.push(0);
        out.push(0);
        crate::bytes::put_u32_le(&mut out, local_id);
        crate::bytes::push_all(&mut out, epk.as_slice());
        crate::bytes::push_all(&mut out, enc_static.as_slice());
        crate::bytes::push_all(&mut out, enc_ts.as_slice());
        let mac1 = crate::crypto::blake2s_mac16(&peer.mac1_key, out.as_slice());
        crate::bytes::push_all(&mut out, mac1.as_slice());
        let mac2: [u8; 16] = [0; 16];
        crate::bytes::push_all(&mut out, mac2.as_slice());

        self.peers.set(pi, PeerEntry {
            ts_ctr: tsc,
            hs: Some(HsState { local_id, esk, ck, h }),
            ..peer
        });
        proof {
            assert(le32(out@.subrange(4, 8)) == local_id) by {
                assert(out@.subrange(4, 8) =~= crate::bytes::le32_bytes(local_id));
                crate::bytes::lemma_le32_roundtrip(local_id);
            }
            assert(self.peers@[pi as int].ts_ctr > old(self).peers@[pi as int].ts_ctr);
            assert(self.peers@[pi as int].ts_ctr >= old(self).clock_secs);
        }
        Ok(out)
    }

    /// Process a handshake datagram: an initiation yields the response to
    /// send and an unconfirmed key pair; a response completes the in-flight
    /// handshake and yields a confirmed key pair.  Every rejection leaves
    /// the device untouched.
    pub fn process(&mut self, msg: &[u8]) -> (r: Result<Output<T>, HandshakeError>)
        requires
            old(self).wf(),
        ensures
            final(self).wf(),
            final(self).peers_seq().len() == old(self).peers_seq().len(),
            r is Err ==> *final(self) == *old(self),
            msg@.len() == 0 || (msg@[0] != 1u8 && msg@[0] != 2u8)
                ==> r == Err::<Output<T>, HandshakeError>(HandshakeError::InvalidMessageFormat),
            msg@.len() > 0 && msg@[0] == 1u8 && msg@.len() != 148
                ==> r == Err::<Output<T>, HandshakeError>(HandshakeError::InvalidMessageFormat),
            msg@.len() > 0 && msg@[0] == 2u8 && msg@.len() != 92
                ==> r == Err::<Output<T>, HandshakeError>(HandshakeError::InvalidMessageFormat),
            msg@.len() == 148 && msg@[0] == 1u8
                ==> r != Err::<Output<T>, HandshakeError>(HandshakeError::InvalidMessageFormat),
            msg@.len() == 92 && msg@[0] == 2u8
                ==> r != Err::<Output<T>, HandshakeError>(HandshakeError::InvalidMessageFormat),
            msg@.len() == 148 && msg@[0] == 1u8
                ==> (r == Err::<Output<T>, HandshakeError>(HandshakeError::InvalidMac1)
                    <==> msg@.subrange(116, 132)
                        != crate::crypto::mac16_of(mac1_key_of(old(self).pk@),
                            msg@.subrange(0, 116))),
            msg@.len() == 92 && msg@[0] == 2u8
                ==> (r == Err::<Output<T>, HandshakeError>(HandshakeError::InvalidMac1)
                    <==> msg@.subrange(60, 76)
                        != crate::crypto::mac16_of(mac1_key_of(old(self).pk@),
                            msg@.subrange(0, 60))),
            msg@.len() == 148 && msg@[0] == 1u8 && r is Ok ==> ({
                let epk = msg@.subrange(8, 40);
                let enc_s = msg@.subrange(40, 88);
                let enc_t = msg@.subrange(88, 116);
                let resp = r.unwrap().1.unwrap()@;
                exists|esk: Seq<u8>, spk: Seq<u8>|
                    #![trigger x25519_of(esk, base_point()),
                        seal_of(init_static_key(msg@.subrange(8, 40),
                                x25519_of(old(self).sk@, msg@.subrange(8, 40))),
                            zero_nonce(),
                            init_static_aad(old(self).pk@, msg@.subrange(8, 40)), spk)]
                ({
                    let dh_e = x25519_of(old(self).sk@, epk);
                    let peer = old(self).peer_by_pk(spk);
                    let dh_ee = x25519_of(esk, epk);
                    let dh_se = x25519_of(esk, spk);
                    let ck = init_chain(epk, dh_e, peer.ss@);
                    let h = init_hash_full(old(self).pk@, epk, enc_s, enc_t);
                    &&& enc_s == seal_of(init_static_key(epk, dh_e), zero_nonce(),
                        init_static_aad(old(self).pk@, epk), spk)
                    &&& old(self).has_pk(spk)
                    &&& resp.subrange(12, 44) == x25519_of(esk, base_point())
                    &&& r.unwrap().2.unwrap().send.key@ == transport_key_responder_send(
                        ck, resp.subrange(12, 44), dh_ee, dh_se, peer.psk@)
                    &&& r.unwrap().2.unwrap().recv.key@ == transport_key_responder_recv(
                        ck, resp.subrange(12, 44), dh_ee, dh_se, peer.psk@)
                    &&& resp.subrange(44, 60) == seal_of(
                        resp_empty_key(ck, resp.subrange(12, 44), dh_ee, dh_se, peer.psk@),
                        zero_nonce(),
                        resp_empty_aad(h, ck, resp.subrange(12, 44), dh_ee, dh_se,
                            peer.psk@),
                        Seq::<u8>::empty())
                })
            }),
            msg@.len() == 148 && msg@[0] == 1u8
                && msg@.subrange(116, 132)
                    == crate::crypto::mac16_of(mac1_key_of(old(self).pk@), msg@.subrange(0, 116))
                ==> ({
                let epk = msg@.subrange(8, 40);
                let dh_e = x25519_of(old(self).sk@, epk);
                let key1 = init_static_key(epk, dh_e);
                let aad1 = init_static_aad(old(self).pk@, epk);
                let enc_s = msg@.subrange(40, 88);
                &&& (forall|spk: Seq<u8>| spk.len() == 32
                        ==> enc_s != seal_of(key1, zero_nonce(), aad1, spk))
                    ==> r == Err::<Output<T>, HandshakeError>(HandshakeError::Decryption)
                &&& forall|spk: Seq<u8>| spk.len() == 32
                        && enc_s == seal_of(key1, zero_nonce(), aad1, spk)
                    ==> ({
                    let known = old(self).has_pk(spk);
                    &&& (!known ==> r == Err::<Output<T>, HandshakeError>(
                        HandshakeError::UnknownPublicKey))
                    &&& known ==> ({
                        let peer = old(self).peer_by_pk(spk);
                        let key2 = init_ts_key(epk, dh_e, peer.ss@);
                        let aad2 = init_ts_aad(old(self).pk@, epk, enc_s);
                        let enc_t = msg@.subrange(88, 116);
                        &&& (forall|ts: Seq<u8>| ts.len() == 12
                                ==> enc_t != seal_of(key2, zero_nonce(), aad2, ts))
                            ==> r == Err::<Output<T>, HandshakeError>(HandshakeError::Decryption)
                        &&& forall|ts: Seq<u8>| ts.len() == 12
                                && enc_t == seal_of(key2, zero_nonce(), aad2, ts)
                            ==> ({
                            let stamp = be64(ts.subrange(0, 8));
                            &&& (stamp <= peer.last_ts ==> r == Err::<Output<T>, HandshakeError>(
                                HandshakeError::InvalidTimestamp))
                            &&& (stamp > peer.last_ts ==> r is Ok
                                || r == Err::<Output<T>, HandshakeError>(
                                    HandshakeError::IndexExhaustion))
                            &&& (r is Ok ==> final(self).peers_seq()
                                == old(self).peers_seq().update(old(self).pk_slot(spk),
                                    (PeerEntry { last_ts: stamp as u64, ..peer }))
                                && r.unwrap().0 == peer.identifier
                                && final(self).ids().last().1 == old(self).pk_slot(spk))

                        })
                    })
                })
            }),
            msg@.len() == 92 && msg@[0] == 2u8
                && msg@.subrange(60, 76)
                    == crate::crypto::mac16_of(mac1_key_of(old(self).pk@), msg@.subrange(0, 60))
                ==> ({
                let our_id = le32(msg@.subrange(8, 12)) as u32;
                let live = old(self).has_id(our_id)
                    && old(self).peer_by_id(our_id).hs is Some
                    && old(self).peer_by_id(our_id).hs.unwrap().local_id == our_id;
                &&& (r == Err::<Output<T>, HandshakeError>(HandshakeError::UnknownReceiverId)
                    <==> !live)
                &&& live ==> ({
                    let peer = old(self).peer_by_id(our_id);
                    let hs = peer.hs.unwrap();
                    let repk = msg@.subrange(12, 44);
                    let dh_ee = x25519_of(hs.esk@, repk);
                    let dh_se = x25519_of(old(self).sk@, repk);
                    let key3 = resp_empty_key(hs.ck@, repk, dh_ee, dh_se, peer.psk@);
                    let aad = resp_empty_aad(hs.h@, hs.ck@, repk, dh_ee, dh_se, peer.psk@);
                    &&& (r is Ok <==> msg@.subrange(44, 60)
                            == seal_of(key3, zero_nonce(), aad, Seq::<u8>::empty()))
                    &&& (r is Err
                        ==> r == Err::<Output<T>, HandshakeError>(HandshakeError::Decryption))
                    &&& r is Ok ==> {
                        &&& r.unwrap().2.unwrap().send.key@ == transport_key_initiator_send(
                            hs.ck@, repk, dh_ee, dh_se, peer.psk@)
                        &&& r.unwrap().2.unwrap().recv.key@ == transport_key_initiator_recv(
                            hs.ck@, repk, dh_ee, dh_se, peer.psk@)
                        &&& final(self).peers_seq() == old(self).peers_seq().update(
                            old(self).ids()[old(self).id_slot(our_id)].1 as int,
                            (PeerEntry { hs: None::<HsState>, ..peer }))
                        &&& r.unwrap().0 == peer.identifier
                    }
                })
            }),
            r is Ok && msg@[0] == 1u8 ==> {
                &&& r.unwrap().1 is Some
                &&& r.unwrap().1.unwrap()@.len() == 92
                &&& r.unwrap().1.unwrap()@[0] == 2u8
                &&& r.unwrap().2 is Some
                &&& !r.unwrap().2.unwrap().confirmed
                &&& final(self).ids().len() == old(self).ids().len() + 1
                &&& final(self).ids() == old(self).ids().push(final(self).ids().last())
                &&& !old(self).has_id(final(self).ids().last().0)
                &&& r.unwrap().2.unwrap().send.id == final(self).ids().last().0
                &&& le32(r.unwrap().1.unwrap()@.subrange(4, 8)) == final(self).ids().last().0
                &&& r.unwrap().2.unwrap().recv.id == le32(msg@.subrange(4, 8))
                &&& exists|pi: int| {
                    &&& 0 <= pi < old(self).peers_seq().len()
                    &&& (forall|j: int| 0 <= j < old(self).peers_seq().len() && j != pi
                        ==> final(self).peers_seq()[j] == old(self).peers_seq()[j])
                    &&& final(self).peers_seq()[pi].last_ts
                            > old(self).peers_seq()[pi].last_ts
                    &&& final(self).peers_seq()[pi].pk == old(self).peers_seq()[pi].pk
                    &&& final(self).peers_seq()[pi].hs == old(self).peers_seq()[pi].hs
                    &&& final(self).peers_seq()[pi].identifier
                            == old(self).peers_seq()[pi].identifier
                    &&& final(self).peers_seq()[pi].ts_ctr == old(self).peers_seq()[pi].ts_ctr
                    &&& final(self).ids().last().1 == pi
                    &&& r.unwrap().0 == old(self).peers_seq()[pi].identifier
                }
            },
            r is Ok && msg@.len() > 0 && msg@[0] == 2u8 ==> {
                &&& r.unwrap().1 is None
                &&& r.unwrap().2 is Some
                &&& r.unwrap().2.unwrap().confirmed
                &&& r.unwrap().2.unwrap().send.id == le32(msg@.subrange(8, 12))
                &&& r.unwrap().2.unwrap().recv.id == le32(msg@.subrange(4, 8))
                &&& old(self).has_id(le32(msg@.subrange(8, 12)) as u32)
                &&& r.unwrap().0 == old(self).peer_by_id(
                    le32(msg@.subrange(8, 12)) as u32).identifier
                &&& final(self).ids() == old(self).ids()
            },
            final(self).sk == old(self).sk && final(self).pk == old(self).pk,
    {
        if msg.len() == 0 {
            return Err(HandshakeError::InvalidMessageFormat);
        }
        let t = msg[0];
        if t == 1 {
            self.process_initiation(msg)
        } else if t == 2 {
            self.process_response(msg)
        } else {
            Err(HandshakeError::InvalidMessageFormat)
        }
    }

    /// Consume an initiation and produce the response (the type-1 arm of
    /// `process`).
    #[verifier::rlimit(100)]
    fn process_initiation(&mut self, msg: &[u8]) -> (r: Result<Output<T>, HandshakeError>)
        requires
            old(self).wf(),
            msg@.len() > 0 && msg@[0] == 1u8,
        ensures
            final(self).wf(),
            final(self).peers_seq().len() == old(self).peers_seq().len(),
            r is Err ==> *final(self) == *old(self),
            msg@.len() > 0 && msg@[0] == 1u8 && msg@.len() != 148
                ==> r == Err::<Output<T>, HandshakeError>(HandshakeError::InvalidMessageFormat),
            msg@.len() == 148 && msg@[0] == 1u8
                ==> (r == Err::<Output<T>, HandshakeError>(HandshakeError::InvalidMac1)
                    <==> msg@.subrange(116, 132)
                        != crate::crypto::mac16_of(mac1_key_of(old(self).pk@),
                            msg@.subrange(0, 116))),
            msg@.len() == 148 && msg@[0] == 1u8 && r is Ok ==> ({
                let epk = msg@.subrange(8, 40);
                let enc_s = msg@.subrange(40, 88);
                let enc_t = msg@.subrange(88, 116);
                let resp = r.unwrap().1.unwrap()@;
                exists|esk: Seq<u8>, spk: Seq<u8>|
                    #![trigger x25519_of(esk, base_point()),
                        seal_of(init_static_key(msg@.subrange(8, 40),
                                x25519_of(old(self).sk@, msg@.subrange(8, 40))),
                            zero_nonce(),
                            init_static_aad(old(self).pk@, msg@.subrange(8, 40)), spk)]
                ({
                    let dh_e = x25519_of(old(self).sk@, epk);
                    let peer = old(self).peer_by_pk(spk);
                    let dh_ee = x25519_of(esk, epk);
                    let dh_se = x25519_of(esk, spk);
                    let ck = init_chain(epk, dh_e, peer.ss@);
                    let h = init_hash_full(old(self).pk@, epk, enc_s, enc_t);
                    &&& enc_s == seal_of(init_static_key(epk, dh_e), zero_nonce(),
                        init_static_aad(old(self).pk@, epk), spk)
                    &&& old(self).has_pk(spk)
                    &&& resp.subrange(12, 44) == x25519_of(esk, base_point())
                    &&& r.unwrap().2.unwrap().send.key@ == transport_key_responder_send(
                        ck, resp.subrange(12, 44), dh_ee, dh_se, peer.psk@)
                    &&& r.unwrap().2.unwrap().recv.key@ == transport_key_responder_recv(
                        ck, resp.subrange(12, 44), dh_ee, dh_se, peer.psk@)
                    &&& resp.subrange(44, 60) == seal_of(
                        resp_empty_key(ck, resp.subrange(12, 44), dh_ee, dh_se, peer.psk@),
                        zero_nonce(),
                        resp_empty_aad(h, ck, resp.subrange(12, 44), dh_ee, dh_se,
                            peer.psk@),
                        Seq::<u8>::empty())
                })
            }),
            msg@.len() == 148 && msg@[0] == 1u8
                && msg@.subrange(116, 132)
                    == crate::crypto::mac16_of(mac1_key_of(old(self).pk@), msg@.subrange(0, 116))
                ==> ({
                let epk = msg@.subrange(8, 40);
                let dh_e = x25519_of(old(self).sk@, epk);
                let key1 = init_static_key(epk, dh_e);
                let aad1 = init_static_aad(old(self).pk@, epk);
                let enc_s = msg@.subrange(40, 88);
                &&& (forall|spk: Seq<u8>| spk.len() == 32
                        ==> enc_s != seal_of(key1, zero_nonce(), aad1, spk))
                    ==> r == Err::<Output<T>, HandshakeError>(HandshakeError::Decryption)
                &&& forall|spk: Seq<u8>| spk.len() == 32
                        && enc_s == seal_of(key1, zero_nonce(), aad1, spk)
                    ==> ({
                    let known = old(self).has_pk(spk);
                    &&& (!known ==> r == Err::<Output<T>, HandshakeError>(
                        HandshakeError::UnknownPublicKey))
                    &&& known ==> ({
                        let peer = old(self).peer_by_pk(spk);
                        let key2 = init_ts_key(epk, dh_e, peer.ss@);
                        let aad2 = init_ts_aad(old(self).pk@, epk, enc_s);
                        let enc_t = msg@.subrange(88, 116);
                        &&& (forall|ts: Seq<u8>| ts.len() == 12
                                ==> enc_t != seal_of(key2, zero_nonce(), aad2, ts))
                            ==> r == Err::<Output<T>, HandshakeError>(HandshakeError::Decryption)
                        &&& forall|ts: Seq<u8>| ts.len() == 12
                                && enc_t == seal_of(key2, zero_nonce(), aad2, ts)
                            ==> ({
                            let stamp = be64(ts.subrange(0, 8));
                            &&& (stamp <= peer.last_ts ==> r == Err::<Output<T>, HandshakeError>(
                                HandshakeError::InvalidTimestamp))
                            &&& (stamp > peer.last_ts ==> r is Ok
                                || r == Err::<Output<T>, HandshakeError>(
                                    HandshakeError::IndexExhaustion))
                            &&& (r is Ok ==> final(self).peers_seq()
                                == old(self).peers_seq().update(old(self).pk_slot(spk),
                                    (PeerEntry { last_ts: stamp as u64, ..peer }))
                                && r.unwrap().0 == peer.identifier
                                && final(self).ids().last().1 == old(self).pk_slot(spk))

                        })
                    })
                })
            }),
            r is Ok ==> {
                &&& r.unwrap().1 is Some
                &&& r.unwrap().1.unwrap()@.len() == 92
                &&& r.unwrap().1.unwrap()@[0] == 2u8
                &&& r.unwrap().2 is Some
                &&& !r.unwrap().2.unwrap().confirmed
                &&& final(self).ids().len() == old(self).ids().len() + 1
                &&& final(self).ids() == old(self).ids().push(final(self).ids().last())
                &&& !old(self).has_id(final(self).ids().last().0)
                &&& r.unwrap().2.unwrap().send.id == final(self).ids().last().0
                &&& le32(r.unwrap().1.unwrap()@.subrange(4, 8)) == final(self).ids().last().0
                &&& r.unwrap().2.unwrap().recv.id == le32(msg@.subrange(4, 8))
                &&& exists|pi: int| {
                    &&& 0 <= pi < old(self).peers_seq().len()
                    &&& (forall|j: int| 0 <= j < old(self).peers_seq().len() && j != pi
                        ==> final(self).peers_seq()[j] == old(self).peers_seq()[j])
                    &&& final(self).peers_seq()[pi].last_ts
                            > old(self).peers_seq()[pi].last_ts
                    &&& final(self).peers_seq()[pi].pk == old(self).peers_seq()[pi].pk
                    &&& final(self).peers_seq()[pi].hs == old(self).peers_seq()[pi].hs
                    &&& final(self).peers_seq()[pi].identifier
                            == old(self).peers_seq()[pi].identifier
                    &&& final(self).peers_seq()[pi].ts_ctr == old(self).peers_seq()[pi].ts_ctr
                    &&& final(self).ids().last().1 == pi
                    &&& r.unwrap().0 == old(self).peers_seq()[pi].identifier
                }
            },
            final(self).sk == old(self).sk && final(self).pk == old(self).pk,
    {
        if msg.len() != 148 {
            return Err(HandshakeError::InvalidMessageFormat);
        }
        // MAC1 comes before any asymmetric work.
        let macd = crate::bytes::copy_range(msg, 0, 116);
        let mac1 = crate::crypto::blake2s_mac16(&self.mac1_key_own, macd.as_slice());
        let mac1_field = crate::bytes::copy_range(msg, 116, 132);
        if !crate::crypto::bytes_eq(mac1.as_slice(), mac1_field.as_slice()) {
            return Err(HandshakeError::InvalidMac1);
        }
        let zero = zero_nonce_bytes();
        let epk = crate::bytes::take_32(msg, 8);
        let ck = crate::crypto::kdf1(&self.chain_start, epk.as_slice());
        let h = mix_hash(&self.hash_own, epk.as_slice());
        let dh_e = crate::crypto::x25519(&self.sk, &epk);
        let (ck, k1) = crate::crypto::kdf2(&ck, dh_e.as_slice());
        let enc_static = crate::bytes::copy_range(msg, 40, 88);
        proof {
            assert(k1@ == init_static_key(msg@.subrange(8, 40),
                x25519_of(self.sk@, msg@.subrange(8, 40))));
            assert(h@ == init_static_aad(self.pk@, msg@.subrange(8, 40)));
        }
        let spk_v = match crate::crypto::aead_open(&k1, &zero, h.as_slice(), enc_static.as_slice()) {
            Some(v) => v,
            None => {
                return Err(HandshakeError::Decryption);
            },
        };
        proof {
            assert(spk_v@.len() == 32);
        }
        let h = mix_hash(&h, enc_static.as_slice());
        let pi = match self.find_pk_index_slice(spk_v.as_slice()) {
            Some(pi) => pi,
            None => {
                return Err(HandshakeError::UnknownPublicKey);
            },
        };
        proof {
            old(self).lemma_pk_slot_is(spk_v@, pi as int);
        }
        let peer = self.peers[pi];
        let (ck, k2) = crate::crypto::kdf2(&ck, peer.ss.as_slice());
        let enc_ts = crate::bytes::copy_range(msg, 88, 116);
        proof {
            assert(k2@ == init_ts_key(msg@.subrange(8, 40),
                x25519_of(self.sk@, msg@.subrange(8, 40)), peer.ss@));
            assert(h@ == init_ts_aad(self.pk@, msg@.subrange(8, 40), msg@.subrange(40, 88)));
        }
        let ts_v = match crate::crypto::aead_open(&k2, &zero, h.as_slice(), enc_ts.as_slice()) {
            Some(v) => v,
            None => {
                return Err(HandshakeError::Decryption);
            },
        };
        proof {
            assert(ts_v@.len() == 12);
        }
        let h = mix_hash(&h, enc_ts.as_slice());
        let tsc = crate::bytes::read_u64_be(ts_v.as_slice(), 0);
        if tsc <= peer.last_ts {
            return Err(HandshakeError::InvalidTimestamp);
        }
        let sender_their = crate::bytes::read_u32_le(msg, 4);
        let local_id = match self.allocate(pi) {
            Ok(id) => id,
            Err(e) => {
                return Err(e);
            },
        };

        // Build the response: responder side of the chain.
        let esk = crate::crypto::random_bytes32();
        let base = crate::crypto::base_point_bytes();
        let repk = crate::crypto::x25519(&esk, &base);
        proof {
            assert(ck@ == init_chain(msg@.subrange(8, 40),
                x25519_of(self.sk@, msg@.subrange(8, 40)), peer.ss@));
        }
        let ghost ck_init = ck@;
        let ck = crate::crypto::kdf1(&ck, repk.as_slice());
        let h = mix_hash(&h, repk.as_slice());
        let dh_ee = crate::crypto::x25519(&esk, &epk);
        let ck = crate::crypto::kdf1(&ck, dh_ee.as_slice());
        let spk = crate::bytes::take_32(spk_v.as_slice(), 0);
        proof {
            assert(spk@ =~= spk_v@);
        }
        let dh_se = crate::crypto::x25519(&esk, &spk);
        let ck = crate::crypto::kdf1(&ck, dh_se.as_slice());
        proof {
            assert(ck@ == crate::crypto::kdf1_of(crate::crypto::kdf1_of(
                crate::crypto::kdf1_of(ck_init, repk@), dh_ee@), dh_se@));
        }
        let (ck, tau, k3) = crate::crypto::kdf3(&ck, peer.psk.as_slice());
        proof {
            assert(ck@ == crate::noise::resp_chain(ck_init, repk@, dh_ee@, dh_se@,
                peer.psk@));
        }
        let h = mix_hash(&h, tau.as_slice());
        let nothing: [u8; 0] = [];
        let enc_empty = crate::crypto::aead_seal(&k3, &zero, h.as_slice(), nothing.as_slice());
        let (t1, t2) = crate::crypto::kdf2(&ck, nothing.as_slice());

        let mut out: Vec<u8> = Vec::new();
        out.push(2);
        out.push(0);
        out.push(0);
        out.push(0);
        crate::bytes::put_u32_le(&mut out, local_id);
        crate::bytes::put_u32_le(&mut out, sender_their);
        crate::bytes::push_all(&mut out, repk.as_slice());
        crate::bytes::push_all(&mut out, enc_empty.as_slice());
        let mac1 = crate::crypto::blake2s_mac16(&peer.mac1_key, out.as_slice());
        crate::bytes::push_all(&mut out, mac1.as_slice());
        let mac2: [u8; 16] = [0; 16];
        crate::bytes::push_all(&mut out, mac2.as_slice());

        self.peers.set(pi, PeerEntry { last_ts: tsc, ..peer });
        let kp = KeyPair {
            confirmed: false,
            send: Key { key: t2, id: local_id },
            recv: Key { key: t1, id: sender_their },
        };
        proof {
            assert(le32(out@.subrange(4, 8)) == local_id) by {
                assert(out@.subrange(4, 8) =~= crate::bytes::le32_bytes(local_id));
                crate::bytes::lemma_le32_roundtrip(local_id);
            }
            assert(le32(msg@.subrange(4, 8)) == sender_their);
            assert(nothing@ =~= Seq::<u8>::empty());
            assert(out@.subrange(12, 44) =~= repk@);
            assert(out@.subrange(44, 60) =~= enc_empty@);
            assert(repk@ == x25519_of(esk@, base_point()));
            assert(msg@.subrange(40, 88) == seal_of(
                init_static_key(msg@.subrange(8, 40),
                    x25519_of(old(self).sk@, msg@.subrange(8, 40))),
                zero_nonce(), init_static_aad(old(self).pk@, msg@.subrange(8, 40)),
                spk_v@));
            let epk_s = msg@.subrange(8, 40);
            let dh_e_s = x25519_of(old(self).sk@, epk_s);
            let peer_s = old(self).peer_by_pk(spk_v@);
            let dh_ee_s = x25519_of(esk@, epk_s);
            let dh_se_s = x25519_of(esk@, spk_v@);
            let ck_s = init_chain(epk_s, dh_e_s, peer_s.ss@);
            let h_s = init_hash_full(old(self).pk@, epk_s, msg@.subrange(40, 88),
                msg@.subrange(88, 116));
            assert(old(self).has_pk(spk_v@));
            assert(peer_s == peer);
            assert(t2@ == transport_key_responder_send(ck_s, repk@, dh_ee_s, dh_se_s,
                peer_s.psk@));
            assert(t1@ == transport_key_responder_recv(ck_s, repk@, dh_ee_s, dh_se_s,
                peer_s.psk@));
            assert(enc_empty@ == seal_of(
                resp_empty_key(ck_s, repk@, dh_ee_s, dh_se_s, peer_s.psk@), zero_nonce(),
                resp_empty_aad(h_s, ck_s, repk@, dh_ee_s, dh_se_s, peer_s.psk@),
                Seq::<u8>::empty()));
        }
        Ok((peer.identifier, Some(out), Some(kp)))
    }

    /// Complete an initiated handshake from a response (the type-2 arm of
    /// `process`).
    fn process_response(&mut self, msg: &[u8]) -> (r: Result<Output<T>, HandshakeError>)
        requires
            old(self).wf(),
            msg@.len() > 0 && msg@[0] == 2u8,
        ensures
            final(self).wf(),
            final(self).peers_seq().len() == old(self).peers_seq().len(),
            r is Err ==> *final(self) == *old(self),
            msg@.len() > 0 && msg@[0] == 2u8 && msg@.len() != 92
                ==> r == Err::<Output<T>, HandshakeError>(HandshakeError::InvalidMessageFormat),
            msg@.len() == 92 && msg@[0] == 2u8
                ==> (r == Err::<Output<T>, HandshakeError>(HandshakeError::InvalidMac1)
                    <==> msg@.subrange(60, 76)
                        != crate::crypto::mac16_of(mac1_key_of(old(self).pk@),
                            msg@.subrange(0, 60))),
            msg@.len() == 92 && msg@[0] == 2u8
                && msg@.subrange(60, 76)
                    == crate::crypto::mac16_of(mac1_key_of(old(self).pk@), msg@.subrange(0, 60))
                ==> ({
                let our_id = le32(msg@.subrange(8, 12)) as u32;
                let live = old(self).has_id(our_id)
                    && old(self).peer_by_id(our_id).hs is Some
                    && old(self).peer_by_id(our_id).hs.unwrap().local_id == our_id;
                &&& (r == Err::<Output<T>, HandshakeError>(HandshakeError::UnknownReceiverId)
                    <==> !live)
                &&& live ==> ({
                    let peer = old(self).peer_by_id(our_id);
                    let hs = peer.hs.unwrap();
                    let repk = msg@.subrange(12, 44);
                    let dh_ee = x25519_of(hs.esk@, repk);
                    let dh_se = x25519_of(old(self).sk@, repk);
                    let key3 = resp_empty_key(hs.ck@, repk, dh_ee, dh_se, peer.psk@);
                    let aad = resp_empty_aad(hs.h@, hs.ck@, repk, dh_ee, dh_se, peer.psk@);
                    &&& (r is Ok <==> msg@.subrange(44, 60)
                            == seal_of(key3, zero_nonce(), aad, Seq::<u8>::empty()))
                    &&& (r is Err
                        ==> r == Err::<Output<T>, HandshakeError>(HandshakeError::Decryption))
                    &&& r is Ok ==> {
                        &&& r.unwrap().2.unwrap().send.key@ == transport_key_initiator_send(
                            hs.ck@, repk, dh_ee, dh_se, peer.psk@)
                        &&& r.unwrap().2.unwrap().recv.key@ == transport_key_initiator_recv(
                            hs.ck@, repk, dh_ee, dh_se, peer.psk@)
                        &&& final(self).peers_seq() == old(self).peers_seq().update(
                            old(self).ids()[old(self).id_slot(our_id)].1 as int,
                            (PeerEntry { hs: None::<HsState>, ..peer }))
                        &&& r.unwrap().0 == peer.identifier
                    }
                })
            }),
            r is Ok ==> {
                &&& r.unwrap().1 is None
                &&& r.unwrap().2 is Some
                &&& r.unwrap().2.unwrap().confirmed
                &&& r.unwrap().2.unwrap().send.id == le32(msg@.subrange(8, 12))
                &&& r.unwrap().2.unwrap().recv.id == le32(msg@.subrange(4, 8))
                &&& old(self).has_id(le32(msg@.subrange(8, 12)) as u32)
                &&& r.unwrap().0 == old(self).peer_by_id(
                    le32(msg@.subrange(8, 12)) as u32).identifier
                &&& final(self).ids() == old(self).ids()
            },
            final(self).sk == old(self).sk && final(self).pk == old(self).pk,
    {
        if msg.len() != 92 {
            return Err(HandshakeError::InvalidMessageFormat);
        }
        let macd = crate::bytes::copy_range(msg, 0, 60);
        let mac1 = crate::crypto::blake2s_mac16(&self.mac1_key_own, macd.as_slice());
        let mac1_field = crate::bytes::copy_range(msg, 60, 76);
        if !crate::crypto::bytes_eq(mac1.as_slice(), mac1_field.as_slice()) {
            return Err(HandshakeError::InvalidMac1);
        }
        let our_id = crate::bytes::read_u32_le(msg, 8);
        let k = match self.find_id_index(our_id) {
            Some(k) => k,
            None => {
                return Err(HandshakeError::UnknownReceiverId);
            },
        };
        let pi = self.id_map[k].1;
        proof {
            old(self).lemma_id_slot_is(our_id, k as int);
        }
        let peer = self.peers[pi];
        let hs = match peer.hs {
            Some(hs) => hs,
            None => {
                return Err(HandshakeError::UnknownReceiverId);
            },
        };
        if hs.local_id != our_id {
            return Err(HandshakeError::UnknownReceiverId);
        }
        let zero = zero_nonce_bytes();
        let repk = crate::bytes::take_32(msg, 12);
        let ck = crate::crypto::kdf1(&hs.ck, repk.as_slice());
        let h = mix_hash(&hs.h, repk.as_slice());
        let dh_ee = crate::crypto::x25519(&hs.esk, &repk);
        let ck = crate::crypto::kdf1(&ck, dh_ee.as_slice());
        let dh_se = crate::crypto::x25519(&self.sk, &repk);
        let ck = crate::crypto::kdf1(&ck, dh_se.as_slice());
        let (ck, tau, k3) = crate::crypto::kdf3(&ck, peer.psk.as_slice());
        let h = mix_hash(&h, tau.as_slice());
        let enc_empty = crate::bytes::copy_range(msg, 44, 60);
        proof {
            assert(k3@ == resp_empty_key(hs.ck@, msg@.subrange(12, 44),
                x25519_of(hs.esk@, msg@.subrange(12, 44)),
                x25519_of(self.sk@, msg@.subrange(12, 44)), peer.psk@));
            assert(h@ == resp_empty_aad(hs.h@, hs.ck@, msg@.subrange(12, 44),
                x25519_of(hs.esk@, msg@.subrange(12, 44)),
                x25519_of(self.sk@, msg@.subrange(12, 44)), peer.psk@));
        }
        match crate::crypto::aead_open(&k3, &zero, h.as_slice(), enc_empty.as_slice()) {
            Some(p) => {
                proof {
                    assert(p@ =~= Seq::<u8>::empty());
                }
            },
            None => {
                proof {
                    assert(Seq::<u8>::empty().len() == 0);
                }
                return Err(HandshakeError::Decryption);
            },
        };
        let nothing: [u8; 0] = [];
        let (t1, t2) = crate::crypto::kdf2(&ck, nothing.as_slice());
        let sender_their = crate::bytes::read_u32_le(msg, 4);
        self.peers.set(pi, PeerEntry { hs: None, ..peer });
        let kp = KeyPair {
            confirmed: true,
            send: Key { key: t1, id: our_id },
            recv: Key { key: t2, id: sender_their },
        };
        Ok((peer.identifier, None, Some(kp)))
    }

    /// The index of the peer holding `pk`, if any.
    fn find_pk_index(&self, pk: &[u8; 32]) -> (r: Option<usize>)
        ensures
            r is Some ==> 0 <= r.unwrap() < self.peers@.len()
                && self.peers@[r.unwrap() as int].pk@ == pk@,
            r is None <==> !self.has_pk(pk@),
    {
        self.find_pk_index_slice(pk.as_slice())
    }

    /// The index of the peer holding the public key `pk`, given as any
    /// 32-byte slice.
    fn find_pk_index_slice(&self, pk: &[u8]) -> (r: Option<usize>)
        ensures
            r is Some ==> 0 <= r.unwrap() < self.peers@.len()
                && self.peers@[r.unwrap() as int].pk@ == pk@,
            r is None <==> !self.has_pk(pk@),
    {
        let n = self.peers.len();
        let mut i: usize = 0;
        while i < n
            invariant
                i <= n && n == self.peers@.len(),
                forall|j: int| 0 <= j < i ==> self.peers@[j].pk@ != pk@,
            decreases n - i,
        {
            if crate::crypto::bytes_eq(self.peers[i].pk.as_slice(), pk) {
                return Some(i);
            }
            i = i + 1;
        }
        None
    }

    /// The position in the receiver-index map of `id`, if live.
    fn find_id_index(&self, id: u32) -> (r: Option<usize>)
        ensures
            r is Some ==> 0 <= r.unwrap() < self.id_map@.len()
                && self.id_map@[r.unwrap() as int].0 == id,
            r is None <==> !self.has_id(id),
    {
        let n = self.id_map.len();
        let mut i: usize = 0;
        while i < n
            invariant
                i <= n && n == self.id_map@.len(),
                forall|j: int| 0 <= j < i ==> self.id_map@[j].0 != id,
            decreases n - i,
        {
            if self.id_map[i].0 == id {
                return Some(i);
            }
            i = i + 1;
        }
        None
    }

    /// Draw random receiver indexes until one is free, then bind it to the
    /// peer at `pi`; give up after a fixed number of collisions.
    fn allocate(&mut self, pi: usize) -> (r: Result<u32, HandshakeError>)
        requires
            old(self).wf(),
            pi < old(self).peers_seq().len(),
        ensures
            final(self).wf(),
            final(self).peers_seq() == old(self).peers_seq(),
            final(self).sk == old(self).sk && final(self).pk == old(self).pk,
            final(self).clock_secs == old(self).clock_secs,
            r is Err ==> *final(self) == *old(self)
                && r == Err::<u32, HandshakeError>(HandshakeError::IndexExhaustion),
            r is Ok ==> !old(self).has_id(r.unwrap())
                && final(self).ids() == old(self).ids().push((r.unwrap(), pi)),
    {
        let mut tries: usize = 0;
        while tries < MAX_ALLOC_RETRIES
            invariant
                self.wf(),
                *self == *old(self),
                pi < self.peers@.len(),
            decreases MAX_ALLOC_RETRIES - tries,
        {
            let id = crate::crypto::random_u32();
            if self.find_id_index(id).is_none() {
                self.id_map.push((id, pi));
                proof {
                    assert forall|i: int, j: int| 0 <= i < j < self.id_map@.len()
                        implies self.id_map@[i].0 != self.id_map@[j].0 by {
                        if j == self.id_map@.len() - 1 {
                            assert(self.id_map@[i] == old(self).id_map@[i]);
                        }
                    }
                }
                return Ok(id);
            }
            tries = tries + 1;
        }
        Err(HandshakeError::IndexExhaustion)
    }
}

/// Releasing a receiver index straight after allocating it restores the
/// map: the fresh index occurs only at the end, so removing its entry
/// yields exactly the map the allocation extended.
pub proof fn lemma_release_after_allocate(s: Seq<(u32, usize)>, id: u32, pi: usize, i: int)
    requires
        forall|k: int| 0 <= k < s.len() ==> s[k].0 != id,
        0 <= i < s.push((id, pi)).len(),
        s.push((id, pi))[i].0 == id,
    ensures
        s.push((id, pi)).remove(i) == s,
{
    assert(i == s.len());
    assert(s.push((id, pi)).remove(i) =~= s);
}

/// The Noise construction label, as bytes.
fn construction_bytes() -> (r: Vec<u8>)
    ensures r@ == construction_label(),
{
    let mut v: Vec<u8> = Vec::new();
    let arr: [u8; 37] = [78, 111, 105, 115, 101, 95, 73, 75, 112, 115, 107, 50, 95, 50, 53,
        53, 49, 57, 95, 67, 104, 97, 67, 104, 97, 80, 111, 108, 121, 95, 66, 76, 65, 75, 69,
        50, 115];
    crate::bytes::push_all(&mut v, arr.as_slice());
    proof {
        assert(v@ =~= construction_label());
    }
    v
}

/// The protocol identifier, as bytes.
fn identifier_bytes() -> (r: Vec<u8>)
    ensures r@ == identifier_label(),
{
    let mut v: Vec<u8> = Vec::new();
    let arr: [u8; 34] = [87, 105, 114, 101, 71, 117, 97, 114, 100, 32, 118, 49, 32, 122, 120,
        50, 99, 52, 32, 74, 97, 115, 111, 110, 64, 122, 120, 50, 99, 52, 46, 99, 111, 109];
    crate::bytes::push_all(&mut v, arr.as_slice());
    proof {
        assert(v@ =~= identifier_label());
    }
    v
}

/// The MAC1 key for messages addressed to the holder of `pk`.
fn mac1_key_for(pk: &[u8; 32]) -> (r: [u8; 32])
    ensures r@ == mac1_key_of(pk@),
{
    let mut v: Vec<u8> = Vec::new();
    let arr: [u8; 8] = [109, 97, 99, 49, 45, 45, 45, 45];
    crate::bytes::push_all(&mut v, arr.as_slice());
    proof {
        assert(v@ =~= mac1_label());
    }
    crate::bytes::push_all(&mut v, pk.as_slice());
    crate::crypto::blake2s(v.as_slice())
}

/// The all-zero handshake nonce, as bytes.
fn zero_nonce_bytes() -> (r: [u8; 12])
    ensures r@ == zero_nonce(),
{
    let z: [u8; 12] = [0; 12];
    proof {
        assert(z@ =~= zero_nonce());
    }
    z
}

/// The transcript hash extended by one field: the hash of the previous
/// hash followed by the field.
fn mix_hash(h: &[u8; 32], data: &[u8]) -> (r: [u8; 32])
    ensures r@ == blake2s_of(h@ + data@),
{
    let mut v: Vec<u8> = Vec::new();
    crate::bytes::push_all(&mut v, h.as_slice());
    crate::bytes::push_all(&mut v, data);
    crate::crypto::blake2s(v.as_slice())
}

/// The public key a 32-byte secret scalar derives.
pub fn derive_public_key(sk: &[u8; 32]) -> (r: [u8; 32])
    ensures r@ == x25519_of(sk@, base_point()),
{
    let base = crate::crypto::base_point_bytes();
    crate::crypto::x25519(sk, &base)
}

} // verus!
