//! The assembled core: one handshake device together with the transport
//! peers, under the invariant that every live receiver index is pairwise
//! distinct and names a peer that currently holds it — in a session slot
//! of its ladder or in its in-flight handshake.

use vstd::prelude::*;
use crate::bytes::le32;
use crate::bytes::le64;
use crate::session::nonce_of;
use crate::session::slot_of;
use crate::session::transport_header;
use crate::crypto::seal_of;
use crate::device::Device;
use crate::peer::Peer;
use crate::session::Session;
use crate::types::ConfigError;
use crate::types::HandshakeError;
use crate::types::TransportError;
use crate::peer::TimerAction;
use crate::peer::TimerMessage;

verus! {

/// A device and its peers, kept in lockstep: peer `i` of the transport
/// layer is peer `i` of the handshake device.
pub struct Tunnel {
    pub device: Device<usize>,
    pub peers: Vec<Peer>,
}

impl Tunnel {
    /// Entry `entry` of the receiver-index map names a peer that holds the
    /// index: in one of its three session slots or in its in-flight
    /// handshake.
    pub open spec fn id_held(self, entry: (u32, usize)) -> bool {
        &&& (entry.1 as int) < self.peers@.len()
        &&& ({
            let lad = self.peers@[entry.1 as int].ladder;
            let hs = self.device.peers_seq()[entry.1 as int].hs;
            ||| (lad.next is Some && lad.next.unwrap().local_id == entry.0)
            ||| (lad.current is Some && lad.current.unwrap().local_id == entry.0)
            ||| (lad.past is Some && lad.past.unwrap().local_id == entry.0)
            ||| (hs is Some && hs.unwrap().local_id == entry.0)
        })
    }

    /// The device is sound, the two peer tables run in lockstep with the
    /// device identifier naming the index, every peer is sound, and every
    /// live receiver index is held by the peer it maps to.
    pub open spec fn wf(self) -> bool {
        &&& self.device.wf()
        &&& self.peers@.len() == self.device.peers_seq().len()
        &&& forall|i: int| 0 <= i < self.device.peers_seq().len()
            ==> (#[trigger] self.device.peers_seq()[i]).identifier == i
        &&& forall|i: int| 0 <= i < self.peers@.len() ==> (#[trigger] self.peers@[i]).wf()
        &&& forall|k: int| 0 <= k < self.device.ids().len()
            ==> self.id_held(#[trigger] self.device.ids()[k])
    }

    /// A fresh core around a static secret key: no peers, no live indexes.
    pub fn new(sk: [u8; 32]) -> (r: Tunnel)
        ensures
            r.wf(),
            r.peers@.len() == 0,
            r.device.ids().len() == 0,
    {
        Tunnel { device: Device::new(sk), peers: Vec::new() }
    }

    /// Add a peer: it joins both tables at the same index.
    pub fn add_peer(&mut self, pk: [u8; 32], keepalive: u32) -> (r: Result<usize, ConfigError>)
        requires
            old(self).wf(),
        ensures
            final(self).wf(),
            r is Err ==> *final(self) == *old(self),
            r is Ok <==> (!old(self).device.has_pk(pk@) && pk@ != old(self).device.pk@),
            r is Ok ==> r.unwrap() == old(self).peers@.len()
                && final(self).peers@.len() == old(self).peers@.len() + 1
                && final(self).device.peers_seq().last().pk@ == pk@
                && final(self).peers@.last().keepalive == keepalive
                && final(self).peers@.last().queue@.len() == 0
                && final(self).peers@.last().ladder.next is None
                && final(self).peers@.last().ladder.current is None
                && final(self).peers@.last().ladder.past is None,
    {
        let idx = self.peers.len();
        match self.device.add(pk, idx) {
            Ok(()) => {},
            Err(e) => {
                return Err(e);
            },
        };
        self.peers.push(Peer::new(keepalive));
        proof {
            assert forall|k: int| 0 <= k < self.device.ids().len()
                implies self.id_held(#[trigger] self.device.ids()[k]) by {
                assert(old(self).id_held(old(self).device.ids()[k]));
            }
        }
        Ok(idx)
    }

    /// The index of the peer configured with `pk`, if any.
    fn find_peer(&self, pk: &[u8; 32]) -> (r: Option<usize>)
        ensures
            r is Some ==> 0 <= r.unwrap() < self.device.peers_seq().len()
                && self.device.peers_seq()[r.unwrap() as int].pk@ == pk@,
            r is None <==> !self.device.has_pk(pk@),
    {
        let n = self.device.peers.len();
        let mut i: usize = 0;
        while i < n
            invariant
                i <= n && n == self.device.peers_seq().len(),
                forall|j: int| 0 <= j < i ==> self.device.peers_seq()[j].pk@ != pk@,
            decreases n - i,
        {
            if crate::crypto::bytes_eq(self.device.peers[i].pk.as_slice(), pk.as_slice()) {
                return Some(i);
            }
            i = i + 1;
        }
        None
    }

    /// Begin a handshake toward the peer holding `pk`: the initiation
    /// throttle clock restarts, a fresh receiver index enters the map,
    /// held by the new in-flight handshake, and the index of an abandoned
    /// earlier handshake toward the same peer leaves the map with the
    /// handshake it named.
    pub fn start_handshake(&mut self, pk: &[u8; 32], now: u64) -> (r: Result<
        Vec<u8>,
        HandshakeError,
    >)
        requires
            old(self).wf(),
        ensures
            final(self).wf(),
            r is Err ==> *final(self) == *old(self),
            r == Err::<Vec<u8>, HandshakeError>(HandshakeError::UnknownPublicKey)
                <==> !old(self).device.has_pk(pk@),
            r is Ok ==> ({
                let pi = old(self).device.pk_slot(pk@);
                let nid = crate::bytes::le32(r.unwrap()@.subrange(4, 8)) as u32;
                let prev = old(self).device.peers_seq()[pi].hs;
                &&& r.unwrap()@.len() == 148 && r.unwrap()@[0] == 1u8
                &&& final(self).device.ids().len() <= old(self).device.ids().len() + 1
                &&& final(self).peers@ == old(self).peers@.update(pi,
                    (Peer { last_sent_init: now, ..old(self).peers@[pi] }))
                &&& final(self).device.has_id(nid)
                &&& !old(self).device.has_id(nid)
                &&& final(self).device.ids().last().0 == nid
                &&& final(self).device.ids().last().1 == pi
                &&& final(self).device.peers_seq()[pi].hs is Some
                &&& final(self).device.peers_seq()[pi].hs.unwrap().local_id == nid
                &&& (prev is Some && prev.unwrap().local_id != nid
                    ==> !final(self).device.has_id(prev.unwrap().local_id))
            }),
    {
        let pi = match self.find_peer(pk) {
            Some(pi) => pi,
            None => {
                return Err(HandshakeError::UnknownPublicKey);
            },
        };
        proof {
            old(self).device.lemma_pk_slot_is(pk@, pi as int);
        }
        let old_hs = self.device.peers[pi].hs;
        let msg = match self.device.begin(pk) {
            Ok(m) => m,
            Err(e) => {
                return Err(e);
            },
        };
        let ghost dev1 = self.device;
        let new_id = crate::bytes::read_u32_le(msg.as_slice(), 4);
        proof {
            assert(new_id == dev1.ids().last().0);
            assert(dev1.ids().last().1 == pi);
        }
        let mut released: Option<u32> = None;
        match old_hs {
            Some(h) => {
                if h.local_id != new_id {
                    self.device.release(h.local_id);
                    released = Some(h.local_id);
                }
            },
            None => {},
        }
        let marked = &mut self.peers[pi];
        marked.last_sent_init = now;
        proof {
            let dev2 = self.device;
            assert(dev2.ids().len() > 0 && dev2.ids().last() == dev1.ids().last()) by {
                if released is Some && dev1.has_id(released.unwrap()) {
                    let j = choose|j: int| 0 <= j < dev1.ids().len()
                        && dev1.ids()[j].0 == released.unwrap()
                        && dev2.ids() == dev1.ids().remove(j);
                    assert(dev2.ids() == dev1.ids().remove(j));
                    assert(dev1.ids()[j].0 != new_id);
                    assert(j != dev1.ids().len() - 1);
                }
            }
            assert(dev2.has_id(new_id)) by {
                assert(dev2.ids()[dev2.ids().len() - 1].0 == new_id);
            }
            assert forall|i: int| 0 <= i < dev2.peers_seq().len()
                implies (#[trigger] dev2.peers_seq()[i]).identifier == i by {
                assert(old(self).device.peers_seq()[i].identifier == i);
            }
            // Every entry of the final map is an entry of the map after
            // `begin`, and each of those is still held.
            assert forall|k: int| 0 <= k < dev2.ids().len()
                implies self.id_held(#[trigger] dev2.ids()[k]) by {
                let e = if released is Some && dev1.has_id(released.unwrap()) {
                    let j = choose|j: int| 0 <= j < dev1.ids().len()
                        && dev1.ids()[j].0 == released.unwrap()
                        && dev2.ids() == dev1.ids().remove(j);
                    assert(dev2.ids() == dev1.ids().remove(j));
                    if k < j {
                        dev1.ids()[k]
                    } else {
                        dev1.ids()[k + 1]
                    }
                } else {
                    assert(dev2.ids() == dev1.ids());
                    dev1.ids()[k]
                };
                assert(e == dev2.ids()[k]);
                if e == (new_id, pi) {
                    assert(dev2.peers_seq()[pi as int].hs is Some
                        && dev2.peers_seq()[pi as int].hs.unwrap().local_id == new_id);
                } else if e.1 as int == pi as int && old(self).device.peers_seq()[pi as int].hs
                        is Some
                    && old(self).device.peers_seq()[pi as int].hs.unwrap().local_id == e.0 {
                    // Held only through the abandoned handshake: that index
                    // was either released or never lived beside the fresh
                    // one.
                    assert(old(self).id_held(e));
                    if released is Some {
                        assert(!dev2.has_id(released.unwrap()));
                        assert(e.0 != released.unwrap());
                        assert(false);
                    } else {
                        assert(e.0 == new_id);
                        assert(!old(self).device.has_id(new_id));
                        assert(old(self).device.has_id(e.0));
                        assert(false);
                    }
                } else {
                    assert(old(self).id_held(e));
                }
            }
        }
        Ok(msg)
    }

    /// Consume one handshake datagram.  An initiation yields the response
    /// to send back and parks the negotiated session in the named peer's
    /// `next`, where the first authenticated inbound packet confirms and
    /// promotes it; a response completes this side's own handshake, the
    /// confirmed session becomes `current` at once, and the new session is
    /// exercised immediately: the queued inner packets drain through it in
    /// order — or, with nothing queued, one keepalive goes out.  Every
    /// receiver index that loses its holder is released.
    #[verifier::rlimit(100)]
    pub fn process_handshake(&mut self, msg: &[u8], now: u64) -> (r: Result<
        (usize, Option<Vec<u8>>, Vec<Vec<u8>>),
        HandshakeError,
    >)
        requires
            old(self).wf(),
        ensures
            final(self).wf(),
            r is Err ==> *final(self) == *old(self),
            msg@.len() == 0 || (msg@[0] != 1u8 && msg@[0] != 2u8)
                ==> r == Err::<(usize, Option<Vec<u8>>, Vec<Vec<u8>>), HandshakeError>(
                    HandshakeError::InvalidMessageFormat),
            msg@.len() > 0 && msg@[0] == 1u8 && msg@.len() != 148
                ==> r == Err::<(usize, Option<Vec<u8>>, Vec<Vec<u8>>), HandshakeError>(
                    HandshakeError::InvalidMessageFormat),
            msg@.len() > 0 && msg@[0] == 2u8 && msg@.len() != 92
                ==> r == Err::<(usize, Option<Vec<u8>>, Vec<Vec<u8>>), HandshakeError>(
                    HandshakeError::InvalidMessageFormat),
            msg@.len() == 148 && msg@[0] == 1u8
                ==> (r == Err::<(usize, Option<Vec<u8>>, Vec<Vec<u8>>), HandshakeError>(
                        HandshakeError::InvalidMac1)
                    <==> msg@.subrange(116, 132) != crate::crypto::mac16_of(
                        crate::noise::mac1_key_of(old(self).device.pk@),
                        msg@.subrange(0, 116))),
            msg@.len() == 92 && msg@[0] == 2u8
                ==> (r == Err::<(usize, Option<Vec<u8>>, Vec<Vec<u8>>), HandshakeError>(
                        HandshakeError::InvalidMac1)
                    <==> msg@.subrange(60, 76) != crate::crypto::mac16_of(
                        crate::noise::mac1_key_of(old(self).device.pk@),
                        msg@.subrange(0, 60))),
            r is Ok ==> r.unwrap().0 < final(self).peers@.len(),
            r is Ok && msg@.len() > 0 && msg@[0] == 1u8
                ==> r.unwrap().1 is Some && r.unwrap().1.unwrap()@.len() == 92
                    && r.unwrap().2@.len() == 0,
            r is Ok && msg@.len() > 0 && msg@[0] == 2u8 ==> ({
                let pi = r.unwrap().0 as int;
                let nid = crate::bytes::le32(msg@.subrange(8, 12)) as u32;
                let q0 = old(self).peers@[pi].queue@;
                let collide = (old(self).peers@[pi].ladder.current is Some
                        && old(self).peers@[pi].ladder.current.unwrap().local_id == nid)
                    || (old(self).peers@[pi].ladder.next is Some
                        && old(self).peers@[pi].ladder.next.unwrap().local_id == nid);
                &&& r.unwrap().1 is None
                &&& (!collide ==> ({
                    let cur = final(self).peers@[pi].ladder.current.unwrap();
                    &&& final(self).peers@[pi].ladder.current is Some
                    &&& final(self).peers@[pi].queue@.len() == 0
                    &&& (q0.len() > 0 ==> r.unwrap().2@.len() == q0.len()
                        && (forall|i: int| 0 <= i < q0.len()
                            ==> (#[trigger] r.unwrap().2@[i])@
                                == transport_header(cur.remote_id, i as u64)
                                    + seal_of(cur.send_key@, nonce_of(i as u64),
                                        Seq::<u8>::empty(), q0[i]@)))
                    &&& (q0.len() == 0 ==> r.unwrap().2@.len() == 1
                        && r.unwrap().2@[0]@ == transport_header(cur.remote_id, 0u64)
                            + seal_of(cur.send_key@, nonce_of(0u64),
                                Seq::<u8>::empty(), Seq::<u8>::empty()))
                }))
            }),
    {
        let ghost dev0 = self.device;
        let out = match self.device.process(msg) {
            Ok(o) => o,
            Err(e) => {
                return Err(e);
            },
        };
        let ghost dev1 = self.device;
        let (ident, resp, kp_opt) = out;
        let kp = match kp_opt {
            Some(kp) => kp,
            None => {
                return Err(HandshakeError::InvalidMessageFormat);
            },
        };
        let t = if msg.len() > 0 { msg[0] } else { 0 };
        proof {
            assert(t == 1 || t == 2);
            assert(ident < self.peers@.len());
            if t == 2 {
                let our_id = crate::bytes::le32(msg@.subrange(8, 12)) as u32;
                dev0.lemma_id_slot_is(our_id, choose|i: int|
                    0 <= i < dev0.ids().len() && dev0.ids()[i].0 == our_id);
            }
        }
        let mut sess = Session::from_key_pair(&kp, now);
        let nid = sess.local_id;
        if t == 1 {
            // Responder side: the session waits in `next` until the first
            // authenticated inbound packet confirms and promotes it.
            sess.confirmed = false;
            let collide = {
                let lad = &self.peers[ident].ladder;
                let c1 = match &lad.current {
                    Some(s) => s.local_id == nid,
                    None => false,
                };
                let c2 = match &lad.past {
                    Some(s) => s.local_id == nid,
                    None => false,
                };
                c1 || c2
            };
            if collide {
                // A ladder slot already wears the fresh index (a random
                // collision): do not install; the index goes back.
                self.device.release(nid);
                return Ok((ident, resp, Vec::new()));
            }
            let dead = self.peers[ident].install_next(sess, now);
            match dead {
                Some(d) => {
                    if d != nid {
                        self.device.release(d);
                    }
                },
                None => {},
            }
            return Ok((ident, resp, Vec::new()));
        } else {
            // Initiator side: the confirmed session carries traffic at
            // once; the old current moves to past.
            let collide = {
                let lad = &self.peers[ident].ladder;
                let c1 = match &lad.current {
                    Some(s) => s.local_id == nid,
                    None => false,
                };
                let c2 = match &lad.next {
                    Some(s) => s.local_id == nid,
                    None => false,
                };
                c1 || c2
            };
            if collide {
                self.device.release(nid);
                return Ok((ident, resp, Vec::new()));
            }
            let dead = self.peers[ident].install_current(sess, now);
            match dead {
                Some(d) => {
                    if d != nid {
                        self.device.release(d);
                    }
                },
                None => {},
            }
        }
        // The new session is ready: drain what waited for it, or exercise
        // it once with a keepalive.
        let to_send = if self.peers[ident].queue.len() > 0 {
            self.peers[ident].drain_queue(now)
        } else {
            let mut ka: Vec<Vec<u8>> = Vec::new();
            match self.peers[ident].send_keepalive(now) {
                Some(d) => {
                    ka.push(d);
                },
                None => {},
            };
            ka
        };
        Ok((ident, resp, to_send))
    }

    /// Route one inbound transport datagram to the peer whose session
    /// holds the receiver index it names; the sender's address becomes
    /// that peer's endpoint, and the index of a session displaced out of
    /// `past` by a promotion is released.  A promotion makes a session
    /// ready, so it also drains that peer's queued inner packets in order.
    pub fn process_transport(&mut self, datagram: &[u8], src_ip: [u8; 16], src_port: u16,
        now: u64) -> (r: Result<(usize, Vec<u8>, Vec<Vec<u8>>), TransportError>)
        requires
            old(self).wf(),
        ensures
            final(self).wf(),
            r is Err ==> final(self).device == old(self).device
                && final(self).peers@ == old(self).peers@,
            forall|pi: int, pt: Seq<u8>|
                #![trigger seal_of(slot_of(old(self).peers@[pi].ladder,
                    le32(datagram@.subrange(4, 8)) as u32).unwrap().recv_key@,
                    nonce_of(le64(datagram@.subrange(8, 16)) as u64),
                    Seq::<u8>::empty(), pt)]
            ({
                let rid = le32(datagram@.subrange(4, 8)) as u32;
                let ctr = le64(datagram@.subrange(8, 16)) as u64;
                let held = slot_of(old(self).peers@[pi].ladder, rid);
                &&& 0 <= pi < old(self).peers@.len()
                &&& held is Some
                &&& (forall|j: int| 0 <= j < pi
                    ==> slot_of(old(self).peers@[j].ladder, rid) is None)
                &&& datagram@.len() >= 32
                &&& datagram@[0] == 4u8
                &&& le64(datagram@.subrange(8, 16)) < crate::types::REJECT_AFTER_MESSAGES
                &&& !held.unwrap().replay.accepted_set().contains(ctr)
                &&& ctr + crate::types::REPLAY_WINDOW >= held.unwrap().replay.high_water()
                &&& pt.len() + 32 == datagram@.len()
                &&& pt.len() < 0x3F_FFFF_FFC0
                &&& datagram@.subrange(16, datagram@.len() as int)
                    == seal_of(held.unwrap().recv_key@, nonce_of(ctr),
                        Seq::<u8>::empty(), pt)
            }) ==> r is Ok && r.unwrap().0 == pi && r.unwrap().1@ == pt,
            r is Ok ==> ({
                let pi = r.unwrap().0 as int;
                let rid = crate::bytes::le32(datagram@.subrange(4, 8)) as u32;
                let ctr = le64(datagram@.subrange(8, 16)) as u64;
                let promoted = old(self).peers@[pi].ladder.next is Some
                    && old(self).peers@[pi].ladder.next.unwrap().local_id == rid;
                &&& pi < final(self).peers@.len()
                &&& final(self).peers@[pi].endpoint == Some((src_ip, src_port))
                &&& slot_of(old(self).peers@[pi].ladder, rid) is Some
                &&& datagram@.subrange(16, datagram@.len() as int)
                    == seal_of(slot_of(old(self).peers@[pi].ladder, rid).unwrap().recv_key@,
                        nonce_of(ctr), Seq::<u8>::empty(), r.unwrap().1@)
                &&& (promoted && old(self).peers@[pi].ladder.past is Some
                    ==> !final(self).device.has_id(
                        old(self).peers@[pi].ladder.past.unwrap().local_id))
                &&& (!promoted ==> r.unwrap().2@.len() == 0
                    && final(self).peers@[pi].queue == old(self).peers@[pi].queue)
                &&& (promoted ==> ({
                    let q0 = old(self).peers@[pi].queue@;
                    &&& final(self).peers@[pi].queue@.len() == 0
                    &&& final(self).peers@[pi].ladder.current is Some
                    &&& ({
                        let cur = final(self).peers@[pi].ladder.current.unwrap();
                        let fresh = old(self).peers@[pi].ladder.next.unwrap();
                        (now < fresh.established_at + crate::types::REJECT_AFTER_TIME
                            && fresh.send_ctr + q0.len()
                                <= crate::types::REJECT_AFTER_MESSAGES)
                        ==> r.unwrap().2@.len() == q0.len()
                            && (forall|i: int| 0 <= i < q0.len()
                                ==> (#[trigger] r.unwrap().2@[i])@
                                    == transport_header(fresh.remote_id,
                                        (fresh.send_ctr + i) as u64)
                                        + seal_of(fresh.send_key@,
                                            nonce_of((fresh.send_ctr + i) as u64),
                                            Seq::<u8>::empty(), q0[i]@))
                    })
                }))
            }),
    {
        if datagram.len() < 32 {
            return Err(TransportError::InvalidMessageFormat);
        }
        if datagram[0] != 4 {
            return Err(TransportError::InvalidMessageFormat);
        }
        let rid = crate::bytes::read_u32_le(datagram, 4);
        proof {
            assert((crate::bytes::le32(datagram@.subrange(4, 8)) as u32) == rid);
        }
        let n = self.peers.len();
        let mut i: usize = 0;
        while i < n
            invariant
                i <= n && n == self.peers@.len(),
                *self == *old(self),
                old(self).wf(),
                datagram@.len() >= 32 && datagram@[0] == 4u8,
                rid == le32(datagram@.subrange(4, 8)) as u32,
                forall|j: int| 0 <= j < i
                    ==> slot_of(old(self).peers@[j].ladder, rid) is None,
            decreases n - i,
        {
            if self.peers[i].ladder.find_slot(rid).is_some() {
                let was_next = match &self.peers[i].ladder.next {
                    Some(s) => s.local_id == rid,
                    None => false,
                };
                let (plain, dead) = match self.peers[i].handle_transport(datagram, src_ip,
                    src_port, now) {
                    Ok(out) => out,
                    Err(e) => {
                        proof {
                            assert(self.peers@ =~= old(self).peers@);
                        }
                        return Err(e);
                    },
                };
                match dead {
                    Some(d) => {
                        self.device.release(d);
                    },
                    None => {},
                }
                // A promotion just made this session ready: drain what
                // waited for it.
                let drained = if was_next && self.peers[i].queue.len() > 0 {
                    proof {
                        assert(self.peers@[i as int].ladder.current is Some);
                    }
                    self.peers[i].drain_queue(now)
                } else {
                    Vec::new()
                };
                return Ok((i, plain, drained));
            }
            i = i + 1;
        }
        Err(TransportError::UnknownReceiverId)
    }


    /// Accept a cookie reply: a 64-byte type-3 datagram naming a live
    /// receiver index.  Its nonce and sealed cookie are kept on the mapped
    /// peer for the cookie validator, which sits outside this core; MAC2
    /// stays zero until one is in place.
    pub fn process_cookie_reply(&mut self, datagram: &[u8]) -> (r: Result<
        usize,
        HandshakeError,
    >)
        requires
            old(self).wf(),
        ensures
            final(self).wf(),
            r is Err ==> *final(self) == *old(self),
            r == Err::<usize, HandshakeError>(HandshakeError::InvalidMessageFormat)
                <==> (datagram@.len() != 64 || datagram@[0] != 3u8),
            datagram@.len() == 64 && datagram@[0] == 3u8
                ==> (r == Err::<usize, HandshakeError>(HandshakeError::UnknownReceiverId)
                    <==> !old(self).device.has_id(le32(datagram@.subrange(4, 8)) as u32)),
            r is Ok ==> ({
                let pi = r.unwrap() as int;
                &&& pi < final(self).peers@.len()
                &&& final(self).device == old(self).device
                &&& final(self).peers@ == old(self).peers@.update(pi, (Peer {
                    cookie_reply: Some(final(self).peers@[pi].cookie_reply.unwrap()),
                    ..old(self).peers@[pi]
                }))
                &&& final(self).peers@[pi].cookie_reply is Some
                &&& final(self).peers@[pi].cookie_reply.unwrap()@
                    == datagram@.subrange(8, 64)
            }),
    {
        if datagram.len() != 64 {
            return Err(HandshakeError::InvalidMessageFormat);
        }
        if datagram[0] != 3 {
            return Err(HandshakeError::InvalidMessageFormat);
        }
        let rid = crate::bytes::read_u32_le(datagram, 4);
        let n = self.device.id_map.len();
        let mut k: usize = 0;
        while k < n
            invariant
                k <= n && n == self.device.ids().len(),
                *self == *old(self),
                old(self).wf(),
                datagram@.len() == 64 && datagram@[0] == 3u8,
                rid == le32(datagram@.subrange(4, 8)) as u32,
                forall|j: int| 0 <= j < k ==> old(self).device.ids()[j].0 != rid,
            decreases n - k,
        {
            if self.device.id_map[k].0 == rid {
                let pi = self.device.id_map[k].1;
                let body = crate::bytes::copy_range(datagram, 8, 64);
                let marked = &mut self.peers[pi];
                marked.cookie_reply = Some(body);
                proof {
                    assert forall|j: int| 0 <= j < self.device.ids().len()
                        implies self.id_held(#[trigger] self.device.ids()[j]) by {
                        assert(old(self).id_held(old(self).device.ids()[j]));
                    }
                }
                return Ok(pi);
            }
            k = k + 1;
        }
        Err(HandshakeError::UnknownReceiverId)
    }

    /// Let a timer firing act on the peer it was armed for: the returned
    /// action is exactly the one the timer table prescribes for that
    /// peer's state, and when it destroys a session the receiver index is
    /// no longer live.
    pub fn timer_fired(&mut self, pi: usize, msg: TimerMessage, now: u64) -> (r: TimerAction)
        requires
            old(self).wf(),
            pi < old(self).peers@.len(),
        ensures
            final(self).wf(),
            final(self).peers@.len() == old(self).peers@.len(),
            r == crate::peer::timer_decision(old(self).peers@[pi as int], msg, now),
            forall|j: int| 0 <= j < old(self).peers@.len() && j != pi
                ==> final(self).peers@[j] == old(self).peers@[j],
            r matches TimerAction::Destroyed(id) ==> !final(self).device.has_id(id),
    {
        let action = self.peers[pi].handle_timer(msg, now);
        match action {
            TimerAction::Destroyed(id) => {
                self.device.release(id);
            },
            _ => {},
        }
        action
    }

    /// Accept one inner packet bound for peer `pi`: queue it and, when a
    /// session is ready, drain the whole queue into transport datagrams,
    /// front first, one consecutive counter each.
    pub fn send_packet(&mut self, pi: usize, pkt: Vec<u8>, now: u64) -> (r: Result<
        Vec<Vec<u8>>,
        TransportError,
    >)
        requires
            old(self).wf(),
            pi < old(self).peers@.len(),
        ensures
            final(self).wf(),
            r is Err ==> final(self).device == old(self).device
                && final(self).peers@ == old(self).peers@,
            r == Err::<Vec<Vec<u8>>, TransportError>(TransportError::Oversize)
                <==> (pkt@.len() == 0 || pkt@.len() > crate::types::MAX_CONTENT_SIZE),
            r is Ok <==> (0 < pkt@.len() <= crate::types::MAX_CONTENT_SIZE),
            r is Ok && old(self).peers@[pi as int].ladder.current is Some
                ==> final(self).peers@[pi as int].queue@.len() == 0,
            r is Ok && old(self).peers@[pi as int].ladder.current is Some
                && old(self).peers@[pi as int].queue@.len()
                    < crate::types::MAX_QUEUED_PACKETS ==> ({
                let cur = old(self).peers@[pi as int].ladder.current.unwrap();
                let q1 = old(self).peers@[pi as int].queue@.push(pkt);
                (now < cur.established_at + crate::types::REJECT_AFTER_TIME
                    && cur.send_ctr + q1.len() <= crate::types::REJECT_AFTER_MESSAGES)
                ==> r.unwrap()@.len() == q1.len()
                    && (forall|i: int| 0 <= i < q1.len()
                        ==> (#[trigger] r.unwrap()@[i])@
                            == transport_header(cur.remote_id, (cur.send_ctr + i) as u64)
                                + seal_of(cur.send_key@, nonce_of((cur.send_ctr + i) as u64),
                                    Seq::<u8>::empty(), q1[i]@))
            }),
    {
        let r = self.peers[pi].handle_egress(pkt, now);
        proof {
            if r is Err {
                assert(self.peers@ =~= old(self).peers@);
            }
        }
        r
    }
}

} // verus!
