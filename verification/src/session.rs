//! Transport sessions and the per-peer session ladder: the symmetric keys
//! with their nonce counters and anti-replay window, the framing and
//! unframing of type-4 datagrams, and the promotion of a freshly confirmed
//! session through the `next` / `current` / `past` slots.

use vstd::prelude::*;
use crate::types::KeyPair;
use crate::types::TransportError;
use crate::types::REJECT_AFTER_MESSAGES;
use crate::types::REPLAY_WINDOW;
use crate::types::REJECT_AFTER_TIME;
use crate::types::MAX_CONTENT_SIZE;
use crate::replay::ReplayWindow;
use crate::crypto::seal_of;
use crate::bytes::le32;
use crate::bytes::le64;
use crate::bytes::le32_bytes;
use crate::bytes::le64_bytes;

verus! {

/// The 12-byte transport nonce: four zero bytes then the counter,
/// little-endian.
#[verifier::opaque]
pub open spec fn nonce_of(ctr: u64) -> Seq<u8> {
    seq![0u8, 0u8, 0u8, 0u8] + le64_bytes(ctr)
}

/// The type-4 header: tag byte, three reserved zeros, the receiver index
/// and the counter.
#[verifier::opaque]
pub open spec fn transport_header(receiver: u32, ctr: u64) -> Seq<u8> {
    seq![4u8, 0u8, 0u8, 0u8] + le32_bytes(receiver) + le64_bytes(ctr)
}

/// One unidirectional-confirmed pair of transport keys with its counters,
/// replay window and liveness clocks.
pub struct Session {
    /// The receiver index this side allocated: inbound datagrams carry it.
    pub local_id: u32,
    /// The index the remote end allocated: outbound datagrams carry it.
    pub remote_id: u32,
    pub send_key: [u8; 32],
    pub recv_key: [u8; 32],
    pub send_ctr: u64,
    pub replay: ReplayWindow,
    pub established_at: u64,
    pub last_sent: u64,
    pub last_received: u64,
    pub confirmed: bool,
    pub keepalive_sent: bool,
}

impl Session {
    /// The session's replay bookkeeping is sound and its send counter has
    /// not outrun the message bound.
    pub open spec fn wf(self) -> bool {
        &&& self.replay.wf()
        &&& self.send_ctr <= REJECT_AFTER_MESSAGES
    }

    /// Wrap the keys a completed handshake produced into a session.
    pub fn from_key_pair(kp: &KeyPair, now: u64) -> (r: Session)
        ensures
            r.wf(),
            r.local_id == kp.send.id,
            r.remote_id == kp.recv.id,
            r.send_key@ == kp.send.key@,
            r.recv_key@ == kp.recv.key@,
            r.send_ctr == 0,
            r.confirmed == kp.confirmed,
            r.established_at == now,
            r.replay.accepted_set() == Set::<u64>::empty(),
    {
        Session {
            local_id: kp.send.id,
            remote_id: kp.recv.id,
            send_key: kp.send.key,
            recv_key: kp.recv.key,
            send_ctr: 0,
            replay: ReplayWindow::new(),
            established_at: now,
            last_sent: now,
            last_received: now,
            confirmed: kp.confirmed,
            keepalive_sent: false,
        }
    }

    /// Frame and seal one outbound inner packet (empty for a keepalive).
    /// Succeeds exactly while the session is young enough and its counter
    /// is below the message bound; the counter is assigned monotonically,
    /// one value per datagram.
    #[verifier::rlimit(80)]
    pub fn encrypt_transport(&mut self, payload: &[u8], now: u64) -> (r: Result<
        Vec<u8>,
        TransportError,
    >)
        requires
            old(self).wf(),
            payload@.len() <= MAX_CONTENT_SIZE,
        ensures
            final(self).wf(),
            r is Err ==> *final(self) == *old(self),
            r == Err::<Vec<u8>, TransportError>(TransportError::ExpiredSession)
                <==> (now >= old(self).established_at + REJECT_AFTER_TIME
                    || old(self).send_ctr == REJECT_AFTER_MESSAGES),
            r is Ok <==> (now < old(self).established_at + REJECT_AFTER_TIME
                && old(self).send_ctr < REJECT_AFTER_MESSAGES),
            r is Ok ==> {
                &&& r.unwrap()@ == transport_header(old(self).remote_id, old(self).send_ctr)
                    + seal_of(old(self).send_key@, nonce_of(old(self).send_ctr),
                        Seq::empty(), payload@)
                &&& r.unwrap()@.len() == 32 + payload@.len()
                &&& final(self).send_ctr == old(self).send_ctr + 1
                &&& final(self).last_sent == now
                &&& final(self).replay == old(self).replay
                &&& final(self).local_id == old(self).local_id
                &&& final(self).remote_id == old(self).remote_id
                &&& final(self).send_key == old(self).send_key
                &&& final(self).recv_key == old(self).recv_key
                &&& final(self).confirmed == old(self).confirmed
                &&& final(self).established_at == old(self).established_at
                &&& final(self).last_received == old(self).last_received
                &&& final(self).keepalive_sent == old(self).keepalive_sent
            },
    {
        if self.send_ctr == REJECT_AFTER_MESSAGES {
            return Err(TransportError::ExpiredSession);
        }
        if now >= self.established_at && now - self.established_at >= REJECT_AFTER_TIME {
            return Err(TransportError::ExpiredSession);
        }
        let ctr = self.send_ctr;
        let nonce = make_nonce(ctr);
        let nothing: [u8; 0] = [];
        proof {
            assert(nothing@ =~= Seq::<u8>::empty());
        }
        let sealed = crate::crypto::aead_seal(&self.send_key, &nonce, nothing.as_slice(), payload);
        let mut out = make_transport_header(self.remote_id, ctr);
        crate::bytes::push_all(&mut out, sealed.as_slice());
        self.send_ctr = ctr + 1;
        self.last_sent = now;
        Ok(out)
    }

    /// Unframe and open one inbound type-4 datagram addressed to this
    /// session.  A datagram is accepted exactly when it is well-formed,
    /// authentic under the receive key, and carries a counter the replay
    /// window has never accepted and that is not below the window; the
    /// accepted counter joins the window and the session becomes confirmed.
    #[verifier::rlimit(80)]
    pub fn decrypt_transport(&mut self, datagram: &[u8], now: u64) -> (r: Result<
        Vec<u8>,
        TransportError,
    >)
        requires
            old(self).wf(),
        ensures
            final(self).wf(),
            r is Err ==> *final(self) == *old(self),
            r == Err::<Vec<u8>, TransportError>(TransportError::InvalidMessageFormat)
                <==> (datagram@.len() < 32 || datagram@[0] != 4u8),
            datagram@.len() >= 32 && datagram@[0] == 4u8
                ==> (r == Err::<Vec<u8>, TransportError>(TransportError::UnknownReceiverId)
                    <==> le32(datagram@.subrange(4, 8)) != old(self).local_id),
            datagram@.len() >= 32 && datagram@[0] == 4u8
                && le32(datagram@.subrange(4, 8)) == old(self).local_id
                ==> (r == Err::<Vec<u8>, TransportError>(TransportError::ExpiredSession)
                    <==> le64(datagram@.subrange(8, 16)) >= REJECT_AFTER_MESSAGES),
            r == Err::<Vec<u8>, TransportError>(TransportError::Replay)
                ==> (old(self).replay.accepted_set().contains(
                        le64(datagram@.subrange(8, 16)) as u64)
                    || (le64(datagram@.subrange(8, 16)) as u64) + REPLAY_WINDOW
                        < old(self).replay.high_water()),
            forall|pt: Seq<u8>| ({
                &&& datagram@.len() >= 32
                &&& datagram@[0] == 4u8
                &&& le32(datagram@.subrange(4, 8)) == old(self).local_id
                &&& le64(datagram@.subrange(8, 16)) < REJECT_AFTER_MESSAGES
                &&& !old(self).replay.accepted_set().contains(
                    le64(datagram@.subrange(8, 16)) as u64)
                &&& (le64(datagram@.subrange(8, 16)) as u64) + REPLAY_WINDOW
                    >= old(self).replay.high_water()
                &&& pt.len() + 32 == datagram@.len()
                &&& pt.len() < 0x3F_FFFF_FFC0
                &&& datagram@.subrange(16, datagram@.len() as int)
                    == #[trigger] seal_of(old(self).recv_key@,
                        nonce_of(le64(datagram@.subrange(8, 16)) as u64), Seq::empty(), pt)
            }) ==> r is Ok && r.unwrap()@ == pt,
            r is Ok ==> {
                &&& datagram@.len() >= 32
                &&& datagram@[0] == 4u8
                &&& le32(datagram@.subrange(4, 8)) == old(self).local_id
                &&& datagram@.subrange(16, datagram@.len() as int)
                    == seal_of(old(self).recv_key@,
                        nonce_of(le64(datagram@.subrange(8, 16)) as u64),
                        Seq::empty(), r.unwrap()@)
                &&& !old(self).replay.accepted_set().contains(
                    le64(datagram@.subrange(8, 16)) as u64)
                &&& final(self).replay.accepted_set()
                    == old(self).replay.accepted_set().insert(
                        le64(datagram@.subrange(8, 16)) as u64)
                &&& (le64(datagram@.subrange(8, 16)) as u64) + REPLAY_WINDOW
                    >= old(self).replay.high_water()
                &&& final(self).confirmed
                &&& final(self).last_received == now
                &&& final(self).send_ctr == old(self).send_ctr
                &&& final(self).local_id == old(self).local_id
                &&& final(self).remote_id == old(self).remote_id
                &&& final(self).send_key == old(self).send_key
                &&& final(self).recv_key == old(self).recv_key
                &&& final(self).established_at == old(self).established_at
                &&& final(self).last_sent == old(self).last_sent
                &&& final(self).keepalive_sent == false
            },
    {
        if datagram.len() < 32 {
            return Err(TransportError::InvalidMessageFormat);
        }
        if datagram[0] != 4 {
            return Err(TransportError::InvalidMessageFormat);
        }
        let rid = crate::bytes::read_u32_le(datagram, 4);
        if rid != self.local_id {
            return Err(TransportError::UnknownReceiverId);
        }
        let ctr = crate::bytes::read_u64_le(datagram, 8);
        if ctr >= REJECT_AFTER_MESSAGES {
            return Err(TransportError::ExpiredSession);
        }
        let nonce = make_nonce(ctr);
        let ct = crate::bytes::copy_range(datagram, 16, datagram.len());
        let nothing: [u8; 0] = [];
        proof {
            assert(nothing@ =~= Seq::<u8>::empty());
            assert((le64(datagram@.subrange(8, 16)) as u64) == ctr);
            assert((le32(datagram@.subrange(4, 8)) as u32) == rid);
        }
        let pt = match crate::crypto::aead_open(&self.recv_key, &nonce, nothing.as_slice(),
            ct.as_slice()) {
            Some(p) => p,
            None => {
                return Err(TransportError::Decryption);
            },
        };
        if !self.replay.check_and_update(ctr) {
            return Err(TransportError::Replay);
        }
        self.confirmed = true;
        self.last_received = now;
        self.keepalive_sent = false;
        Ok(pt)
    }
}


/// The 12-byte transport nonce for a counter, as an array.
fn make_nonce(ctr: u64) -> (r: [u8; 12])
    ensures r@ == nonce_of(ctr),
{
    let mut nonce_v: Vec<u8> = Vec::new();
    nonce_v.push(0);
    nonce_v.push(0);
    nonce_v.push(0);
    nonce_v.push(0);
    crate::bytes::put_u64_le(&mut nonce_v, ctr);
    let nonce = take_12(nonce_v.as_slice());
    proof {
        reveal(nonce_of);
        assert(nonce_v@.len() == 12);
        assert(nonce@ =~= nonce_v@);
        assert(nonce_v@ == seq![0u8, 0u8, 0u8, 0u8] + le64_bytes(ctr)) by {
            assert(nonce_v@.subrange(0, 4) =~= seq![0u8, 0u8, 0u8, 0u8]);
            assert(nonce_v@ =~= nonce_v@.subrange(0, 4) + le64_bytes(ctr));
        }
    }
    nonce
}

/// The 16-byte transport header, framed.
fn make_transport_header(receiver: u32, ctr: u64) -> (r: Vec<u8>)
    ensures
        r@ == transport_header(receiver, ctr),
        r@.len() == 16,
{
    let mut out: Vec<u8> = Vec::new();
    out.push(4);
    out.push(0);
    out.push(0);
    out.push(0);
    crate::bytes::put_u32_le(&mut out, receiver);
    proof {
        assert(out@ =~= seq![4u8, 0u8, 0u8, 0u8] + le32_bytes(receiver));
    }
    crate::bytes::put_u64_le(&mut out, ctr);
    proof {
        reveal(transport_header);
        assert(out@ == (seq![4u8, 0u8, 0u8, 0u8] + le32_bytes(receiver)) + le64_bytes(ctr));
        assert((seq![4u8, 0u8, 0u8, 0u8] + le32_bytes(receiver)) + le64_bytes(ctr)
            =~= seq![4u8, 0u8, 0u8, 0u8] + le32_bytes(receiver) + le64_bytes(ctr));
    }
    out
}

/// The first 12 bytes of a slice, as an array.
fn take_12(src: &[u8]) -> (r: [u8; 12])
    requires src@.len() >= 12,
    ensures r@ == src@.subrange(0, 12),
{
    let mut out: [u8; 12] = [0; 12];
    let n = src.len();
    let mut i: usize = 0;
    while i < 12
        invariant
            i <= 12,
            12 <= n && n == src@.len(),
            forall|j: int| 0 <= j < i ==> out@[j] == src@[j],
        decreases 12 - i,
    {
        out[i] = src[i];
        i = i + 1;
    }
    proof {
        assert(out@ =~= src@.subrange(0, 12));
    }
    out
}

/// The session of the slot holding receiver index `rid`, searched in the
/// order the receive path uses: `next`, then `current`, then `past`.
pub open spec fn slot_of(lad: SessionLadder, rid: u32) -> Option<Session> {
    if lad.next is Some && lad.next.unwrap().local_id == rid {
        lad.next
    } else if lad.current is Some && lad.current.unwrap().local_id == rid {
        lad.current
    } else if lad.past is Some && lad.past.unwrap().local_id == rid {
        lad.past
    } else {
        None
    }
}

/// The three session slots of one peer.  `next` holds a handshake this
/// side completed as initiator and the remote has not yet confirmed;
/// `current` is the most recent confirmed session; `past` is kept only to
/// decrypt in-flight datagrams.
pub struct SessionLadder {
    pub next: Option<Session>,
    pub current: Option<Session>,
    pub past: Option<Session>,
}

impl SessionLadder {
    /// Every held session is sound, their receiver indexes are pairwise
    /// distinct, and a session waiting in `next` is never confirmed.
    pub open spec fn wf(self) -> bool {
        &&& self.next is Some ==> self.next.unwrap().wf() && !self.next.unwrap().confirmed
        &&& self.current is Some ==> self.current.unwrap().wf()
        &&& self.past is Some ==> self.past.unwrap().wf()
        &&& self.next is Some && self.current is Some
            ==> self.next.unwrap().local_id != self.current.unwrap().local_id
        &&& self.next is Some && self.past is Some
            ==> self.next.unwrap().local_id != self.past.unwrap().local_id
        &&& self.current is Some && self.past is Some
            ==> self.current.unwrap().local_id != self.past.unwrap().local_id
    }

    /// No session in any slot.
    pub fn new() -> (r: SessionLadder)
        ensures r.wf(), r.next is None, r.current is None, r.past is None,
    {
        SessionLadder { next: None, current: None, past: None }
    }

    /// The slot holding the session with receiver index `id`: 0 for
    /// `next`, 1 for `current`, 2 for `past`.
    pub fn find_slot(&self, id: u32) -> (r: Option<u8>)
        ensures
            r is Some ==> r.unwrap() <= 2,
            r is Some <==> slot_of(*self, id) is Some,
            r == Some(0u8) <==> self.next is Some && self.next.unwrap().local_id == id,
            r == Some(1u8) <==> (self.current is Some && self.current.unwrap().local_id == id
                && !(self.next is Some && self.next.unwrap().local_id == id)),
            r == Some(2u8) <==> (self.past is Some && self.past.unwrap().local_id == id
                && !(self.next is Some && self.next.unwrap().local_id == id)
                && !(self.current is Some && self.current.unwrap().local_id == id)),
    {
        if let Some(s) = &self.next {
            if s.local_id == id {
                return Some(0);
            }
        }
        if let Some(s) = &self.current {
            if s.local_id == id {
                return Some(1);
            }
        }
        if let Some(s) = &self.past {
            if s.local_id == id {
                return Some(2);
            }
        }
        None
    }

    /// Promote the session holding `id` out of `next`: it becomes
    /// `current`, the old `current` moves to `past`, and the receiver
    /// index of the session that leaves `past`, if one does, is returned
    /// for release.  Promoting a session already in `current` — or any
    /// `id` not waiting in `next` — changes nothing: promotion is
    /// idempotent.
    pub fn promote(&mut self, id: u32) -> (r: Option<u32>)
        requires
            old(self).wf(),
        ensures
            final(self).wf(),
            old(self).next is Some && old(self).next.unwrap().local_id == id ==> {
                &&& final(self).next is None
                &&& final(self).current is Some
                &&& final(self).current.unwrap().local_id == id
                &&& final(self).current.unwrap().confirmed
                &&& final(self).past == old(self).current
                &&& r == (if old(self).past is Some {
                    Some(old(self).past.unwrap().local_id)
                } else {
                    None::<u32>
                })
            },
            !(old(self).next is Some && old(self).next.unwrap().local_id == id) ==> {
                &&& *final(self) == *old(self)
                &&& r is None
            },
    {
        let promote_now = match &self.next {
            Some(s) => s.local_id == id,
            None => false,
        };
        if !promote_now {
            return None;
        }
        let dead = match &self.past {
            Some(s) => Some(s.local_id),
            None => None,
        };
        let mut moved = self.next.take();
        if let Some(m) = &mut moved {
            m.confirmed = true;
        }
        self.past = self.current.take();
        self.current = moved;
        dead
    }

    /// Route one inbound type-4 datagram to the slot whose session holds
    /// the receiver index it carries, open it there, and promote a session
    /// decrypting in `next`: it becomes `current`, the old `current` moves
    /// to `past`, and the receiver index of a session leaving `past` is
    /// returned for release.  Any rejection leaves every slot untouched.
    pub fn handle_transport(&mut self, datagram: &[u8], now: u64) -> (r: Result<
        (Vec<u8>, Option<u32>),
        TransportError,
    >)
        requires
            old(self).wf(),
        ensures
            final(self).wf(),
            r is Err ==> *final(self) == *old(self),
            r == Err::<(Vec<u8>, Option<u32>), TransportError>(TransportError::InvalidMessageFormat)
                ==> (datagram@.len() < 32 || datagram@[0] != 4u8),
            datagram@.len() >= 32 && datagram@[0] == 4u8
                && !(old(self).next is Some && old(self).next.unwrap().local_id
                    == le32(datagram@.subrange(4, 8)))
                && !(old(self).current is Some && old(self).current.unwrap().local_id
                    == le32(datagram@.subrange(4, 8)))
                && !(old(self).past is Some && old(self).past.unwrap().local_id
                    == le32(datagram@.subrange(4, 8)))
                ==> r == Err::<(Vec<u8>, Option<u32>), TransportError>(
                    TransportError::UnknownReceiverId),
            forall|pt: Seq<u8>|
                #![trigger seal_of(slot_of(*old(self), le32(datagram@.subrange(4, 8)) as u32)
                    .unwrap().recv_key@, nonce_of(le64(datagram@.subrange(8, 16)) as u64),
                    Seq::<u8>::empty(), pt)]
            ({
                let rid = le32(datagram@.subrange(4, 8)) as u32;
                let ctr = le64(datagram@.subrange(8, 16)) as u64;
                let held = slot_of(*old(self), rid);
                &&& datagram@.len() >= 32
                &&& datagram@[0] == 4u8
                &&& held is Some
                &&& le64(datagram@.subrange(8, 16)) < REJECT_AFTER_MESSAGES
                &&& !held.unwrap().replay.accepted_set().contains(ctr)
                &&& ctr + REPLAY_WINDOW >= held.unwrap().replay.high_water()
                &&& pt.len() + 32 == datagram@.len()
                &&& pt.len() < 0x3F_FFFF_FFC0
                &&& datagram@.subrange(16, datagram@.len() as int)
                    == seal_of(held.unwrap().recv_key@, nonce_of(ctr),
                        Seq::<u8>::empty(), pt)
            }) ==> r is Ok && r.unwrap().0@ == pt,
            r is Ok ==> ({
                let rid = le32(datagram@.subrange(4, 8)) as u32;
                let ctr = le64(datagram@.subrange(8, 16)) as u64;
                if old(self).next is Some && old(self).next.unwrap().local_id == rid {
                    let os = old(self).next.unwrap();
                    &&& final(self).next is None
                    &&& final(self).current is Some
                    &&& final(self).current.unwrap().local_id == rid
                    &&& final(self).current.unwrap().confirmed
                    &&& final(self).current.unwrap().send_key == os.send_key
                    &&& final(self).current.unwrap().send_ctr == os.send_ctr
                    &&& final(self).current.unwrap().remote_id == os.remote_id
                    &&& final(self).current.unwrap().established_at == os.established_at
                    &&& final(self).past == old(self).current
                    &&& r.unwrap().1 == (if old(self).past is Some {
                        Some(old(self).past.unwrap().local_id)
                    } else {
                        None::<u32>
                    })
                    &&& datagram@.subrange(16, datagram@.len() as int)
                        == seal_of(os.recv_key@, nonce_of(ctr), Seq::empty(), r.unwrap().0@)
                    &&& !os.replay.accepted_set().contains(ctr)
                    &&& final(self).current.unwrap().replay.accepted_set()
                        == os.replay.accepted_set().insert(ctr)
                } else if old(self).current is Some
                    && old(self).current.unwrap().local_id == rid {
                    let os = old(self).current.unwrap();
                    &&& final(self).next == old(self).next
                    &&& final(self).past == old(self).past
                    &&& final(self).current is Some
                    &&& final(self).current.unwrap().local_id == rid
                    &&& final(self).current.unwrap().confirmed
                    &&& r.unwrap().1 is None
                    &&& datagram@.subrange(16, datagram@.len() as int)
                        == seal_of(os.recv_key@, nonce_of(ctr), Seq::empty(), r.unwrap().0@)
                    &&& !os.replay.accepted_set().contains(ctr)
                    &&& final(self).current.unwrap().replay.accepted_set()
                        == os.replay.accepted_set().insert(ctr)
                } else {
                    let os = old(self).past.unwrap();
                    &&& old(self).past is Some && os.local_id == rid
                    &&& final(self).next == old(self).next
                    &&& final(self).current == old(self).current
                    &&& final(self).past is Some
                    &&& final(self).past.unwrap().local_id == rid
                    &&& r.unwrap().1 is None
                    &&& datagram@.subrange(16, datagram@.len() as int)
                        == seal_of(os.recv_key@, nonce_of(ctr), Seq::empty(), r.unwrap().0@)
                    &&& !os.replay.accepted_set().contains(ctr)
                    &&& final(self).past.unwrap().replay.accepted_set()
                        == os.replay.accepted_set().insert(ctr)
                }
            }),
    {
        if datagram.len() < 32 {
            return Err(TransportError::InvalidMessageFormat);
        }
        if datagram[0] != 4 {
            return Err(TransportError::InvalidMessageFormat);
        }
        let rid = crate::bytes::read_u32_le(datagram, 4);
        match self.find_slot(rid) {
            Some(0) => {
                let pt = match &mut self.next {
                    Some(s) => {
                        match s.decrypt_transport(datagram, now) {
                            Ok(p) => p,
                            Err(e) => {
                                return Err(e);
                            },
                        }
                    },
                    None => {
                        return Err(TransportError::UnknownReceiverId);
                    },
                };
                // Promote: the freshly confirmed session becomes current.
                let dead = match &self.past {
                    Some(s) => Some(s.local_id),
                    None => None,
                };
                self.past = self.current.take();
                self.current = self.next.take();
                Ok((pt, dead))
            },
            Some(1) => {
                let pt = match &mut self.current {
                    Some(s) => {
                        match s.decrypt_transport(datagram, now) {
                            Ok(p) => p,
                            Err(e) => {
                                return Err(e);
                            },
                        }
                    },
                    None => {
                        return Err(TransportError::UnknownReceiverId);
                    },
                };
                Ok((pt, None))
            },
            Some(2) => {
                let pt = match &mut self.past {
                    Some(s) => {
                        match s.decrypt_transport(datagram, now) {
                            Ok(p) => p,
                            Err(e) => {
                                return Err(e);
                            },
                        }
                    },
                    None => {
                        return Err(TransportError::UnknownReceiverId);
                    },
                };
                Ok((pt, None))
            },
            _ => Err(TransportError::UnknownReceiverId),
        }
    }
}

} // verus!
