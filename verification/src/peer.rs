//! Per-peer transport state above a single session: the session ladder,
//! the bounded queue of outbound inner packets, and the decisions taken
//! when a timer fires.  Timers are non-authoritative reminders: every
//! handler re-checks the condition that armed it against the clock value
//! the caller passes in, and a firing for a session no longer in a live
//! slot does nothing.

use vstd::prelude::*;
use crate::session::Session;
use crate::session::SessionLadder;
use crate::session::slot_of;
use crate::session::nonce_of;
use crate::session::transport_header;
use crate::crypto::seal_of;
use crate::bytes::le32;
use crate::bytes::le64;
use crate::types::MAX_CONTENT_SIZE;
use crate::types::REJECT_AFTER_MESSAGES;
use crate::types::REJECT_AFTER_TIME;
use crate::types::TransportError;
use crate::types::KEEPALIVE_TIMEOUT;
use crate::types::MAX_QUEUED_PACKETS;
use crate::types::REKEY_AFTER_TIME;
use crate::types::REKEY_ATTEMPT_TIME;
use crate::types::REKEY_TIMEOUT;

verus! {

/// A timer firing, naming the receiver index of the session it was armed
/// for.
#[derive(Clone, Copy, PartialEq, Eq, Structural, Debug)]
pub enum TimerMessage {
    /// Retransmit or renew the handshake.
    Rekey(u32),
    /// Destroy the session outright.
    Reject(u32),
    /// Answer received traffic that was never answered.
    PassiveKeepalive(u32),
    /// Keep the path open unconditionally.
    PersistentKeepalive(u32),
}

/// What the caller must do after a timer fired.
#[derive(Clone, Copy, PartialEq, Eq, Structural, Debug)]
pub enum TimerAction {
    /// Drop the firing silently.
    Nothing,
    /// Arm the same timer again after this many seconds.
    Retry(u64),
    /// Send a fresh handshake initiation for this peer.
    SendHandshakeInit,
    /// Send an empty transport datagram, then re-arm after this many
    /// seconds.
    SendKeepalive(u64),
    /// The session holding this receiver index was destroyed: release the
    /// index.
    Destroyed(u32),
}

/// The action the timer table prescribes for a firing, given the peer's
/// state and the clock.
pub open spec fn timer_decision(p: Peer, msg: TimerMessage, now: u64) -> TimerAction {
    match msg {
        TimerMessage::Rekey(id) => {
            if p.ladder.next is Some && p.ladder.next.unwrap().local_id == id {
                if p.last_sent_init <= now < p.last_sent_init + REKEY_TIMEOUT {
                    TimerAction::Retry((p.last_sent_init + REKEY_TIMEOUT - now) as u64)
                } else if now > p.last_tun_queue + REKEY_ATTEMPT_TIME {
                    TimerAction::Nothing
                } else {
                    TimerAction::SendHandshakeInit
                }
            } else if p.ladder.current is Some && p.ladder.current.unwrap().local_id == id {
                if p.last_handshake <= now <= p.last_handshake + REKEY_AFTER_TIME {
                    TimerAction::Retry((p.last_handshake + REKEY_AFTER_TIME - now) as u64)
                } else {
                    TimerAction::SendHandshakeInit
                }
            } else {
                TimerAction::Nothing
            }
        },
        TimerMessage::Reject(id) => {
            if (p.ladder.next is Some && p.ladder.next.unwrap().local_id == id)
                || (p.ladder.current is Some && p.ladder.current.unwrap().local_id == id)
                || (p.ladder.past is Some && p.ladder.past.unwrap().local_id == id) {
                TimerAction::Destroyed(id)
            } else {
                TimerAction::Nothing
            }
        },
        TimerMessage::PassiveKeepalive(id) => {
            if p.ladder.current is Some && p.ladder.current.unwrap().local_id == id {
                let cur = p.ladder.current.unwrap();
                if cur.last_received <= now < cur.last_received + KEEPALIVE_TIMEOUT {
                    TimerAction::Retry((cur.last_received + KEEPALIVE_TIMEOUT - now) as u64)
                } else if cur.last_sent <= now < cur.last_sent + KEEPALIVE_TIMEOUT {
                    TimerAction::Retry((cur.last_sent + KEEPALIVE_TIMEOUT - now) as u64)
                } else if cur.keepalive_sent {
                    TimerAction::Retry(KEEPALIVE_TIMEOUT)
                } else {
                    TimerAction::SendKeepalive(KEEPALIVE_TIMEOUT)
                }
            } else {
                TimerAction::Nothing
            }
        },
        TimerMessage::PersistentKeepalive(id) => {
            if p.ladder.current is Some && p.ladder.current.unwrap().local_id == id
                && p.keepalive > 0 {
                TimerAction::SendKeepalive(p.keepalive as u64)
            } else {
                TimerAction::Nothing
            }
        },
    }
}

/// One peer of the transport layer: its session ladder, its queue of
/// not-yet-sendable inner packets, and the clocks its timers consult.
pub struct Peer {
    pub ladder: SessionLadder,
    pub queue: Vec<Vec<u8>>,
    /// Persistent-keepalive interval in seconds; 0 when not configured.
    pub keepalive: u32,
    /// Last known remote address: an IP (16 bytes, IPv4 in the low four)
    /// and a UDP port, updated on every authenticated inbound datagram.
    pub endpoint: Option<([u8; 16], u16)>,
    /// The body of the last cookie reply addressed to this peer's
    /// handshake: the 24-byte nonce and the sealed cookie, kept at the
    /// interface for the cookie validator, which lives outside this core.
    pub cookie_reply: Option<Vec<u8>>,
    pub last_sent_init: u64,
    pub last_handshake: u64,
    pub last_tun_queue: u64,
}

impl Peer {
    /// The ladder is sound and the queue within its bound.
    pub open spec fn wf(self) -> bool {
        &&& self.ladder.wf()
        &&& self.queue@.len() <= MAX_QUEUED_PACKETS
        &&& forall|i: int| 0 <= i < self.queue@.len()
            ==> (#[trigger] self.queue@[i])@.len() <= MAX_CONTENT_SIZE
    }

    /// A peer with no sessions, an empty queue and no keepalive.
    pub fn new(keepalive: u32) -> (r: Peer)
        ensures
            r.wf(),
            r.queue@.len() == 0,
            r.keepalive == keepalive,
            r.ladder.next is None && r.ladder.current is None && r.ladder.past is None,
    {
        Peer {
            ladder: SessionLadder::new(),
            queue: Vec::new(),
            keepalive,
            endpoint: None,
            cookie_reply: None,
            last_sent_init: 0,
            last_handshake: 0,
            last_tun_queue: 0,
        }
    }

    /// A session is ready to carry traffic out.
    pub fn ready_for_transport(&self) -> (r: bool)
        ensures r == (self.ladder.current is Some),
    {
        self.ladder.current.is_some()
    }

    /// Queue one outbound inner packet, dropping the oldest when the queue
    /// is full; the queue never exceeds its bound.
    pub fn queue_egress(&mut self, pkt: Vec<u8>, now: u64)
        requires
            old(self).wf(),
            pkt@.len() <= MAX_CONTENT_SIZE,
        ensures
            final(self).wf(),
            final(self).queue@.len() <= MAX_QUEUED_PACKETS,
            final(self).queue@.len() > 0,
            final(self).queue@.last()@ == pkt@,
            old(self).queue@.len() < MAX_QUEUED_PACKETS
                ==> final(self).queue@ == old(self).queue@.push(pkt),
            old(self).queue@.len() == MAX_QUEUED_PACKETS
                ==> final(self).queue@ == old(self).queue@.subrange(
                    1, MAX_QUEUED_PACKETS as int).push(pkt),
            final(self).ladder == old(self).ladder,
            old(self).queue@.len() == 0 ==> final(self).last_tun_queue == now,
            old(self).queue@.len() > 0 ==> final(self).last_tun_queue == old(self).last_tun_queue,
            final(self).keepalive == old(self).keepalive,
            final(self).endpoint == old(self).endpoint,
            final(self).last_sent_init == old(self).last_sent_init,
            final(self).last_handshake == old(self).last_handshake,
    {
        if self.queue.len() == 0 {
            self.last_tun_queue = now;
        }
        if self.queue.len() == MAX_QUEUED_PACKETS {
            self.queue.remove(0);
        }
        self.queue.push(pkt);
        proof {
            assert(self.queue@.last()@ == pkt@);
        }
    }

    /// A new initiation is due: no session is ready and the per-peer
    /// throttle has elapsed.
    pub fn needs_new_handshake(&self, now: u64) -> (r: bool)
        ensures
            r == (!(self.ladder.current is Some) && !(self.ladder.next is Some)
                && (now >= self.last_sent_init + REKEY_TIMEOUT)),
    {
        self.ladder.current.is_none() && self.ladder.next.is_none()
            && now >= self.last_sent_init
            && now - self.last_sent_init >= REKEY_TIMEOUT
    }

    /// Install a freshly initiated, unconfirmed session as `next`,
    /// recording when the initiation went out.  An un-promoted old `next`
    /// is destroyed and its receiver index returned for release.
    pub fn install_next(&mut self, s: Session, now: u64) -> (r: Option<u32>)
        requires
            old(self).wf(),
            s.wf(),
            !s.confirmed,
            old(self).ladder.current is Some
                ==> old(self).ladder.current.unwrap().local_id != s.local_id,
            old(self).ladder.past is Some
                ==> old(self).ladder.past.unwrap().local_id != s.local_id,
        ensures
            final(self).wf(),
            final(self).ladder.next == Some(s),
            final(self).ladder.current == old(self).ladder.current,
            final(self).ladder.past == old(self).ladder.past,
            final(self).last_sent_init == now,
            final(self).queue == old(self).queue,
            final(self).keepalive == old(self).keepalive,
            final(self).endpoint == old(self).endpoint,
            final(self).last_handshake == old(self).last_handshake,
            final(self).last_tun_queue == old(self).last_tun_queue,
            r == (if old(self).ladder.next is Some {
                Some(old(self).ladder.next.unwrap().local_id)
            } else {
                None::<u32>
            }),
    {
        let dead = match &self.ladder.next {
            Some(o) => Some(o.local_id),
            None => None,
        };
        self.ladder.next = Some(s);
        self.last_sent_init = now;
        dead
    }

    /// Install a session this side confirmed as initiator directly as
    /// `current`: the old `current` moves to `past`, the receiver index of
    /// the session leaving `past`, if one does, is returned for release,
    /// and the handshake clock restarts.
    pub fn install_current(&mut self, s: Session, now: u64) -> (r: Option<u32>)
        requires
            old(self).wf(),
            s.wf(),
            old(self).ladder.next is Some
                ==> old(self).ladder.next.unwrap().local_id != s.local_id,
            old(self).ladder.current is Some
                ==> old(self).ladder.current.unwrap().local_id != s.local_id,
        ensures
            final(self).wf(),
            final(self).ladder.current == Some(s),
            final(self).ladder.next == old(self).ladder.next,
            final(self).ladder.past == old(self).ladder.current,
            final(self).last_handshake == now,
            final(self).queue == old(self).queue,
            final(self).keepalive == old(self).keepalive,
            final(self).endpoint == old(self).endpoint,
            final(self).last_sent_init == old(self).last_sent_init,
            final(self).last_tun_queue == old(self).last_tun_queue,
            r == (if old(self).ladder.past is Some {
                Some(old(self).ladder.past.unwrap().local_id)
            } else {
                None::<u32>
            }),
    {
        let dead = match &self.ladder.past {
            Some(o) => Some(o.local_id),
            None => None,
        };
        self.ladder.past = self.ladder.current.take();
        self.ladder.current = Some(s);
        self.last_handshake = now;
        dead
    }

    /// Send everything queued through the current session, front first,
    /// one consecutive counter per packet; a packet the session refuses
    /// (expiry or counter exhaustion) is dropped.  The queue is empty
    /// afterwards.
    pub fn drain_queue(&mut self, now: u64) -> (r: Vec<Vec<u8>>)
        requires
            old(self).wf(),
            old(self).ladder.current is Some,
        ensures
            final(self).wf(),
            final(self).queue@.len() == 0,
            final(self).ladder.next == old(self).ladder.next,
            final(self).ladder.past == old(self).ladder.past,
            final(self).ladder.current is Some,
            final(self).ladder.current.unwrap().local_id
                == old(self).ladder.current.unwrap().local_id,
            final(self).ladder.current.unwrap().send_key
                == old(self).ladder.current.unwrap().send_key,
            final(self).ladder.current.unwrap().remote_id
                == old(self).ladder.current.unwrap().remote_id,
            final(self).ladder.current.unwrap().established_at
                == old(self).ladder.current.unwrap().established_at,
            final(self).keepalive == old(self).keepalive,
            final(self).endpoint == old(self).endpoint,
            final(self).last_sent_init == old(self).last_sent_init,
            final(self).last_handshake == old(self).last_handshake,
            final(self).last_tun_queue == old(self).last_tun_queue,
            ({
                let cur = old(self).ladder.current.unwrap();
                (now < cur.established_at + REJECT_AFTER_TIME
                    && cur.send_ctr + old(self).queue@.len() <= REJECT_AFTER_MESSAGES)
                ==> {
                    &&& r@.len() == old(self).queue@.len()
                    &&& final(self).ladder.current.unwrap().send_ctr
                        == cur.send_ctr + old(self).queue@.len()
                    &&& forall|i: int| 0 <= i < r@.len()
                        ==> (#[trigger] r@[i])@ == transport_header(cur.remote_id,
                                (cur.send_ctr + i) as u64)
                            + seal_of(cur.send_key@, nonce_of((cur.send_ctr + i) as u64),
                                Seq::<u8>::empty(), old(self).queue@[i]@)
                }
            }),
    {
        let ghost q0 = self.queue@;
        let ghost cur0 = self.ladder.current.unwrap();
        let ghost good = now < cur0.established_at + REJECT_AFTER_TIME
            && cur0.send_ctr + q0.len() <= REJECT_AFTER_MESSAGES;
        let mut out: Vec<Vec<u8>> = Vec::new();
        let taken = self.ladder.current.take();
        let mut cur = taken.unwrap();
        let n = self.queue.len();
        let mut i: usize = 0;
        while i < n
            invariant
                self.queue@ == q0,
                i <= n && n == q0.len(),
                self.queue@.len() <= crate::types::MAX_QUEUED_PACKETS,
                forall|k: int| 0 <= k < self.queue@.len()
                    ==> (#[trigger] self.queue@[k])@.len() <= MAX_CONTENT_SIZE,
                self.ladder.next == old(self).ladder.next,
                self.ladder.past == old(self).ladder.past,
                self.ladder.current is None,
                self.keepalive == old(self).keepalive,
                self.endpoint == old(self).endpoint,
                self.last_sent_init == old(self).last_sent_init,
                self.last_handshake == old(self).last_handshake,
                self.last_tun_queue == old(self).last_tun_queue,
                cur0 == old(self).ladder.current.unwrap(),
                good == (now < cur0.established_at + REJECT_AFTER_TIME
                    && cur0.send_ctr + q0.len() <= REJECT_AFTER_MESSAGES),
                old(self).wf(),
                cur.wf(),
                cur.local_id == cur0.local_id,
                cur.established_at == cur0.established_at,
                cur.send_key == cur0.send_key,
                cur.remote_id == cur0.remote_id,
                good ==> {
                    &&& out@.len() == i
                    &&& cur.send_ctr == cur0.send_ctr + i
                    &&& forall|j: int| 0 <= j < i
                        ==> (#[trigger] out@[j])@ == transport_header(cur0.remote_id,
                                (cur0.send_ctr + j) as u64)
                            + seal_of(cur0.send_key@, nonce_of((cur0.send_ctr + j) as u64),
                                Seq::<u8>::empty(), q0[j]@)
                },
            decreases n - i,
        {
            let pkt = &self.queue[i];
            match cur.encrypt_transport(pkt.as_slice(), now) {
                Ok(d) => {
                    out.push(d);
                },
                Err(_) => {},
            };
            i = i + 1;
        }
        self.ladder.current = Some(cur);
        self.queue.clear();
        out
    }

    /// Seal one empty-plaintext keepalive through the current session, if
    /// one is ready and willing.
    pub fn send_keepalive(&mut self, now: u64) -> (r: Option<Vec<u8>>)
        requires
            old(self).wf(),
        ensures
            final(self).wf(),
            final(self).queue == old(self).queue,
            final(self).ladder.next == old(self).ladder.next,
            final(self).ladder.past == old(self).ladder.past,
            final(self).keepalive == old(self).keepalive,
            final(self).endpoint == old(self).endpoint,
            final(self).last_sent_init == old(self).last_sent_init,
            final(self).last_handshake == old(self).last_handshake,
            final(self).last_tun_queue == old(self).last_tun_queue,
            old(self).ladder.current is None ==> r is None && *final(self) == *old(self),
            old(self).ladder.current is Some ==> ({
                let cur = old(self).ladder.current.unwrap();
                &&& final(self).ladder.current is Some
                &&& final(self).ladder.current.unwrap().local_id == cur.local_id
                &&& final(self).ladder.current.unwrap().send_key == cur.send_key
                &&& final(self).ladder.current.unwrap().remote_id == cur.remote_id
                &&& final(self).ladder.current.unwrap().established_at == cur.established_at
                &&& (now < cur.established_at + REJECT_AFTER_TIME
                        && cur.send_ctr < REJECT_AFTER_MESSAGES
                    ==> r is Some
                        && r.unwrap()@ == transport_header(cur.remote_id, cur.send_ctr)
                            + seal_of(cur.send_key@, nonce_of(cur.send_ctr),
                                Seq::<u8>::empty(), Seq::<u8>::empty()))
            }),
    {
        let nothing: [u8; 0] = [];
        proof {
            assert(nothing@ =~= Seq::<u8>::empty());
        }
        match &mut self.ladder.current {
            Some(s) => {
                match s.encrypt_transport(nothing.as_slice(), now) {
                    Ok(d) => Some(d),
                    Err(_) => None,
                }
            },
            None => None,
        }
    }

    /// Route one inbound transport datagram through the ladder and, when
    /// it authenticates, remember where it came from as the peer's
    /// endpoint.  The returned index, if any, left `past` on promotion and
    /// must be released.
    pub fn handle_transport(&mut self, datagram: &[u8], src_ip: [u8; 16], src_port: u16,
        now: u64) -> (r: Result<(Vec<u8>, Option<u32>), TransportError>)
        requires
            old(self).wf(),
        ensures
            final(self).wf(),
            r is Err ==> *final(self) == *old(self),
            forall|pt: Seq<u8>|
                #![trigger seal_of(slot_of(old(self).ladder,
                    le32(datagram@.subrange(4, 8)) as u32).unwrap().recv_key@,
                    nonce_of(le64(datagram@.subrange(8, 16)) as u64),
                    Seq::<u8>::empty(), pt)]
            ({
                let rid = le32(datagram@.subrange(4, 8)) as u32;
                let ctr = le64(datagram@.subrange(8, 16)) as u64;
                let held = slot_of(old(self).ladder, rid);
                &&& datagram@.len() >= 32
                &&& datagram@[0] == 4u8
                &&& held is Some
                &&& le64(datagram@.subrange(8, 16)) < REJECT_AFTER_MESSAGES
                &&& !held.unwrap().replay.accepted_set().contains(ctr)
                &&& ctr + crate::types::REPLAY_WINDOW >= held.unwrap().replay.high_water()
                &&& pt.len() + 32 == datagram@.len()
                &&& pt.len() < 0x3F_FFFF_FFC0
                &&& datagram@.subrange(16, datagram@.len() as int)
                    == seal_of(held.unwrap().recv_key@, nonce_of(ctr),
                        Seq::<u8>::empty(), pt)
            }) ==> r is Ok && r.unwrap().0@ == pt,
            r is Ok ==> ({
                let rid = le32(datagram@.subrange(4, 8)) as u32;
                let ctr = le64(datagram@.subrange(8, 16)) as u64;
                &&& slot_of(old(self).ladder, rid) is Some
                &&& datagram@.subrange(16, datagram@.len() as int)
                    == seal_of(slot_of(old(self).ladder, rid).unwrap().recv_key@,
                        nonce_of(ctr), Seq::<u8>::empty(), r.unwrap().0@)
            }),
            r is Ok ==> {
                &&& final(self).endpoint == Some((src_ip, src_port))
                &&& final(self).queue == old(self).queue
                &&& final(self).keepalive == old(self).keepalive
                &&& final(self).last_sent_init == old(self).last_sent_init
                &&& final(self).last_handshake == old(self).last_handshake
                &&& final(self).last_tun_queue == old(self).last_tun_queue
                &&& ({
                    let rid = le32(datagram@.subrange(4, 8)) as u32;
                    if old(self).ladder.next is Some
                        && old(self).ladder.next.unwrap().local_id == rid {
                        let os = old(self).ladder.next.unwrap();
                        &&& final(self).ladder.next is None
                        &&& final(self).ladder.current is Some
                        &&& final(self).ladder.current.unwrap().local_id == rid
                        &&& final(self).ladder.current.unwrap().confirmed
                        &&& final(self).ladder.current.unwrap().send_key == os.send_key
                        &&& final(self).ladder.current.unwrap().send_ctr == os.send_ctr
                        &&& final(self).ladder.current.unwrap().remote_id == os.remote_id
                        &&& final(self).ladder.current.unwrap().established_at
                            == os.established_at
                        &&& final(self).ladder.past == old(self).ladder.current
                        &&& r.unwrap().1 == (if old(self).ladder.past is Some {
                            Some(old(self).ladder.past.unwrap().local_id)
                        } else {
                            None::<u32>
                        })
                    } else if old(self).ladder.current is Some
                        && old(self).ladder.current.unwrap().local_id == rid {
                        &&& final(self).ladder.next == old(self).ladder.next
                        &&& final(self).ladder.past == old(self).ladder.past
                        &&& final(self).ladder.current is Some
                        &&& final(self).ladder.current.unwrap().local_id == rid
                        &&& r.unwrap().1 is None
                    } else {
                        &&& old(self).ladder.past is Some
                        &&& old(self).ladder.past.unwrap().local_id == rid
                        &&& final(self).ladder.next == old(self).ladder.next
                        &&& final(self).ladder.current == old(self).ladder.current
                        &&& final(self).ladder.past is Some
                        &&& final(self).ladder.past.unwrap().local_id == rid
                        &&& r.unwrap().1 is None
                    }
                })
            },
    {
        let out = match self.ladder.handle_transport(datagram, now) {
            Ok(out) => out,
            Err(e) => {
                return Err(e);
            },
        };
        self.endpoint = Some((src_ip, src_port));
        Ok(out)
    }

    /// Accept one inner packet from the tunnel side: reject it outside the
    /// size bounds, queue it, and, when a session is ready, drain the whole
    /// queue into transport datagrams.
    pub fn handle_egress(&mut self, pkt: Vec<u8>, now: u64) -> (r: Result<
        Vec<Vec<u8>>,
        TransportError,
    >)
        requires
            old(self).wf(),
        ensures
            final(self).wf(),
            r is Err ==> *final(self) == *old(self),
            r == Err::<Vec<Vec<u8>>, TransportError>(TransportError::Oversize)
                <==> (pkt@.len() == 0 || pkt@.len() > MAX_CONTENT_SIZE),
            r is Ok <==> (0 < pkt@.len() <= MAX_CONTENT_SIZE),
            final(self).ladder.next == old(self).ladder.next,
            final(self).ladder.past == old(self).ladder.past,
            old(self).ladder.current is Some ==> final(self).ladder.current is Some
                && final(self).ladder.current.unwrap().local_id
                    == old(self).ladder.current.unwrap().local_id,
            old(self).ladder.current is None ==> final(self).ladder.current is None,
            r is Ok && old(self).ladder.current is Some ==> final(self).queue@.len() == 0,
            r is Ok && old(self).ladder.current is Some
                && old(self).queue@.len() < MAX_QUEUED_PACKETS ==> ({
                let cur = old(self).ladder.current.unwrap();
                let q1 = old(self).queue@.push(pkt);
                (now < cur.established_at + REJECT_AFTER_TIME
                    && cur.send_ctr + q1.len() <= REJECT_AFTER_MESSAGES)
                ==> r.unwrap()@.len() == q1.len()
                    && (forall|i: int| 0 <= i < q1.len()
                        ==> (#[trigger] r.unwrap()@[i])@
                            == transport_header(cur.remote_id, (cur.send_ctr + i) as u64)
                                + seal_of(cur.send_key@, nonce_of((cur.send_ctr + i) as u64),
                                    Seq::<u8>::empty(), q1[i]@))
            }),
            r is Ok && old(self).ladder.current is None ==> r.unwrap()@.len() == 0
                && final(self).queue@.len() > 0
                && final(self).queue@.last()@ == pkt@,
    {
        if pkt.len() == 0 || pkt.len() > MAX_CONTENT_SIZE {
            return Err(TransportError::Oversize);
        }
        self.queue_egress(pkt, now);
        if self.ready_for_transport() {
            Ok(self.drain_queue(now))
        } else {
            Ok(Vec::new())
        }
    }

    /// Decide what a timer firing means now.  Every branch re-checks its
    /// own precondition; a firing for a dead session does nothing.
    pub fn handle_timer(&mut self, msg: TimerMessage, now: u64) -> (r: TimerAction)
        requires old(self).wf(),
        ensures
            final(self).wf(),
            r == timer_decision(*old(self), msg, now),
            final(self).queue == old(self).queue,
            final(self).keepalive == old(self).keepalive,
            final(self).last_sent_init == old(self).last_sent_init,
            final(self).last_handshake == old(self).last_handshake,
            final(self).last_tun_queue == old(self).last_tun_queue,
            match msg {
                TimerMessage::Rekey(id) => *final(self) == *old(self),
                TimerMessage::Reject(id) => ({
                    let p = *old(self);
                    if p.ladder.next is Some && p.ladder.next.unwrap().local_id == id {
                        &&& final(self).ladder.next is None
                        &&& final(self).ladder.current == p.ladder.current
                        &&& final(self).ladder.past == p.ladder.past
                    } else if p.ladder.current is Some
                        && p.ladder.current.unwrap().local_id == id {
                        &&& final(self).ladder.next == p.ladder.next
                        &&& final(self).ladder.current is None
                        &&& final(self).ladder.past == p.ladder.past
                    } else if p.ladder.past is Some && p.ladder.past.unwrap().local_id == id {
                        &&& final(self).ladder.next == p.ladder.next
                        &&& final(self).ladder.current == p.ladder.current
                        &&& final(self).ladder.past is None
                    } else {
                        *final(self) == p
                    }
                }),
                TimerMessage::PassiveKeepalive(id) => ({
                    let p = *old(self);
                    if p.ladder.current is Some && p.ladder.current.unwrap().local_id == id
                        && timer_decision(p, msg, now)
                            == TimerAction::SendKeepalive(KEEPALIVE_TIMEOUT) {
                        &&& final(self).ladder.next == p.ladder.next
                        &&& final(self).ladder.past == p.ladder.past
                        &&& final(self).ladder.current == Some((Session {
                            keepalive_sent: true,
                            ..p.ladder.current.unwrap()
                        }))
                    } else {
                        *final(self) == p
                    }
                }),
                TimerMessage::PersistentKeepalive(id) => *final(self) == *old(self),
            },
    {
        match msg {
            TimerMessage::Rekey(id) => {
                match self.ladder.find_slot(id) {
                    Some(0) => {
                        // An unanswered initiation: retransmit, but not
                        // sooner than the throttle allows and not beyond
                        // the attempt budget.
                        if now >= self.last_sent_init
                            && now - self.last_sent_init < REKEY_TIMEOUT {
                            TimerAction::Retry(
                                REKEY_TIMEOUT - (now - self.last_sent_init))
                        } else if now >= self.last_tun_queue
                            && now - self.last_tun_queue > REKEY_ATTEMPT_TIME {
                            TimerAction::Nothing
                        } else {
                            TimerAction::SendHandshakeInit
                        }
                    },
                    Some(1) => {
                        // A confirmed session ages toward rekey.
                        if now >= self.last_handshake
                            && now - self.last_handshake <= REKEY_AFTER_TIME {
                            TimerAction::Retry(
                                REKEY_AFTER_TIME - (now - self.last_handshake))
                        } else {
                            TimerAction::SendHandshakeInit
                        }
                    },
                    _ => TimerAction::Nothing,
                }
            },
            TimerMessage::Reject(id) => {
                match self.ladder.find_slot(id) {
                    Some(0) => {
                        self.ladder.next = None;
                        TimerAction::Destroyed(id)
                    },
                    Some(1) => {
                        self.ladder.current = None;
                        TimerAction::Destroyed(id)
                    },
                    Some(2) => {
                        self.ladder.past = None;
                        TimerAction::Destroyed(id)
                    },
                    _ => TimerAction::Nothing,
                }
            },
            TimerMessage::PassiveKeepalive(id) => {
                let cur = match &self.ladder.current {
                    Some(s) => s,
                    None => {
                        return TimerAction::Nothing;
                    },
                };
                if cur.local_id != id {
                    return TimerAction::Nothing;
                }
                if now >= cur.last_received
                    && now - cur.last_received < KEEPALIVE_TIMEOUT {
                    return TimerAction::Retry(
                        KEEPALIVE_TIMEOUT - (now - cur.last_received));
                }
                if now >= cur.last_sent && now - cur.last_sent < KEEPALIVE_TIMEOUT {
                    return TimerAction::Retry(KEEPALIVE_TIMEOUT - (now - cur.last_sent));
                }
                if cur.keepalive_sent {
                    return TimerAction::Retry(KEEPALIVE_TIMEOUT);
                }
                if let Some(s) = &mut self.ladder.current {
                    s.keepalive_sent = true;
                }
                TimerAction::SendKeepalive(KEEPALIVE_TIMEOUT)
            },
            TimerMessage::PersistentKeepalive(id) => {
                let cur = match &self.ladder.current {
                    Some(s) => s,
                    None => {
                        return TimerAction::Nothing;
                    },
                };
                if cur.local_id != id || self.keepalive == 0 {
                    return TimerAction::Nothing;
                }
                TimerAction::SendKeepalive(self.keepalive as u64)
            },
        }
    }
}

/// What kind of datagram arrived, by its leading type byte.
#[derive(Clone, Copy, PartialEq, Eq, Structural, Debug)]
pub enum DatagramKind {
    Initiation,
    Response,
    CookieReply,
    Transport,
    Unknown,
}

/// Classify an ingress datagram by its one-byte type field: 1 to 3 are
/// handshake traffic, 4 is transport, anything else is dropped.
pub fn classify_datagram(datagram: &[u8]) -> (r: DatagramKind)
    ensures
        r == DatagramKind::Initiation <==> datagram@.len() > 0 && datagram@[0] == 1u8,
        r == DatagramKind::Response <==> datagram@.len() > 0 && datagram@[0] == 2u8,
        r == DatagramKind::CookieReply <==> datagram@.len() > 0 && datagram@[0] == 3u8,
        r == DatagramKind::Transport <==> datagram@.len() > 0 && datagram@[0] == 4u8,
{
    if datagram.len() == 0 {
        return DatagramKind::Unknown;
    }
    match datagram[0] {
        1 => DatagramKind::Initiation,
        2 => DatagramKind::Response,
        3 => DatagramKind::CookieReply,
        4 => DatagramKind::Transport,
        _ => DatagramKind::Unknown,
    }
}

} // verus!
