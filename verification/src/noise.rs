//! The Noise-IKpsk2 key schedule: the symmetric chain both ends walk, as
//! spec functions, and the proof that a completed exchange leaves the two
//! ends with mirrored transport keys.

use vstd::prelude::*;
use crate::crypto::blake2s_of;
use crate::crypto::kdf1_of;
use crate::crypto::kdf2_snd_of;
use crate::crypto::kdf3_trd_of;

verus! {

/// The Noise construction label.
pub open spec fn construction_label() -> Seq<u8> {
    seq![78u8, 111, 105, 115, 101, 95, 73, 75, 112, 115, 107, 50, 95, 50, 53, 53, 49, 57,
        95, 67, 104, 97, 67, 104, 97, 80, 111, 108, 121, 95, 66, 76, 65, 75, 69, 50, 115]
}

/// The protocol identifier mixed into the first hash.
pub open spec fn identifier_label() -> Seq<u8> {
    seq![87u8, 105, 114, 101, 71, 117, 97, 114, 100, 32, 118, 49, 32, 122, 120, 50, 99,
        52, 32, 74, 97, 115, 111, 110, 64, 122, 120, 50, 99, 52, 46, 99, 111, 109]
}

/// The label keyed into every MAC1 key.
pub open spec fn mac1_label() -> Seq<u8> {
    seq![109u8, 97, 99, 49, 45, 45, 45, 45]
}

/// The all-zero AEAD nonce used by every handshake message.
pub open spec fn zero_nonce() -> Seq<u8> {
    Seq::new(12, |i: int| 0u8)
}

/// The initial chaining key: the hash of the construction label.
pub open spec fn chain_zero() -> Seq<u8> {
    blake2s_of(construction_label())
}

/// The initial transcript hash, before a responder key is mixed in.
pub open spec fn hash_zero() -> Seq<u8> {
    blake2s_of(chain_zero() + identifier_label())
}

/// The transcript hash after the responder public key is mixed in.
pub open spec fn hash_rpk(rpk: Seq<u8>) -> Seq<u8> {
    blake2s_of(hash_zero() + rpk)
}

/// The MAC1 key a sender uses toward the holder of `pk`.
pub open spec fn mac1_key_of(pk: Seq<u8>) -> Seq<u8> {
    blake2s_of(mac1_label() + pk)
}

/// AEAD key protecting the static-key field of the initiation.
pub open spec fn init_static_key(epk: Seq<u8>, dh_e: Seq<u8>) -> Seq<u8> {
    kdf2_snd_of(kdf1_of(chain_zero(), epk), dh_e)
}

/// Associated data for the static-key field: the transcript hash after the
/// initiator ephemeral is mixed in.
pub open spec fn init_static_aad(rpk: Seq<u8>, epk: Seq<u8>) -> Seq<u8> {
    blake2s_of(hash_rpk(rpk) + epk)
}

/// AEAD key protecting the timestamp field of the initiation.
pub open spec fn init_ts_key(epk: Seq<u8>, dh_e: Seq<u8>, dh_s: Seq<u8>) -> Seq<u8> {
    kdf2_snd_of(kdf1_of(kdf1_of(chain_zero(), epk), dh_e), dh_s)
}

/// Associated data for the timestamp field: the transcript hash after the
/// encrypted static key is mixed in.
pub open spec fn init_ts_aad(rpk: Seq<u8>, epk: Seq<u8>, enc_static: Seq<u8>) -> Seq<u8> {
    blake2s_of(init_static_aad(rpk, epk) + enc_static)
}

/// Chaining key after the whole initiation: ephemeral, then the two
/// initiation Diffie-Hellman results, mixed in order.
pub open spec fn init_chain(epk: Seq<u8>, dh_e: Seq<u8>, dh_s: Seq<u8>) -> Seq<u8> {
    kdf1_of(kdf1_of(kdf1_of(chain_zero(), epk), dh_e), dh_s)
}

/// Transcript hash after the whole initiation body.
pub open spec fn init_hash_full(
    rpk: Seq<u8>, epk: Seq<u8>, enc_static: Seq<u8>, enc_ts: Seq<u8>,
) -> Seq<u8> {
    blake2s_of(init_ts_aad(rpk, epk, enc_static) + enc_ts)
}

/// The tau block of the psk mix, hashed into the transcript of the response.
pub open spec fn resp_tau(
    ck: Seq<u8>, repk: Seq<u8>, dh_ee: Seq<u8>, dh_se: Seq<u8>, psk: Seq<u8>,
) -> Seq<u8> {
    kdf2_snd_of(kdf1_of(kdf1_of(kdf1_of(ck, repk), dh_ee), dh_se), psk)
}

/// AEAD key protecting the empty payload of the response.
pub open spec fn resp_empty_key(
    ck: Seq<u8>, repk: Seq<u8>, dh_ee: Seq<u8>, dh_se: Seq<u8>, psk: Seq<u8>,
) -> Seq<u8> {
    kdf3_trd_of(kdf1_of(kdf1_of(kdf1_of(ck, repk), dh_ee), dh_se), psk)
}

/// Associated data for the empty payload of the response: the transcript
/// hash after the responder ephemeral and the tau block are mixed in.
pub open spec fn resp_empty_aad(
    h: Seq<u8>, ck: Seq<u8>, repk: Seq<u8>, dh_ee: Seq<u8>, dh_se: Seq<u8>, psk: Seq<u8>,
) -> Seq<u8> {
    blake2s_of(blake2s_of(h + repk) + resp_tau(ck, repk, dh_ee, dh_se, psk))
}

/// Chaining key after the response: responder ephemeral, the two
/// response-side Diffie-Hellman results, then the pre-shared key.
pub open spec fn resp_chain(
    ck: Seq<u8>, repk: Seq<u8>, dh_ee: Seq<u8>, dh_se: Seq<u8>, psk: Seq<u8>,
) -> Seq<u8> {
    kdf1_of(kdf1_of(kdf1_of(kdf1_of(ck, repk), dh_ee), dh_se), psk)
}

/// The transport key the initiator sends with (first KDF output of the
/// final chain over an empty input).
pub open spec fn transport_key_initiator_send(
    ck: Seq<u8>, repk: Seq<u8>, dh_ee: Seq<u8>, dh_se: Seq<u8>, psk: Seq<u8>,
) -> Seq<u8> {
    kdf1_of(resp_chain(ck, repk, dh_ee, dh_se, psk), Seq::empty())
}

/// The transport key the initiator receives with (second KDF output).
pub open spec fn transport_key_initiator_recv(
    ck: Seq<u8>, repk: Seq<u8>, dh_ee: Seq<u8>, dh_se: Seq<u8>, psk: Seq<u8>,
) -> Seq<u8> {
    kdf2_snd_of(resp_chain(ck, repk, dh_ee, dh_se, psk), Seq::empty())
}

/// The transport key the responder sends with: the initiator's receive key.
pub open spec fn transport_key_responder_send(
    ck: Seq<u8>, repk: Seq<u8>, dh_ee: Seq<u8>, dh_se: Seq<u8>, psk: Seq<u8>,
) -> Seq<u8> {
    kdf2_snd_of(resp_chain(ck, repk, dh_ee, dh_se, psk), Seq::empty())
}

/// The transport key the responder receives with: the initiator's send key.
pub open spec fn transport_key_responder_recv(
    ck: Seq<u8>, repk: Seq<u8>, dh_ee: Seq<u8>, dh_se: Seq<u8>, psk: Seq<u8>,
) -> Seq<u8> {
    kdf1_of(resp_chain(ck, repk, dh_ee, dh_se, psk), Seq::empty())
}

/// A successful handshake leaves mirrored transport keys: whenever the two
/// ends agree on the chaining key of the initiation and on the three inputs
/// mixed in by the response — the responder ephemeral, the two
/// Diffie-Hellman results (which agree by the documented exchange property
/// of X25519) and the pre-shared key — the initiator's send key is the
/// responder's receive key and the initiator's receive key is the
/// responder's send key.
pub proof fn lemma_handshake_keys_mirror(
    ck: Seq<u8>, repk: Seq<u8>, dh_ee: Seq<u8>, dh_se: Seq<u8>, psk: Seq<u8>,
)
    ensures
        transport_key_initiator_send(ck, repk, dh_ee, dh_se, psk)
            == transport_key_responder_recv(ck, repk, dh_ee, dh_se, psk),
        transport_key_initiator_recv(ck, repk, dh_ee, dh_se, psk)
            == transport_key_responder_send(ck, repk, dh_ee, dh_se, psk),
{
}

} // verus!
