//! The EAPOL-Key PDU as plain values, its classification and serialization.
//!
//! The assembler works on [`EapolKey`], a plain-value record of the IEEE
//! 802.11i EAPOL-Key fields plus a capture timestamp in whole seconds.
//! Classification into handshake messages and serialization into the byte
//! form that the offline cracker hashes are done by libwifi, behind trusted
//! wrappers whose contracts state the exact result.

use vstd::prelude::*;

verus! {

/// Classification of an EAPOL-Key PDU.
#[derive(Clone, Copy, Debug, PartialEq, Eq)]
pub enum MessageType {
    Message1,
    Message2,
    Message3,
    Message4,
    Gtk,
    Error,
}

/// An IEEE 802.11i EAPOL-Key PDU, with the capture time in whole seconds.
#[derive(Debug)]
pub struct EapolKey {
    pub protocol_version: u8,
    pub timestamp: u64,
    pub packet_type: u8,
    pub packet_length: u16,
    pub descriptor_type: u8,
    pub key_information: u16,
    pub key_length: u16,
    pub replay_counter: u64,
    pub key_nonce: [u8; 32],
    pub key_iv: [u8; 16],
    pub key_rsc: u64,
    pub key_id: u64,
    pub key_mic: [u8; 16],
    pub key_data_length: u16,
    pub key_data: Vec<u8>,
}

/// Spec-level image of an [`EapolKey`].
#[verifier::ext_equal]
pub ghost struct EapolKeyView {
    pub protocol_version: u8,
    pub timestamp: u64,
    pub packet_type: u8,
    pub packet_length: u16,
    pub descriptor_type: u8,
    pub key_information: u16,
    pub key_length: u16,
    pub replay_counter: u64,
    pub key_nonce: Seq<u8>,
    pub key_iv: Seq<u8>,
    pub key_rsc: u64,
    pub key_id: u64,
    pub key_mic: Seq<u8>,
    pub key_data_length: u16,
    pub key_data: Seq<u8>,
}

impl View for EapolKey {
    type V = EapolKeyView;

    open spec fn view(&self) -> EapolKeyView {
        EapolKeyView {
            protocol_version: self.protocol_version,
            timestamp: self.timestamp,
            packet_type: self.packet_type,
            packet_length: self.packet_length,
            descriptor_type: self.descriptor_type,
            key_information: self.key_information,
            key_length: self.key_length,
            replay_counter: self.replay_counter,
            key_nonce: self.key_nonce@,
            key_iv: self.key_iv@,
            key_rsc: self.key_rsc,
            key_id: self.key_id,
            key_mic: self.key_mic@,
            key_data_length: self.key_data_length,
            key_data: self.key_data@,
        }
    }
}

/// Classification of the key-information field, as libwifi performs it: the
/// pairwise bit selects the four-way handshake, and the ACK / MIC / Secure /
/// Install bits select the message.
pub open spec fn spec_key_type(ki: u16) -> MessageType {
    let key_type = ki & 0x0008u16 != 0;
    let key_ack = ki & 0x0080u16 != 0;
    let key_mic = ki & 0x0100u16 != 0;
    let secure = ki & 0x0200u16 != 0;
    let install = ki & 0x0040u16 != 0;
    if !key_type {
        MessageType::Gtk
    } else if key_ack && !key_mic && !secure && !install {
        MessageType::Message1
    } else if !key_ack && key_mic && !secure && !install {
        MessageType::Message2
    } else if key_ack && key_mic && secure && install {
        MessageType::Message3
    } else if !key_ack && key_mic && secure && !install {
        MessageType::Message4
    } else {
        MessageType::Error
    }
}

/// The two bytes of `x` in big-endian order.
pub open spec fn be16(x: u16) -> Seq<u8> {
    seq![(x / 0x100) as u8, (x % 0x100) as u8]
}

/// The eight bytes of `x` in big-endian order.
pub open spec fn be64(x: u64) -> Seq<u8> {
    seq![
        ((x / 0x100000000000000) % 0x100) as u8,
        ((x / 0x1000000000000) % 0x100) as u8,
        ((x / 0x10000000000) % 0x100) as u8,
        ((x / 0x100000000) % 0x100) as u8,
        ((x / 0x1000000) % 0x100) as u8,
        ((x / 0x10000) % 0x100) as u8,
        ((x / 0x100) % 0x100) as u8,
        (x % 0x100) as u8,
    ]
}

/// The serialized form of an EAPOL-Key PDU, as libwifi's `to_bytes` writes
/// it: every field after the capture timestamp, multi-byte integers in
/// big-endian order.
pub open spec fn eapol_bytes(k: EapolKeyView) -> Seq<u8> {
    seq![k.protocol_version, k.packet_type] + be16(k.packet_length) + seq![k.descriptor_type]
        + be16(k.key_information) + be16(k.key_length) + be64(k.replay_counter) + k.key_nonce
        + k.key_iv + be64(k.key_rsc) + be64(k.key_id) + k.key_mic + be16(k.key_data_length)
        + k.key_data
}

impl EapolKey {
    /// Relies on libwifi's `EapolKey::determine_key_type`: the
    /// classification reads the key-information bits alone, exactly as
    /// [`spec_key_type`] states them.
    #[verifier::external_body]
    pub(crate) fn determine_key_type(&self) -> (r: MessageType)
        ensures
            r == spec_key_type(self.key_information),
    {
        let k = libwifi::frame::EapolKey {
            key_information: self.key_information,
            ..Default::default()
        };
        match k.determine_key_type() {
            libwifi::frame::MessageType::Message1 => MessageType::Message1,
            libwifi::frame::MessageType::Message2 => MessageType::Message2,
            libwifi::frame::MessageType::Message3 => MessageType::Message3,
            libwifi::frame::MessageType::Message4 => MessageType::Message4,
            libwifi::frame::MessageType::GTK => MessageType::Gtk,
            libwifi::frame::MessageType::Error => MessageType::Error,
        }
    }

    /// Relies on libwifi's `EapolKey::to_bytes`: the serialized key frame is
    /// the big-endian field concatenation that [`eapol_bytes`] states, and
    /// writing into a `Vec` never fails.  The capture timestamp is not
    /// serialized, so the epoch stands in for it.
    #[verifier::external_body]
    pub(crate) fn to_bytes(&self) -> (r: Vec<u8>)
        ensures
            r@ == eapol_bytes(self@),
    {
        let k = libwifi::frame::EapolKey {
            timestamp: std::time::UNIX_EPOCH,
            protocol_version: self.protocol_version, packet_type: self.packet_type,
            packet_length: self.packet_length, descriptor_type: self.descriptor_type,
            key_information: self.key_information, key_length: self.key_length,
            replay_counter: self.replay_counter, key_nonce: self.key_nonce,
            key_iv: self.key_iv, key_rsc: self.key_rsc, key_id: self.key_id,
            key_mic: self.key_mic, key_data_length: self.key_data_length,
            key_data: self.key_data.clone(),
        };
        k.to_bytes().unwrap()
    }
}

/// Copies a byte vector; the copy has the same contents.
pub fn clone_bytes(v: &Vec<u8>) -> (r: Vec<u8>)
    ensures
        r@ == v@,
{
    let r = v.clone();
    proof {
        assert forall|i: int| 0 <= i < r@.len() implies r@[i] == v@[i] by {
            assert(cloned::<u8>(v@[i], r@[i]));
        }
        assert(r@ =~= v@);
    }
    r
}

impl Clone for EapolKey {
    /// The copy carries the same field values.
    fn clone(&self) -> (r: Self)
        ensures
            r@ == self@,
    {
        let r = EapolKey {
            protocol_version: self.protocol_version,
            timestamp: self.timestamp,
            packet_type: self.packet_type,
            packet_length: self.packet_length,
            descriptor_type: self.descriptor_type,
            key_information: self.key_information,
            key_length: self.key_length,
            replay_counter: self.replay_counter,
            key_nonce: self.key_nonce,
            key_iv: self.key_iv,
            key_rsc: self.key_rsc,
            key_id: self.key_id,
            key_mic: self.key_mic,
            key_data_length: self.key_data_length,
            key_data: clone_bytes(&self.key_data),
        };
        proof {
            assert(r@ =~= self@);
        }
        r
    }
}

/// True when every byte of `s` from `from` on is zero.
pub open spec fn all_zero_from(s: Seq<u8>, from: int) -> bool {
    forall|i: int| from <= i < s.len() ==> s[i] == 0
}

/// True when every byte of the key MIC is zero.
pub open spec fn mic_is_zero(k: EapolKeyView) -> bool {
    all_zero_from(k.key_mic, 0)
}

/// True when every byte of the key nonce is zero.
pub open spec fn nonce_is_zero(k: EapolKeyView) -> bool {
    all_zero_from(k.key_nonce, 0)
}

/// Tests whether every byte of a slice is zero.
pub fn slice_is_zero(s: &[u8]) -> (r: bool)
    ensures
        r == all_zero_from(s@, 0),
{
    let mut i: usize = 0;
    while i < s.len()
        invariant
            i <= s@.len(),
            forall|j: int| 0 <= j < i ==> s@[j] == 0,
        decreases s@.len() - i,
    {
        if s[i] != 0 {
            return false;
        }
        i = i + 1;
    }
    true
}

} // verus!
