//! The four-way handshake: slot assembly, validation and export.

use vstd::prelude::*;

use crate::eapol::EapolKey;
use crate::eapol::EapolKeyView;
use crate::eapol::MessageType;
use crate::eapol::clone_bytes;
use crate::eapol::eapol_bytes;
use crate::eapol::mic_is_zero;
use crate::eapol::nonce_is_zero;
use crate::eapol::slice_is_zero;
use crate::eapol::spec_key_type;
use crate::mac::MacAddress;
use crate::pmkid::Pmkid;
use crate::pmkid::PmkidView;
use crate::pmkid::pmkid_view_of;
use crate::text::ascii_bytes_to_string;
use crate::text::hex_of;
use crate::text::hex_of_byte;
use crate::text::is_ascii_bytes;
use crate::text::hex_digit_ascii;
use crate::text::lemma_hex_of_ascii;
use crate::text::push_bytes;
use crate::text::push_hex;

verus! {

/// Maps an option over its contents' view.
pub open spec fn opt_view<T: View>(o: Option<T>) -> Option<<T as View>::V> {
    match o {
        Some(t) => Some(t@),
        None => None,
    }
}

/// One four-way handshake between an access point and a client: up to four
/// message slots, the most recent accepted key, and the derived material
/// that the offline cracker needs.
#[derive(Debug)]
pub struct FourWayHandshake {
    pub msg1: Option<EapolKey>,
    pub msg2: Option<EapolKey>,
    pub msg3: Option<EapolKey>,
    pub msg4: Option<EapolKey>,
    pub last_msg: Option<EapolKey>,
    pub eapol_client: Option<Vec<u8>>,
    pub mic: Option<[u8; 16]>,
    pub anonce: Option<[u8; 32]>,
    pub snonce: Option<[u8; 32]>,
    pub apless: bool,
    pub nc: bool,
    pub l_endian: bool,
    pub b_endian: bool,
    pub pmkid: Option<Pmkid>,
    pub mac_ap: Option<MacAddress>,
    pub mac_client: Option<MacAddress>,
    pub essid: Option<String>,
}

/// Spec-level image of a [`FourWayHandshake`].
#[verifier::ext_equal]
pub ghost struct HandshakeView {
    pub msg1: Option<EapolKeyView>,
    pub msg2: Option<EapolKeyView>,
    pub msg3: Option<EapolKeyView>,
    pub msg4: Option<EapolKeyView>,
    pub last_msg: Option<EapolKeyView>,
    pub eapol_client: Option<Seq<u8>>,
    pub mic: Option<Seq<u8>>,
    pub anonce: Option<Seq<u8>>,
    pub snonce: Option<Seq<u8>>,
    pub apless: bool,
    pub nc: bool,
    pub l_endian: bool,
    pub b_endian: bool,
    pub pmkid: Option<PmkidView>,
    pub mac_ap: Option<Seq<u8>>,
    pub mac_client: Option<Seq<u8>>,
    pub essid: Option<Seq<char>>,
}

impl View for FourWayHandshake {
    type V = HandshakeView;

    open spec fn view(&self) -> HandshakeView {
        HandshakeView {
            msg1: opt_view(self.msg1),
            msg2: opt_view(self.msg2),
            msg3: opt_view(self.msg3),
            msg4: opt_view(self.msg4),
            last_msg: opt_view(self.last_msg),
            eapol_client: opt_view(self.eapol_client),
            mic: opt_view(self.mic),
            anonce: opt_view(self.anonce),
            snonce: opt_view(self.snonce),
            apless: self.apless,
            nc: self.nc,
            l_endian: self.l_endian,
            b_endian: self.b_endian,
            pmkid: opt_view(self.pmkid),
            mac_ap: opt_view(self.mac_ap),
            mac_client: opt_view(self.mac_client),
            essid: opt_view(self.essid),
        }
    }
}

impl HandshakeView {
    /// A handshake is complete when the cracker line can be produced: the
    /// client key frame, its MIC, both nonces, both addresses and the ESSID
    /// are all present.
    pub open spec fn complete(self) -> bool {
        &&& self.eapol_client is Some
        &&& self.mic is Some
        &&& self.anonce is Some
        &&& self.snonce is Some
        &&& self.mac_ap is Some
        &&& self.mac_client is Some
        &&& self.essid is Some
    }
}

/// The replay-counter window against the previous message of the exchange.
/// The window is enforced in its satisfiable, disjunctive reading: a counter
/// is in range exactly when it lies strictly above the previous counter and
/// at most three above it.
pub open spec fn rc_in_window(prev: u64, next: u64) -> bool {
    prev < next <= prev + 3
}

/// The temporal window between two capture timestamps: at most two seconds
/// apart, in either direction.
pub open spec fn within_two_seconds(a: u64, b: u64) -> bool {
    (if a >= b {
        a - b
    } else {
        b - a
    }) <= 2
}

/// Why a key classified as message 1 is rejected, or `None` to accept.
pub open spec fn m1_reject(k: EapolKeyView) -> Option<Seq<char>> {
    if !mic_is_zero(k) {
        Some("Invalid Message 1: MIC should not be present"@)
    } else {
        None
    }
}

/// Why a key classified as message 2 is rejected, or `None` to accept.
pub open spec fn m2_reject(pre: HandshakeView, k: EapolKeyView) -> Option<Seq<char>> {
    if mic_is_zero(k) {
        Some("Invalid Message 2: MIC should be present"@)
    } else if nonce_is_zero(k) {
        Some("Invalid Message 2: Snonce should be present."@)
    } else if pre.msg1 matches Some(m1) && !rc_in_window(m1.replay_counter, k.replay_counter) {
        Some("Invalid Message 2: RC value not within range."@)
    } else if pre.msg1 matches Some(m1) && !within_two_seconds(k.timestamp, m1.timestamp) {
        Some("Invalid Message 2: Time difference too great."@)
    } else {
        None
    }
}

/// Why a key classified as message 3 is rejected, or `None` to accept.
pub open spec fn m3_reject(pre: HandshakeView, k: EapolKeyView) -> Option<Seq<char>> {
    if mic_is_zero(k) {
        Some("Invalid Message 3: MIC should be present"@)
    } else if nonce_is_zero(k) {
        Some("Invalid Message 3: Anonce should be present."@)
    } else if pre.anonce matches Some(a) && k.key_nonce.subrange(0, 28) != a.subrange(0, 28) {
        Some("Invalid Message 3: Anonce not close enough to Message 1 Anonce."@)
    } else if pre.msg2 matches Some(m2) && !rc_in_window(m2.replay_counter, k.replay_counter) {
        Some("Invalid Message 3: RC value not within range."@)
    } else if pre.msg2 matches Some(m2) && !within_two_seconds(k.timestamp, m2.timestamp) {
        Some("Invalid Message 3: Time difference too great."@)
    } else {
        None
    }
}

/// Why a key classified as message 4 is rejected, or `None` to accept.
pub open spec fn m4_reject(pre: HandshakeView, k: EapolKeyView) -> Option<Seq<char>> {
    if mic_is_zero(k) {
        Some("Invalid Message 4: MIC should be present"@)
    } else if pre.msg3 matches Some(m3) && !rc_in_window(m3.replay_counter, k.replay_counter) {
        Some("Invalid Message 4: RC value not within range."@)
    } else if pre.msg3 matches Some(m3) && !within_two_seconds(k.timestamp, m3.timestamp) {
        Some("Invalid Message 4: Time difference too great."@)
    } else {
        None
    }
}

/// Whether an accepted message 1 carries a valid PMKID in its key data.
pub open spec fn m1_carries_pmkid(k: EapolKeyView) -> bool {
    k.key_data_length == 22 && pmkid_view_of(k.key_data).valid()
}

/// The handshake after accepting message 1: the slot, the most recent key
/// and the ANonce are recorded, and a valid PMKID is taken from the key
/// data.
pub open spec fn m1_updated(pre: HandshakeView, k: EapolKeyView) -> HandshakeView {
    HandshakeView {
        msg1: Some(k),
        last_msg: Some(k),
        anonce: Some(k.key_nonce),
        pmkid: if m1_carries_pmkid(k) {
            Some(pmkid_view_of(k.key_data))
        } else {
            pre.pmkid
        },
        ..pre
    }
}

/// The handshake after accepting message 2: the slot, the most recent key,
/// the SNonce, the serialized client key frame and its MIC are recorded
/// together.
pub open spec fn m2_updated(pre: HandshakeView, k: EapolKeyView) -> HandshakeView {
    HandshakeView {
        msg2: Some(k),
        last_msg: Some(k),
        snonce: Some(k.key_nonce),
        eapol_client: Some(eapol_bytes(k)),
        mic: Some(k.key_mic),
        ..pre
    }
}

/// The handshake after accepting message 3.  When the ANonce is known, the
/// nonce-correction flag records whether the last four nonce bytes moved,
/// and the endianness flags record which boundary byte moved; when no
/// ANonce is known the message is accepted blindly and supplies it.
pub open spec fn m3_updated(pre: HandshakeView, k: EapolKeyView) -> HandshakeView {
    match pre.anonce {
        Some(a) => {
            let moved = k.key_nonce.subrange(28, 32) != a.subrange(28, 32);
            HandshakeView {
                msg3: Some(k),
                last_msg: Some(k),
                nc: moved,
                l_endian: pre.l_endian || (moved && a[31] != k.key_nonce[31]),
                b_endian: pre.b_endian || (moved && a[31] == k.key_nonce[31] && a[28]
                    != k.key_nonce[28]),
                ..pre
            }
        },
        None => HandshakeView {
            msg3: Some(k),
            last_msg: Some(k),
            anonce: Some(k.key_nonce),
            nc: false,
            ..pre
        },
    }
}

/// The handshake after accepting message 4.  When no SNonce is known and
/// the key's nonce is not zeroed, the SNonce is taken from it; when the
/// client key frame is also missing, the frame and its MIC are taken from
/// this message as well.
pub open spec fn m4_updated(pre: HandshakeView, k: EapolKeyView) -> HandshakeView {
    let backfill_snonce = pre.snonce is None && !nonce_is_zero(k);
    let backfill_client = backfill_snonce && pre.eapol_client is None;
    HandshakeView {
        msg4: Some(k),
        last_msg: Some(k),
        snonce: if backfill_snonce {
            Some(k.key_nonce)
        } else {
            pre.snonce
        },
        mic: if backfill_client {
            Some(k.key_mic)
        } else {
            pre.mic
        },
        eapol_client: if backfill_client {
            Some(eapol_bytes(k))
        } else {
            pre.eapol_client
        },
        ..pre
    }
}

/// Why [`FourWayHandshake::add_key`] rejects a key, or `None` to accept.
/// GTK updates are turned away outright; a message whose slot is already
/// filled, or whose key-information bits match no handshake message, is
/// reported as already present.
#[verifier::opaque]
pub open spec fn add_key_reject(pre: HandshakeView, k: EapolKeyView) -> Option<Seq<char>> {
    let kind = spec_key_type(k.key_information);
    if kind == MessageType::Gtk {
        Some("EAPOL is a GTK Update... ignoring."@)
    } else if kind == MessageType::Message1 && pre.msg1 is None {
        m1_reject(k)
    } else if kind == MessageType::Message2 && pre.msg2 is None {
        m2_reject(pre, k)
    } else if kind == MessageType::Message3 && pre.msg3 is None {
        m3_reject(pre, k)
    } else if kind == MessageType::Message4 && pre.msg4 is None {
        m4_reject(pre, k)
    } else {
        Some("Handshake already complete or message already present."@)
    }
}

/// The handshake after an accepted [`FourWayHandshake::add_key`] call.
#[verifier::opaque]
pub open spec fn add_key_updated(pre: HandshakeView, k: EapolKeyView) -> HandshakeView
    recommends
        add_key_reject(pre, k) is None,
{
    let kind = spec_key_type(k.key_information);
    if kind == MessageType::Message1 {
        m1_updated(pre, k)
    } else if kind == MessageType::Message2 {
        m2_updated(pre, k)
    } else if kind == MessageType::Message3 {
        m3_updated(pre, k)
    } else {
        m4_updated(pre, k)
    }
}

/// A message slot, once set, is never replaced.
pub open spec fn slots_preserved(pre: HandshakeView, post: HandshakeView) -> bool {
    &&& pre.msg1 is Some ==> post.msg1 == pre.msg1
    &&& pre.msg2 is Some ==> post.msg2 == pre.msg2
    &&& pre.msg3 is Some ==> post.msg3 == pre.msg3
    &&& pre.msg4 is Some ==> post.msg4 == pre.msg4
}

/// At most one of the four message slots differs between the two states.
pub open spec fn at_most_one_slot_changed(pre: HandshakeView, post: HandshakeView) -> bool {
    ||| (post.msg2 == pre.msg2 && post.msg3 == pre.msg3 && post.msg4 == pre.msg4)
    ||| (post.msg1 == pre.msg1 && post.msg3 == pre.msg3 && post.msg4 == pre.msg4)
    ||| (post.msg1 == pre.msg1 && post.msg2 == pre.msg2 && post.msg4 == pre.msg4)
    ||| (post.msg1 == pre.msg1 && post.msg2 == pre.msg2 && post.msg3 == pre.msg3)
}

/// One [`FourWayHandshake::add_key`] call mutates at most one message slot,
/// and never replaces a slot that is already filled.  The hypotheses are the
/// call's contract: an accepted key moves the handshake to
/// [`add_key_updated`], a rejected key leaves it untouched.
pub proof fn lemma_add_key_mutates_at_most_one_slot(
    pre: HandshakeView,
    post: HandshakeView,
    k: EapolKeyView,
    accepted: bool,
)
    requires
        accepted ==> add_key_reject(pre, k) is None && post =~= add_key_updated(pre, k),
        !accepted ==> post == pre,
    ensures
        slots_preserved(pre, post),
        at_most_one_slot_changed(pre, post),
{
    reveal(add_key_reject);
    reveal(add_key_updated);
}

/// Feeding the same key twice: when the first call accepted it, the second
/// call rejects it as already present, whichever message it was.
pub proof fn lemma_same_key_twice(pre: HandshakeView, mid: HandshakeView, k: EapolKeyView)
    requires
        add_key_reject(pre, k) is None,
        mid =~= add_key_updated(pre, k),
    ensures
        add_key_reject(mid, k) == Some(
            "Handshake already complete or message already present."@,
        ),
{
    reveal(add_key_reject);
    reveal(add_key_updated);
}

/// Compares `a[from..to]` with `b[from..to]`.
pub fn ranges_equal(a: &[u8], b: &[u8], from: usize, to: usize) -> (r: bool)
    requires
        from <= to <= a@.len(),
        to <= b@.len(),
    ensures
        r == (a@.subrange(from as int, to as int) == b@.subrange(from as int, to as int)),
{
    let mut i: usize = from;
    while i < to
        invariant
            from <= i <= to <= a@.len(),
            to <= b@.len(),
            forall|j: int| from <= j < i ==> a@[j] == b@[j],
        decreases to - i,
    {
        if a[i] != b[i] {
            proof {
                assert(a@.subrange(from as int, to as int)[i - from] != b@.subrange(
                    from as int,
                    to as int,
                )[i - from]);
            }
            return false;
        }
        i = i + 1;
    }
    proof {
        assert(a@.subrange(from as int, to as int) =~= b@.subrange(from as int, to as int));
    }
    true
}

/// The four anomaly-flag bits of the message-pair byte: AP-less `0x10`,
/// nonce-correction `0x80`, little-endian `0x20`, big-endian `0x40`.
pub open spec fn message_pair_flags(h: HandshakeView) -> u8 {
    ((if h.apless {
        0x10u8
    } else {
        0u8
    }) + (if h.nc {
        0x80u8
    } else {
        0u8
    }) + (if h.l_endian {
        0x20u8
    } else {
        0u8
    }) + (if h.b_endian {
        0x40u8
    } else {
        0u8
    })) as u8
}

/// The low nibble of the message-pair byte: the message pair that sourced
/// the client key frame, in priority order M2+M3, M1+M2, M1+M4, M3+M4.
pub open spec fn message_pair_low(h: HandshakeView) -> u8 {
    if h.msg2 is Some && h.msg3 is Some {
        0x02u8
    } else if h.msg1 is Some && h.msg2 is Some {
        0x00u8
    } else if h.msg1 is Some && h.msg4 is Some {
        0x01u8
    } else if h.msg3 is Some && h.msg4 is Some {
        0x05u8
    } else {
        0x00u8
    }
}

/// The message-pair byte: anomaly flags in the high nibble, message-pair
/// kind in the low nibble.  The flag values and kind values share no bits,
/// so the sum equals the bit-wise or.
pub open spec fn message_pair(h: HandshakeView) -> u8 {
    (message_pair_flags(h) + message_pair_low(h)) as u8
}

/// The high nibble of the message-pair byte carries exactly the four
/// anomaly flags and the low nibble carries exactly the message-pair kind,
/// whichever pair of slots selected that kind.
pub proof fn lemma_message_pair_nibbles(h: HandshakeView)
    ensures
        message_pair(h) / 16 == message_pair_flags(h) / 16,
        message_pair(h) % 16 == message_pair_low(h),
        message_pair_flags(h) % 16 == 0,
{
}

/// The flag bits of the message-pair byte depend only on the four flags:
/// two handshakes with the same flags get the same high nibble, whatever
/// their slots hold.
pub proof fn lemma_message_pair_high_nibble(h1: HandshakeView, h2: HandshakeView)
    requires
        h1.apless == h2.apless,
        h1.nc == h2.nc,
        h1.l_endian == h2.l_endian,
        h1.b_endian == h2.b_endian,
    ensures
        message_pair(h1) / 16 == message_pair(h2) / 16,
{
}

/// The view of a freshly created handshake: every slot and derived field
/// absent, every flag clear.
pub open spec fn empty_handshake() -> HandshakeView {
    HandshakeView {
        msg1: None,
        msg2: None,
        msg3: None,
        msg4: None,
        last_msg: None,
        eapol_client: None,
        mic: None,
        anonce: None,
        snonce: None,
        apless: false,
        nc: false,
        l_endian: false,
        b_endian: false,
        pmkid: None,
        mac_ap: None,
        mac_client: None,
        essid: None,
    }
}

/// Copies an optional string; the copy has the same view.
pub fn clone_opt_string(o: &Option<String>) -> (r: Option<String>)
    ensures
        opt_view(r) == opt_view(*o),
{
    match o {
        Some(s) => Some(s.clone()),
        None => None,
    }
}

impl FourWayHandshake {
    /// An empty handshake: every slot and derived field absent, every flag
    /// clear.
    pub fn new() -> (r: Self)
        ensures
            r@ == empty_handshake(),
            r@.msg1 is None,
            r@.msg2 is None,
            r@.msg3 is None,
            r@.msg4 is None,
            r@.last_msg is None,
            r@.eapol_client is None,
            r@.mic is None,
            r@.anonce is None,
            r@.snonce is None,
            !r@.apless,
            !r@.nc,
            !r@.l_endian,
            !r@.b_endian,
            r@.pmkid is None,
            r@.mac_ap is None,
            r@.mac_client is None,
            r@.essid is None,
    {
        let r = FourWayHandshake {
            msg1: None,
            msg2: None,
            msg3: None,
            msg4: None,
            last_msg: None,
            eapol_client: None,
            mic: None,
            anonce: None,
            snonce: None,
            apless: false,
            nc: false,
            l_endian: false,
            b_endian: false,
            pmkid: None,
            mac_ap: None,
            mac_client: None,
            essid: None,
        };
        proof {
            assert(r@ =~= empty_handshake());
        }
        r
    }

    /// Whether the cracker line can be produced from this handshake.
    pub fn complete(&self) -> (r: bool)
        ensures
            r == self@.complete(),
    {
        self.eapol_client.is_some() && self.mic.is_some() && self.anonce.is_some()
            && self.snonce.is_some() && self.mac_ap.is_some() && self.mac_client.is_some()
            && self.essid.is_some()
    }

    /// Whether message 1 has been accepted.
    pub fn has_m1(&self) -> (r: bool)
        ensures
            r == (self@.msg1 is Some),
    {
        self.msg1.is_some()
    }

    /// Whether a valid PMKID was taken from message 1.
    pub fn has_pmkid(&self) -> (r: bool)
        ensures
            r == (self@.pmkid is Some),
    {
        self.pmkid.is_some()
    }

    /// The ESSID, or the empty string when none is known.
    pub fn essid_to_string(&self) -> (r: String)
        ensures
            self@.essid matches Some(e) ==> r@ == e,
            self@.essid is None ==> r@.len() == 0,
    {
        if let Some(essid) = &self.essid {
            essid.clone()
        } else {
            String::new()
        }
    }

    /// The message-pair byte of this handshake.
    pub fn calculate_message_pair(&self) -> (r: u8)
        ensures
            r == message_pair(self@),
    {
        let mut pair: u8 = 0;
        if self.apless {
            pair = pair + 0x10;
        }
        if self.nc {
            pair = pair + 0x80;
        }
        if self.l_endian {
            pair = pair + 0x20;
        }
        if self.b_endian {
            pair = pair + 0x40;
        }
        if self.msg2.is_some() && self.msg3.is_some() {
            pair = pair + 0x02;
        } else if self.msg1.is_some() && self.msg2.is_some() {
        } else if self.msg1.is_some() && self.msg4.is_some() {
            pair = pair + 0x01;
        } else if self.msg3.is_some() && self.msg4.is_some() {
            pair = pair + 0x05;
        }
        pair
    }
}

impl FourWayHandshake {
    /// Places one EAPOL key into its slot, after the per-message checks.
    /// [`add_key_reject`] states exactly which keys are turned away and with
    /// which diagnostic; [`add_key_updated`] states the accepted update.  A
    /// rejected key leaves the handshake untouched, an accepted key fills
    /// exactly one slot, and a complete handshake never becomes incomplete.
    #[verifier::rlimit(40)]
    pub fn add_key(&mut self, new_key: &EapolKey) -> (r: Result<(), &'static str>)
        requires
            new_key.key_data_length == 22 ==> new_key.key_data@.len() == 22,
        ensures
            (r is Ok) == (add_key_reject(old(self)@, new_key@) is None),
            r is Ok ==> final(self)@ =~= add_key_updated(old(self)@, new_key@),
            r matches Err(e) ==> (add_key_reject(old(self)@, new_key@) matches Some(m) && e@
                == m),
            r is Err ==> *final(self) == *old(self),
            old(self)@.complete() ==> final(self)@.complete(),
            final(self).mac_ap == old(self).mac_ap,
            final(self).mac_client == old(self).mac_client,
            final(self).essid == old(self).essid,
    {
        proof {
            reveal(add_key_reject);
            reveal(add_key_updated);
        }
        let key_type = new_key.determine_key_type();
        match key_type {
            MessageType::Gtk => Err("EAPOL is a GTK Update... ignoring."),
            MessageType::Message1 => {
                if self.msg1.is_none() {
                    self.accept_m1(new_key)
                } else {
                    Err("Handshake already complete or message already present.")
                }
            },
            MessageType::Message2 => {
                if self.msg2.is_none() {
                    self.accept_m2(new_key)
                } else {
                    Err("Handshake already complete or message already present.")
                }
            },
            MessageType::Message3 => {
                if self.msg3.is_none() {
                    self.accept_m3(new_key)
                } else {
                    Err("Handshake already complete or message already present.")
                }
            },
            MessageType::Message4 => {
                if self.msg4.is_none() {
                    self.accept_m4(new_key)
                } else {
                    Err("Handshake already complete or message already present.")
                }
            },
            MessageType::Error => Err("Handshake already complete or message already present."),
        }
    }

    /// Message 1 must carry no MIC; it supplies the ANonce and, when its 22
    /// key-data bytes form a valid PMKID element, the PMKID.
    fn accept_m1(&mut self, new_key: &EapolKey) -> (r: Result<(), &'static str>)
        requires
            old(self)@.msg1 is None,
            spec_key_type(new_key.key_information) == MessageType::Message1,
            new_key.key_data_length == 22 ==> new_key.key_data@.len() == 22,
        ensures
            (r is Ok) == (m1_reject(new_key@) is None),
            r is Ok ==> final(self)@ =~= m1_updated(old(self)@, new_key@),
            r matches Err(e) ==> (m1_reject(new_key@) matches Some(m) && e@ == m),
            r is Err ==> *final(self) == *old(self),
            old(self)@.complete() ==> final(self)@.complete(),
            final(self).mac_ap == old(self).mac_ap,
            final(self).mac_client == old(self).mac_client,
            final(self).essid == old(self).essid,
    {
        if !slice_is_zero(new_key.key_mic.as_slice()) {
            return Err("Invalid Message 1: MIC should not be present");
        }
        if new_key.key_data_length == 22 {
            let parsed = Pmkid::from_bytes(new_key.key_data.as_slice());
            if parsed.valid() {
                self.pmkid = Some(parsed);
            }
        }
        self.anonce = Some(new_key.key_nonce);
        self.msg1 = Some(new_key.clone());
        self.last_msg = Some(new_key.clone());
        proof {
            assert(self@ =~= m1_updated(old(self)@, new_key@));
        }
        Ok(())
    }

    /// Message 2 must carry a MIC and a non-zero SNonce, and must sit inside
    /// the replay-counter and two-second windows after message 1 when that
    /// slot is filled.  It supplies the SNonce, the serialized client key
    /// frame and the MIC together.
    fn accept_m2(&mut self, new_key: &EapolKey) -> (r: Result<(), &'static str>)
        requires
            old(self)@.msg2 is None,
            spec_key_type(new_key.key_information) == MessageType::Message2,
        ensures
            (r is Ok) == (m2_reject(old(self)@, new_key@) is None),
            r is Ok ==> final(self)@ =~= m2_updated(old(self)@, new_key@),
            r matches Err(e) ==> (m2_reject(old(self)@, new_key@) matches Some(m) && e@ == m),
            r is Err ==> *final(self) == *old(self),
            old(self)@.complete() ==> final(self)@.complete(),
            final(self).mac_ap == old(self).mac_ap,
            final(self).mac_client == old(self).mac_client,
            final(self).essid == old(self).essid,
    {
        if slice_is_zero(new_key.key_mic.as_slice()) {
            return Err("Invalid Message 2: MIC should be present");
        }
        if slice_is_zero(new_key.key_nonce.as_slice()) {
            return Err("Invalid Message 2: Snonce should be present.");
        }
        if let Some(m1) = &self.msg1 {
            if !(new_key.replay_counter > m1.replay_counter && new_key.replay_counter
                - m1.replay_counter <= 3) {
                return Err("Invalid Message 2: RC value not within range.");
            }
            let gap = if new_key.timestamp >= m1.timestamp {
                new_key.timestamp - m1.timestamp
            } else {
                m1.timestamp - new_key.timestamp
            };
            if gap > 2 {
                return Err("Invalid Message 2: Time difference too great.");
            }
        }
        self.snonce = Some(new_key.key_nonce);
        self.msg2 = Some(new_key.clone());
        self.last_msg = Some(new_key.clone());
        self.eapol_client = Some(new_key.to_bytes());
        self.mic = Some(new_key.key_mic);
        proof {
            assert(self@ =~= m2_updated(old(self)@, new_key@));
        }
        Ok(())
    }

    /// Message 3 must carry a MIC and a non-zero nonce.  When the ANonce is
    /// known, its first 28 bytes must match; movement in the last four bytes
    /// sets the nonce-correction and endianness flags.  The message must sit
    /// inside the replay-counter and two-second windows after message 2 when
    /// that slot is filled.
    fn accept_m3(&mut self, new_key: &EapolKey) -> (r: Result<(), &'static str>)
        requires
            old(self)@.msg3 is None,
            spec_key_type(new_key.key_information) == MessageType::Message3,
        ensures
            (r is Ok) == (m3_reject(old(self)@, new_key@) is None),
            r is Ok ==> final(self)@ =~= m3_updated(old(self)@, new_key@),
            r matches Err(e) ==> (m3_reject(old(self)@, new_key@) matches Some(m) && e@ == m),
            r is Err ==> *final(self) == *old(self),
            old(self)@.complete() ==> final(self)@.complete(),
            final(self).mac_ap == old(self).mac_ap,
            final(self).mac_client == old(self).mac_client,
            final(self).essid == old(self).essid,
    {
        if slice_is_zero(new_key.key_mic.as_slice()) {
            return Err("Invalid Message 3: MIC should be present");
        }
        if slice_is_zero(new_key.key_nonce.as_slice()) {
            return Err("Invalid Message 3: Anonce should be present.");
        }
        let mut moved = false;
        let mut set_l_endian = false;
        let mut set_b_endian = false;
        let mut supply_anonce = false;
        if let Some(anonce) = &self.anonce {
            if !ranges_equal(new_key.key_nonce.as_slice(), anonce.as_slice(), 0, 28) {
                return Err("Invalid Message 3: Anonce not close enough to Message 1 Anonce.");
            }
            if !ranges_equal(new_key.key_nonce.as_slice(), anonce.as_slice(), 28, 32) {
                moved = true;
                if anonce[31] != new_key.key_nonce[31] {
                    set_l_endian = true;
                } else if anonce[28] != new_key.key_nonce[28] {
                    set_b_endian = true;
                }
            }
        } else {
            supply_anonce = true;
        }
        if let Some(m2) = &self.msg2 {
            if !(new_key.replay_counter > m2.replay_counter && new_key.replay_counter
                - m2.replay_counter <= 3) {
                return Err("Invalid Message 3: RC value not within range.");
            }
            let gap = if new_key.timestamp >= m2.timestamp {
                new_key.timestamp - m2.timestamp
            } else {
                m2.timestamp - new_key.timestamp
            };
            if gap > 2 {
                return Err("Invalid Message 3: Time difference too great.");
            }
        }
        self.nc = moved;
        if set_l_endian {
            self.l_endian = true;
        }
        if set_b_endian {
            self.b_endian = true;
        }
        if supply_anonce {
            self.anonce = Some(new_key.key_nonce);
        }
        self.msg3 = Some(new_key.clone());
        self.last_msg = Some(new_key.clone());
        proof {
            assert(self@ =~= m3_updated(old(self)@, new_key@));
        }
        Ok(())
    }

    /// Message 4 must carry a MIC and must sit inside the replay-counter and
    /// two-second windows after message 3 when that slot is filled.  A
    /// non-zero nonce backfills the SNonce, and the client key frame and MIC
    /// as well when message 2 never arrived.
    fn accept_m4(&mut self, new_key: &EapolKey) -> (r: Result<(), &'static str>)
        requires
            old(self)@.msg4 is None,
            spec_key_type(new_key.key_information) == MessageType::Message4,
        ensures
            (r is Ok) == (m4_reject(old(self)@, new_key@) is None),
            r is Ok ==> final(self)@ =~= m4_updated(old(self)@, new_key@),
            r matches Err(e) ==> (m4_reject(old(self)@, new_key@) matches Some(m) && e@ == m),
            r is Err ==> *final(self) == *old(self),
            old(self)@.complete() ==> final(self)@.complete(),
            final(self).mac_ap == old(self).mac_ap,
            final(self).mac_client == old(self).mac_client,
            final(self).essid == old(self).essid,
    {
        if slice_is_zero(new_key.key_mic.as_slice()) {
            return Err("Invalid Message 4: MIC should be present");
        }
        if let Some(m3) = &self.msg3 {
            if !(new_key.replay_counter > m3.replay_counter && new_key.replay_counter
                - m3.replay_counter <= 3) {
                return Err("Invalid Message 4: RC value not within range.");
            }
            let gap = if new_key.timestamp >= m3.timestamp {
                new_key.timestamp - m3.timestamp
            } else {
                m3.timestamp - new_key.timestamp
            };
            if gap > 2 {
                return Err("Invalid Message 4: Time difference too great.");
            }
        }
        self.msg4 = Some(new_key.clone());
        self.last_msg = Some(new_key.clone());
        if self.snonce.is_none() && !slice_is_zero(new_key.key_nonce.as_slice()) {
            self.snonce = Some(new_key.key_nonce);
            if self.eapol_client.is_none() {
                self.mic = Some(new_key.key_mic);
                self.eapol_client = Some(new_key.to_bytes());
            }
        }
        proof {
            assert(self@ =~= m4_updated(old(self)@, new_key@));
        }
        Ok(())
    }
}

/// The bytes of `WPA*01*`, the record tag of a PMKID line.
pub open spec fn wpa01_prefix() -> Seq<u8> {
    seq![0x57u8, 0x50u8, 0x41u8, 0x2au8, 0x30u8, 0x31u8, 0x2au8]
}

/// The bytes of `WPA*02*`, the record tag of a handshake line.
pub open spec fn wpa02_prefix() -> Seq<u8> {
    seq![0x57u8, 0x50u8, 0x41u8, 0x2au8, 0x30u8, 0x32u8, 0x2au8]
}

/// The PMKID line can be produced: a PMKID and all three identity fields
/// are present.
pub open spec fn can_pmkid_line(h: HandshakeView) -> bool {
    &&& h.pmkid is Some
    &&& h.mac_ap is Some
    &&& h.mac_client is Some
    &&& h.essid is Some
}

/// The PMKID record: tag, PMKID value, both addresses and the ESSID in
/// lowercase hex, two empty fields, and the message-pair byte.
pub open spec fn line01(h: HandshakeView) -> Seq<u8>
    recommends
        can_pmkid_line(h),
{
    wpa01_prefix() + hex_of(h.pmkid->0.pmkid) + seq![0x2au8] + hex_of(h.mac_ap->0) + seq![0x2au8]
        + hex_of(h.mac_client->0) + seq![0x2au8] + hex_of(
        vstd::utf8::encode_utf8(h.essid->0),
    ) + seq![0x2au8, 0x2au8, 0x2au8] + hex_of_byte(message_pair(h))
}

/// The handshake record: tag, then MIC, both addresses, ESSID, ANonce and
/// client key frame in lowercase hex, and the message-pair byte.
pub open spec fn line02(h: HandshakeView) -> Seq<u8>
    recommends
        h.complete(),
{
    wpa02_prefix() + hex_of(h.mic->0) + seq![0x2au8] + hex_of(h.mac_ap->0) + seq![0x2au8] + hex_of(
        h.mac_client->0,
    ) + seq![0x2au8] + hex_of(vstd::utf8::encode_utf8(h.essid->0)) + seq![0x2au8] + hex_of(
        h.anonce->0,
    ) + seq![0x2au8] + hex_of(h.eapol_client->0) + seq![0x2au8] + hex_of_byte(message_pair(h))
}

/// What the export of a handshake yields: the PMKID line when it can be
/// produced, additionally the handshake line once the handshake is
/// complete (the two separated by a single newline), and nothing when
/// neither exists.
pub open spec fn export_bytes(h: HandshakeView) -> Option<Seq<u8>> {
    if h.complete() && can_pmkid_line(h) {
        Some(line01(h) + seq![0x0au8] + line02(h))
    } else if h.complete() {
        Some(line02(h))
    } else if can_pmkid_line(h) {
        Some(line01(h))
    } else {
        None
    }
}

impl FourWayHandshake {
    /// Appends the PMKID record to `out`.
    fn push_line01(&self, out: &mut Vec<u8>)
        requires
            can_pmkid_line(self@),
        ensures
            final(out)@ == old(out)@ + line01(self@),
    {
        let tag: [u8; 7] = [0x57, 0x50, 0x41, 0x2a, 0x30, 0x31, 0x2a];
        push_bytes(out, tag.as_slice());
        proof {
            assert(tag@ =~= wpa01_prefix());
        }
        push_hex(out, self.pmkid.as_ref().unwrap().pmkid.as_slice());
        out.push(0x2a);
        push_hex(out, self.mac_ap.as_ref().unwrap().0.as_slice());
        out.push(0x2a);
        push_hex(out, self.mac_client.as_ref().unwrap().0.as_slice());
        out.push(0x2a);
        push_hex(out, self.essid.as_ref().unwrap().as_str().as_bytes());
        out.push(0x2a);
        out.push(0x2a);
        out.push(0x2a);
        let pair = self.calculate_message_pair();
        out.push(hex_digit_ascii(pair / 16));
        out.push(hex_digit_ascii(pair % 16));
        proof {
            assert(out@ =~= old(out)@ + line01(self@));
        }
    }

    /// Appends the handshake record to `out`.
    fn push_line02(&self, out: &mut Vec<u8>)
        requires
            self@.complete(),
        ensures
            final(out)@ == old(out)@ + line02(self@),
    {
        let tag: [u8; 7] = [0x57, 0x50, 0x41, 0x2a, 0x30, 0x32, 0x2a];
        push_bytes(out, tag.as_slice());
        proof {
            assert(tag@ =~= wpa02_prefix());
        }
        push_hex(out, self.mic.as_ref().unwrap().as_slice());
        out.push(0x2a);
        push_hex(out, self.mac_ap.as_ref().unwrap().0.as_slice());
        out.push(0x2a);
        push_hex(out, self.mac_client.as_ref().unwrap().0.as_slice());
        out.push(0x2a);
        push_hex(out, self.essid.as_ref().unwrap().as_str().as_bytes());
        out.push(0x2a);
        push_hex(out, self.anonce.as_ref().unwrap().as_slice());
        out.push(0x2a);
        push_hex(out, self.eapol_client.as_ref().unwrap().as_slice());
        out.push(0x2a);
        let pair = self.calculate_message_pair();
        out.push(hex_digit_ascii(pair / 16));
        out.push(hex_digit_ascii(pair % 16));
        proof {
            assert(out@ =~= old(out)@ + line02(self@));
        }
    }

    /// Produces the offline-cracker record lines, exactly as
    /// [`export_bytes`] states them, as an ASCII string.
    pub fn to_hashcat_22000_format(&self) -> (r: Option<String>)
        ensures
            (r is Some) == (export_bytes(self@) is Some),
            r matches Some(s) ==> (export_bytes(self@) matches Some(b) && vstd::utf8::encode_utf8(
                s@,
            ) == b),
    {
        let can01 = self.pmkid.is_some() && self.mac_ap.is_some() && self.mac_client.is_some()
            && self.essid.is_some();
        let is_complete = self.complete();
        if !can01 && !is_complete {
            return None;
        }
        let mut out: Vec<u8> = Vec::new();
        if can01 {
            self.push_line01(&mut out);
        }
        if is_complete {
            if can01 {
                out.push(0x0a);
            }
            self.push_line02(&mut out);
        }
        proof {
            lemma_export_parts_ascii(self@);
            assert(out@ =~= export_bytes(self@)->0);
        }
        Some(ascii_bytes_to_string(out))
    }
}

/// Every export line is ASCII: the tags, separators and hex digits all are.
pub proof fn lemma_export_parts_ascii(h: HandshakeView)
    ensures
        can_pmkid_line(h) ==> is_ascii_bytes(line01(h)),
        h.complete() ==> is_ascii_bytes(line02(h)),
{
    lemma_hex_of_ascii(h.pmkid->0.pmkid);
    lemma_hex_of_ascii(h.mac_ap->0);
    lemma_hex_of_ascii(h.mac_client->0);
    lemma_hex_of_ascii(vstd::utf8::encode_utf8(h.essid->0));
    lemma_hex_of_ascii(h.mic->0);
    lemma_hex_of_ascii(h.anonce->0);
    lemma_hex_of_ascii(h.eapol_client->0);
    if can_pmkid_line(h) {
        assert forall|i: int| 0 <= i < line01(h).len() implies line01(h)[i] < 0x80 by {
            assert(is_ascii_bytes(hex_of_byte(message_pair(h))));
        }
    }
    if h.complete() {
        assert forall|i: int| 0 <= i < line02(h).len() implies line02(h)[i] < 0x80 by {
            assert(is_ascii_bytes(hex_of_byte(message_pair(h))));
        }
    }
}

/// Copies an optional EAPOL key; the copy has the same view.
pub fn clone_opt_key(o: &Option<EapolKey>) -> (r: Option<EapolKey>)
    ensures
        opt_view(r) == opt_view(*o),
{
    match o {
        Some(k) => Some(k.clone()),
        None => None,
    }
}

impl Clone for FourWayHandshake {
    /// The copy has the same view.
    fn clone(&self) -> (r: Self)
        ensures
            r@ == self@,
    {
        let r = FourWayHandshake {
            msg1: clone_opt_key(&self.msg1),
            msg2: clone_opt_key(&self.msg2),
            msg3: clone_opt_key(&self.msg3),
            msg4: clone_opt_key(&self.msg4),
            last_msg: clone_opt_key(&self.last_msg),
            eapol_client: match &self.eapol_client {
                Some(v) => Some(clone_bytes(v)),
                None => None,
            },
            mic: self.mic,
            anonce: self.anonce,
            snonce: self.snonce,
            apless: self.apless,
            nc: self.nc,
            l_endian: self.l_endian,
            b_endian: self.b_endian,
            pmkid: self.pmkid,
            mac_ap: self.mac_ap,
            mac_client: self.mac_client,
            essid: match &self.essid {
                Some(s) => Some(s.clone()),
                None => None,
            },
        };
        proof {
            assert(r@ =~= self@);
        }
        r
    }
}

} // verus!
