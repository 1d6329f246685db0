use wpaforge::attack::FrameOut;
use wpaforge::attack::LogEvent;
use wpaforge::attack::OxideRuntime;
use wpaforge::attack::attack_authentication_from_ap;
use wpaforge::attack::deauth_attack;
use wpaforge::attack::m1_retrieval_attack;
use wpaforge::devices::AccessPoint;
use wpaforge::devices::AuthSequence;
use wpaforge::devices::Counters;
use wpaforge::eapol::EapolKey;
use wpaforge::mac::MacAddress;
use wpaforge::storage::HandshakeStorage;

const AP_A: MacAddress = MacAddress([0xaa, 0xbb, 0xcc, 0xdd, 0xee, 0xff]);
const AP_B: MacAddress = MacAddress([0xa0, 0xb0, 0xc0, 0xd0, 0xe0, 0xf0]);
const CLIENT: MacAddress = MacAddress([0x11, 0x22, 0x33, 0x44, 0x55, 0x66]);
const ROGUE: MacAddress = MacAddress([0x02, 0x00, 0x00, 0x00, 0x00, 0x01]);

fn ap_record(mac: MacAddress) -> AccessPoint {
    AccessPoint {
        mac,
        ssid: Some(String::from("net")),
        rsn_akm_psk: Some(true),
        ap_mfp: Some(false),
        cs_tkip: Some(false),
        gs_tkip: Some(false),
        akm_mask: true,
        client_list: Vec::new(),
        beacon_count: 0,
        interactions: 0,
        auth_sequence: AuthSequence { state: 0, t1: 0, t2: 0 },
    }
}

fn runtime(aps: Vec<AccessPoint>, targets: Vec<MacAddress>) -> OxideRuntime {
    OxideRuntime {
        handshake_storage: HandshakeStorage::new(),
        access_points: aps,
        counters: Counters::new(),
        targets,
        rogue_client: ROGUE,
        notx: false,
        status_log: Vec::new(),
    }
}

fn key(ki: u16, rc: u64, nonce: [u8; 32], mic: [u8; 16], ts: u64) -> EapolKey {
    EapolKey {
        protocol_version: 2,
        timestamp: ts,
        packet_type: 3,
        packet_length: 95,
        descriptor_type: 2,
        key_information: ki,
        key_length: 16,
        replay_counter: rc,
        key_nonce: nonce,
        key_iv: [0; 16],
        key_rsc: 0,
        key_id: 0,
        key_mic: mic,
        key_data_length: 0,
        key_data: Vec::new(),
    }
}

#[test]
fn m1_retrieval_sends_authentication_when_gates_pass() {
    let mut rt = runtime(vec![ap_record(AP_A)], Vec::new());
    let frames = m1_retrieval_attack(&mut rt, &AP_A, 100);
    assert_eq!(frames.len(), 1);
    assert!(matches!(
        frames[0],
        FrameOut::AuthenticationNoack { ap, client, seq: 0 } if ap == AP_A && client == ROGUE
    ));
    assert_eq!(rt.access_points[0].auth_sequence.state, 1);
    assert_eq!(rt.access_points[0].auth_sequence.t1, 100);
    assert_eq!(rt.access_points[0].interactions, 1);
    assert_eq!(rt.counters.seq2, 1);
}

#[test]
fn m1_retrieval_probes_first_when_ssid_unknown() {
    let mut ap = ap_record(AP_A);
    ap.ssid = None;
    let mut rt = runtime(vec![ap], Vec::new());
    let frames = m1_retrieval_attack(&mut rt, &AP_A, 100);
    assert_eq!(frames.len(), 2);
    assert!(matches!(frames[0], FrameOut::ProbeRequestUndirected { src, seq: 0 } if src == ROGUE));
    assert!(matches!(frames[1], FrameOut::AuthenticationNoack { seq: 1, .. }));
    assert_eq!(rt.access_points[0].interactions, 2);
}

#[test]
fn m1_retrieval_respects_cooldown() {
    let mut ap = ap_record(AP_A);
    ap.auth_sequence.t1 = 99;
    let mut rt = runtime(vec![ap], Vec::new());
    let frames = m1_retrieval_attack(&mut rt, &AP_A, 100);
    assert!(frames.is_empty());
    assert_eq!(rt.access_points[0].auth_sequence.state, 0);
}

#[test]
fn m1_retrieval_skips_non_psk_networks() {
    let mut ap = ap_record(AP_A);
    ap.rsn_akm_psk = Some(false);
    let mut rt = runtime(vec![ap], Vec::new());
    assert!(m1_retrieval_attack(&mut rt, &AP_A, 100).is_empty());
}

#[test]
fn no_attack_once_complete_handshake_is_stored() {
    let mut rt = runtime(vec![ap_record(AP_A)], Vec::new());
    let essid = Some(String::from("net"));
    rt.handshake_storage
        .add_or_update_handshake(&AP_A, &CLIENT, key(0x008a, 1, [7; 32], [0; 16], 100), essid.clone())
        .unwrap();
    rt.handshake_storage
        .add_or_update_handshake(&AP_A, &CLIENT, key(0x010a, 2, [9; 32], [2; 16], 101), essid)
        .unwrap();
    assert!(rt.handshake_storage.has_complete_handshake_for_ap(&AP_A));
    rt.access_points[0].auth_sequence = AuthSequence { state: 1, t1: 99, t2: 99 };
    assert!(m1_retrieval_attack(&mut rt, &AP_A, 100).is_empty());
    assert!(deauth_attack(&mut rt, &AP_A, 0).is_empty());
    assert!(attack_authentication_from_ap(&AP_A, &ROGUE, &mut rt, 100).is_empty());
    assert_eq!(rt.access_points[0].interactions, 0);
    assert_eq!(rt.access_points[0].auth_sequence.state, 1);
    assert_eq!(rt.counters.seq1, 0);
    assert_eq!(rt.counters.seq2, 0);
}

#[test]
fn allow_list_isolates_other_access_points() {
    let mut rt = runtime(vec![ap_record(AP_B)], vec![AP_A]);
    rt.access_points[0].auth_sequence.state = 1;
    assert!(m1_retrieval_attack(&mut rt, &AP_B, 100).is_empty());
    assert!(deauth_attack(&mut rt, &AP_B, 0).is_empty());
    assert!(attack_authentication_from_ap(&AP_B, &ROGUE, &mut rt, 100).is_empty());
    assert_eq!(rt.access_points[0].interactions, 0);
    assert_eq!(rt.access_points[0].auth_sequence.state, 1);
    assert_eq!(rt.counters.seq1, 0);
    assert_eq!(rt.counters.seq2, 0);
    assert!(rt.status_log.is_empty());
}

#[test]
fn deauth_sends_pair_to_known_client_on_cadence() {
    let mut ap = ap_record(AP_A);
    ap.client_list = vec![CLIENT];
    ap.beacon_count = 32;
    let mut rt = runtime(vec![ap], Vec::new());
    let frames = deauth_attack(&mut rt, &AP_A, 0);
    assert_eq!(frames.len(), 2);
    assert!(matches!(
        frames[0],
        FrameOut::DeauthenticationFromAp { ap, target, seq: 0, .. } if ap == AP_A && target == CLIENT
    ));
    assert!(matches!(
        frames[1],
        FrameOut::DeauthenticationFromClient { ap, client, seq: 1, .. } if ap == AP_A && client == CLIENT
    ));
    assert_eq!(rt.access_points[0].interactions, 1);
    assert!(matches!(rt.status_log[0], LogEvent::AttackedBeacon { ap } if ap == AP_A));
}

#[test]
fn deauth_broadcasts_without_known_clients() {
    let mut ap = ap_record(AP_A);
    ap.beacon_count = 64;
    let mut rt = runtime(vec![ap], Vec::new());
    let frames = deauth_attack(&mut rt, &AP_A, 0);
    assert_eq!(frames.len(), 1);
    assert!(matches!(
        frames[0],
        FrameOut::DeauthenticationFromAp { target, .. } if target == MacAddress([0xff; 6])
    ));
}

#[test]
fn deauth_fires_only_on_beacon_multiples_of_32_and_never_under_mfp() {
    for beacon in [1u32, 31, 33, 63] {
        let mut ap = ap_record(AP_A);
        ap.beacon_count = beacon;
        let mut rt = runtime(vec![ap], Vec::new());
        assert!(deauth_attack(&mut rt, &AP_A, 0).is_empty(), "beacon={beacon}");
    }
    let mut ap = ap_record(AP_A);
    ap.beacon_count = 32;
    ap.ap_mfp = Some(true);
    let mut rt = runtime(vec![ap], Vec::new());
    assert!(deauth_attack(&mut rt, &AP_A, 0).is_empty());
}

#[test]
fn sixty_four_beacons_yield_exactly_two_deauth_pairs() {
    let mut ap = ap_record(AP_A);
    ap.client_list = vec![CLIENT];
    let mut rt = runtime(vec![ap], Vec::new());
    let mut pairs = 0;
    for beacon in 0u32..64 {
        rt.access_points[0].beacon_count = beacon;
        let frames = deauth_attack(&mut rt, &AP_A, 0);
        if !frames.is_empty() {
            assert_eq!(frames.len(), 2);
            pairs += 1;
        }
    }
    assert_eq!(pairs, 2);
}

#[test]
fn deauth_dry_run_transmits_nothing() {
    let mut ap = ap_record(AP_A);
    ap.beacon_count = 32;
    ap.client_list = vec![CLIENT];
    let mut rt = runtime(vec![ap], Vec::new());
    rt.notx = true;
    assert!(deauth_attack(&mut rt, &AP_A, 0).is_empty());
    assert_eq!(rt.counters.seq1, 0);
    assert_eq!(rt.access_points[0].interactions, 0);
}

#[test]
fn association_follows_authentication_phase() {
    let mut ap = ap_record(AP_A);
    ap.auth_sequence = AuthSequence { state: 1, t1: 99, t2: 99 };
    let mut rt = runtime(vec![ap], Vec::new());
    let frames = attack_authentication_from_ap(&AP_A, &ROGUE, &mut rt, 100);
    assert_eq!(frames.len(), 1);
    match &frames[0] {
        FrameOut::AssociationRequest { ap, client, bssid, seq, ssid, .. } => {
            assert_eq!(*ap, AP_A);
            assert_eq!(*client, ROGUE);
            assert_eq!(*bssid, AP_A);
            assert_eq!(*seq, 0);
            assert_eq!(ssid.as_deref(), Some("net"));
        },
        other => panic!("unexpected frame {:?}", other),
    }
    assert_eq!(rt.access_points[0].auth_sequence.state, 2);
    assert_eq!(rt.access_points[0].interactions, 1);
}

#[test]
fn association_resets_state_after_cooldown_expiry() {
    let mut ap = ap_record(AP_A);
    ap.auth_sequence = AuthSequence { state: 1, t1: 10, t2: 10 };
    let mut rt = runtime(vec![ap], Vec::new());
    let frames = attack_authentication_from_ap(&AP_A, &ROGUE, &mut rt, 100);
    assert!(frames.is_empty());
    assert_eq!(rt.access_points[0].auth_sequence.state, 0);
    assert_eq!(rt.access_points[0].auth_sequence.t2, 100);
    assert!(matches!(rt.status_log[0], LogEvent::StateReset { ap } if ap == AP_A));
}

#[test]
fn association_skips_wrong_phase() {
    let mut rt = runtime(vec![ap_record(AP_A)], Vec::new());
    assert!(attack_authentication_from_ap(&AP_A, &ROGUE, &mut rt, 100).is_empty());
    assert_eq!(rt.access_points[0].auth_sequence.state, 0);
}

#[test]
fn sequence_counters_are_independent_and_wrap() {
    let mut counters = Counters::new();
    assert_eq!(counters.sequence1(), 0);
    assert_eq!(counters.sequence1(), 1);
    assert_eq!(counters.sequence2(), 0);
    assert_eq!(counters.seq1, 2);
    assert_eq!(counters.seq2, 1);
    counters.seq1 = 4095;
    assert_eq!(counters.sequence1(), 4095);
    assert_eq!(counters.seq1, 0);
}
