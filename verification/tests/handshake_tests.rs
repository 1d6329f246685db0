use wpaforge::eapol::EapolKey;
use wpaforge::handshake::FourWayHandshake;
use wpaforge::mac::MacAddress;
use wpaforge::pmkid::Pmkid;

const KI_M1: u16 = 0x008a;
const KI_M2: u16 = 0x010a;
const KI_M3: u16 = 0x13ca;
const KI_M4: u16 = 0x030a;
const KI_GTK: u16 = 0x0382;

fn key(ki: u16, rc: u64, nonce: [u8; 32], mic: [u8; 16], ts: u64) -> EapolKey {
    EapolKey {
        protocol_version: 2,
        timestamp: ts,
        packet_type: 3,
        packet_length: 95,
        descriptor_type: 2,
        key_information: ki,
        key_length: 16,
        replay_counter: rc,
        key_nonce: nonce,
        key_iv: [0; 16],
        key_rsc: 0,
        key_id: 0,
        key_mic: mic,
        key_data_length: 0,
        key_data: Vec::new(),
    }
}

fn nonce_filled(b: u8) -> [u8; 32] {
    [b; 32]
}

fn mic_filled(b: u8) -> [u8; 16] {
    [b; 16]
}

fn pmkid_key_data(value: [u8; 16]) -> Vec<u8> {
    let mut data = vec![0xdd, 0x14, 0x00, 0x0f, 0xac, 0x04];
    data.extend_from_slice(&value);
    data
}

#[test]
fn unclassifiable_key_information_reports_already_present() {
    // Pairwise bit set, but ACK together with MIC and nothing else matches
    // no handshake message.
    let mut hs = FourWayHandshake::new();
    let odd = key(0x0188, 1, nonce_filled(7), mic_filled(1), 100);
    assert_eq!(
        hs.add_key(&odd),
        Err("Handshake already complete or message already present.")
    );
}

#[test]
fn m1_records_anonce_and_slot() {
    let mut hs = FourWayHandshake::new();
    let m1 = key(KI_M1, 1, nonce_filled(7), [0; 16], 100);
    assert!(hs.add_key(&m1).is_ok());
    assert!(hs.has_m1());
    assert_eq!(hs.anonce, Some(nonce_filled(7)));
    assert!(hs.msg2.is_none() && hs.msg3.is_none() && hs.msg4.is_none());
}

#[test]
fn m1_with_mic_is_rejected() {
    let mut hs = FourWayHandshake::new();
    let bad = key(KI_M1, 1, nonce_filled(7), mic_filled(1), 100);
    assert_eq!(hs.add_key(&bad), Err("Invalid Message 1: MIC should not be present"));
    assert!(!hs.has_m1());
}

#[test]
fn gtk_update_is_ignored() {
    let mut hs = FourWayHandshake::new();
    let gtk = key(KI_GTK, 1, nonce_filled(7), mic_filled(1), 100);
    assert_eq!(hs.add_key(&gtk), Err("EAPOL is a GTK Update... ignoring."));
}

#[test]
fn same_key_twice_first_ok_then_already_present() {
    let mut hs = FourWayHandshake::new();
    let m1 = key(KI_M1, 1, nonce_filled(7), [0; 16], 100);
    assert_eq!(hs.add_key(&m1), Ok(()));
    assert_eq!(
        hs.add_key(&m1),
        Err("Handshake already complete or message already present.")
    );
}

#[test]
fn m2_replay_counter_window() {
    let m1 = key(KI_M1, 10, nonce_filled(7), [0; 16], 100);
    for (rc, ok) in [(10u64, false), (11, true), (13, true), (14, false), (9, false)] {
        let mut hs = FourWayHandshake::new();
        hs.add_key(&m1).unwrap();
        let m2 = key(KI_M2, rc, nonce_filled(9), mic_filled(2), 100);
        assert_eq!(hs.add_key(&m2).is_ok(), ok, "rc={rc}");
    }
}

#[test]
fn m2_at_three_seconds_rejected_at_two_accepted() {
    let m1 = key(KI_M1, 10, nonce_filled(7), [0; 16], 100);

    let mut hs = FourWayHandshake::new();
    hs.add_key(&m1).unwrap();
    let late = key(KI_M2, 11, nonce_filled(9), mic_filled(2), 103);
    assert_eq!(hs.add_key(&late), Err("Invalid Message 2: Time difference too great."));

    let mut hs = FourWayHandshake::new();
    hs.add_key(&m1).unwrap();
    let in_time = key(KI_M2, 11, nonce_filled(9), mic_filled(2), 102);
    assert_eq!(hs.add_key(&in_time), Ok(()));
}

#[test]
fn m2_supplies_snonce_mic_and_client_frame() {
    let mut hs = FourWayHandshake::new();
    let m2 = key(KI_M2, 11, nonce_filled(9), mic_filled(2), 100);
    hs.add_key(&m2).unwrap();
    assert_eq!(hs.snonce, Some(nonce_filled(9)));
    assert_eq!(hs.mic, Some(mic_filled(2)));
    assert!(hs.eapol_client.is_some());
}

#[test]
fn eapol_client_matches_libwifi_serialization() {
    let mut hs = FourWayHandshake::new();
    let m2 = key(KI_M2, 11, nonce_filled(9), mic_filled(2), 100);
    hs.add_key(&m2).unwrap();
    let reference = libwifi::frame::EapolKey {
        protocol_version: 2,
        timestamp: std::time::UNIX_EPOCH + std::time::Duration::from_secs(100),
        packet_type: 3,
        packet_length: 95,
        descriptor_type: 2,
        key_information: KI_M2,
        key_length: 16,
        replay_counter: 11,
        key_nonce: nonce_filled(9),
        key_iv: [0; 16],
        key_rsc: 0,
        key_id: 0,
        key_mic: mic_filled(2),
        key_data_length: 0,
        key_data: Vec::new(),
    };
    assert_eq!(hs.eapol_client.clone().unwrap(), reference.to_bytes().unwrap());
}

#[test]
fn pmkid_from_identical_bytes_compare_equal() {
    let bytes = pmkid_key_data([0x5a; 16]);
    let a = Pmkid::from_bytes(&bytes);
    let b = Pmkid::from_bytes(&bytes);
    assert_eq!(a, b);
    assert_eq!(a.len, 0x14);
    assert_eq!(a.oui, [0x00, 0x0f, 0xac]);
    assert_eq!(a.oui_type, 4);
    assert_eq!(a.pmkid, [0x5a; 16]);
}

#[test]
fn m1_with_zero_pmkid_value_does_not_populate_pmkid() {
    let mut hs = FourWayHandshake::new();
    let mut m1 = key(KI_M1, 1, nonce_filled(7), [0; 16], 100);
    m1.key_data = pmkid_key_data([0; 16]);
    m1.key_data_length = 22;
    assert_eq!(hs.add_key(&m1), Ok(()));
    assert!(!hs.has_pmkid());
}

#[test]
fn m1_with_valid_pmkid_populates_pmkid() {
    let mut hs = FourWayHandshake::new();
    let mut m1 = key(KI_M1, 1, nonce_filled(7), [0; 16], 100);
    m1.key_data = pmkid_key_data([0x5a; 16]);
    m1.key_data_length = 22;
    assert_eq!(hs.add_key(&m1), Ok(()));
    assert!(hs.has_pmkid());
    assert_eq!(hs.pmkid.unwrap().pmkid, [0x5a; 16]);
}

#[test]
fn clean_four_way_completes_without_nonce_correction() {
    let mut hs = FourWayHandshake::new();
    let anonce = nonce_filled(7);
    hs.add_key(&key(KI_M1, 10, anonce, [0; 16], 100)).unwrap();
    hs.add_key(&key(KI_M2, 11, nonce_filled(9), mic_filled(2), 101)).unwrap();
    hs.add_key(&key(KI_M3, 12, anonce, mic_filled(3), 101)).unwrap();
    hs.add_key(&key(KI_M4, 13, nonce_filled(9), mic_filled(4), 102)).unwrap();
    assert!(!hs.nc);
    assert!(!hs.l_endian && !hs.b_endian);
    assert_eq!(hs.calculate_message_pair(), 0x02);
    hs.mac_ap = Some(MacAddress([0xaa, 0xbb, 0xcc, 0xdd, 0xee, 0xff]));
    hs.mac_client = Some(MacAddress([0x11, 0x22, 0x33, 0x44, 0x55, 0x66]));
    hs.essid = Some(String::from("net"));
    assert!(hs.complete());
}

#[test]
fn m3_nonce_change_in_byte_31_sets_little_endian_correction() {
    let mut hs = FourWayHandshake::new();
    let anonce = nonce_filled(7);
    hs.add_key(&key(KI_M1, 10, anonce, [0; 16], 100)).unwrap();
    hs.add_key(&key(KI_M2, 11, nonce_filled(9), mic_filled(2), 101)).unwrap();
    let mut moved = anonce;
    moved[31] = moved[31].wrapping_add(1);
    hs.add_key(&key(KI_M3, 12, moved, mic_filled(3), 101)).unwrap();
    assert!(hs.nc);
    assert!(hs.l_endian);
    assert!(!hs.b_endian);
    assert_eq!(hs.calculate_message_pair() & 0xf0, 0xa0);
    assert_eq!(hs.calculate_message_pair(), 0xa2);
}

#[test]
fn m3_nonce_change_in_byte_28_sets_big_endian_correction() {
    let mut hs = FourWayHandshake::new();
    let anonce = nonce_filled(7);
    hs.add_key(&key(KI_M1, 10, anonce, [0; 16], 100)).unwrap();
    let mut moved = anonce;
    moved[28] = moved[28].wrapping_add(1);
    hs.add_key(&key(KI_M3, 11, moved, mic_filled(3), 101)).unwrap();
    assert!(hs.nc);
    assert!(hs.b_endian);
    assert!(!hs.l_endian);
}

#[test]
fn m3_with_distant_anonce_is_rejected() {
    let mut hs = FourWayHandshake::new();
    hs.add_key(&key(KI_M1, 10, nonce_filled(7), [0; 16], 100)).unwrap();
    let m3 = key(KI_M3, 11, nonce_filled(8), mic_filled(3), 101);
    assert_eq!(
        hs.add_key(&m3),
        Err("Invalid Message 3: Anonce not close enough to Message 1 Anonce.")
    );
    assert!(!hs.nc && !hs.l_endian && !hs.b_endian);
}

#[test]
fn apless_m4_backfills_snonce_and_client_frame() {
    let mut hs = FourWayHandshake::new();
    let m4 = key(KI_M4, 5, nonce_filled(9), mic_filled(4), 100);
    assert_eq!(hs.add_key(&m4), Ok(()));
    assert_eq!(hs.snonce, Some(nonce_filled(9)));
    assert_eq!(hs.mic, Some(mic_filled(4)));
    assert!(hs.eapol_client.is_some());
    assert!(!hs.complete());
}

#[test]
fn add_key_mutates_at_most_one_slot() {
    let mut hs = FourWayHandshake::new();
    hs.add_key(&key(KI_M2, 11, nonce_filled(9), mic_filled(2), 100)).unwrap();
    assert!(hs.msg1.is_none());
    assert!(hs.msg2.is_some());
    assert!(hs.msg3.is_none());
    assert!(hs.msg4.is_none());
}

#[test]
fn completeness_is_monotone_across_add_key() {
    let mut hs = FourWayHandshake::new();
    let anonce = nonce_filled(7);
    hs.add_key(&key(KI_M1, 10, anonce, [0; 16], 100)).unwrap();
    hs.add_key(&key(KI_M2, 11, nonce_filled(9), mic_filled(2), 101)).unwrap();
    hs.mac_ap = Some(MacAddress([1, 2, 3, 4, 5, 6]));
    hs.mac_client = Some(MacAddress([6, 5, 4, 3, 2, 1]));
    hs.essid = Some(String::from("net"));
    assert!(hs.complete());
    hs.add_key(&key(KI_M3, 12, anonce, mic_filled(3), 101)).unwrap();
    assert!(hs.complete());
    hs.add_key(&key(KI_M4, 13, nonce_filled(9), mic_filled(4), 102)).unwrap();
    assert!(hs.complete());
}

#[test]
fn message_pair_high_nibble_depends_only_on_flags() {
    let anonce = nonce_filled(7);
    let mut with_m1_m2 = FourWayHandshake::new();
    with_m1_m2.add_key(&key(KI_M1, 10, anonce, [0; 16], 100)).unwrap();
    with_m1_m2.add_key(&key(KI_M2, 11, nonce_filled(9), mic_filled(2), 101)).unwrap();
    let mut with_m1_m4 = FourWayHandshake::new();
    with_m1_m4.add_key(&key(KI_M1, 4, anonce, [0; 16], 100)).unwrap();
    with_m1_m4.add_key(&key(KI_M4, 5, nonce_filled(9), mic_filled(4), 100)).unwrap();
    for hs in [&mut with_m1_m2, &mut with_m1_m4] {
        hs.nc = true;
        hs.b_endian = true;
    }
    assert_eq!(with_m1_m2.calculate_message_pair() & 0xf0, 0xc0);
    assert_eq!(with_m1_m4.calculate_message_pair() & 0xf0, 0xc0);
    assert_eq!(with_m1_m2.calculate_message_pair(), 0xc0);
    assert_eq!(with_m1_m4.calculate_message_pair(), 0xc1);
}

#[test]
fn each_rejection_reports_its_diagnostic() {
    let anonce = nonce_filled(7);
    let m1 = key(KI_M1, 10, anonce, [0; 16], 100);

    let mut hs = FourWayHandshake::new();
    hs.add_key(&m1).unwrap();
    let m2_no_mic = key(KI_M2, 11, nonce_filled(9), [0; 16], 100);
    assert_eq!(hs.add_key(&m2_no_mic), Err("Invalid Message 2: MIC should be present"));
    let m2_no_nonce = key(KI_M2, 11, [0; 32], mic_filled(2), 100);
    assert_eq!(hs.add_key(&m2_no_nonce), Err("Invalid Message 2: Snonce should be present."));
    let m2_bad_rc = key(KI_M2, 10, nonce_filled(9), mic_filled(2), 100);
    assert_eq!(hs.add_key(&m2_bad_rc), Err("Invalid Message 2: RC value not within range."));

    hs.add_key(&key(KI_M2, 11, nonce_filled(9), mic_filled(2), 100)).unwrap();
    let m3_no_mic = key(KI_M3, 12, anonce, [0; 16], 100);
    assert_eq!(hs.add_key(&m3_no_mic), Err("Invalid Message 3: MIC should be present"));
    let m3_no_nonce = key(KI_M3, 12, [0; 32], mic_filled(3), 100);
    assert_eq!(hs.add_key(&m3_no_nonce), Err("Invalid Message 3: Anonce should be present."));
    let m3_bad_rc = key(KI_M3, 20, anonce, mic_filled(3), 100);
    assert_eq!(hs.add_key(&m3_bad_rc), Err("Invalid Message 3: RC value not within range."));
    let m3_late = key(KI_M3, 12, anonce, mic_filled(3), 104);
    assert_eq!(hs.add_key(&m3_late), Err("Invalid Message 3: Time difference too great."));

    hs.add_key(&key(KI_M3, 12, anonce, mic_filled(3), 101)).unwrap();
    let m4_no_mic = key(KI_M4, 13, nonce_filled(9), [0; 16], 101);
    assert_eq!(hs.add_key(&m4_no_mic), Err("Invalid Message 4: MIC should be present"));
    let m4_bad_rc = key(KI_M4, 12, nonce_filled(9), mic_filled(4), 101);
    assert_eq!(hs.add_key(&m4_bad_rc), Err("Invalid Message 4: RC value not within range."));
    let m4_late = key(KI_M4, 13, nonce_filled(9), mic_filled(4), 105);
    assert_eq!(hs.add_key(&m4_late), Err("Invalid Message 4: Time difference too great."));
}

#[test]
fn essid_to_string_yields_essid_or_empty() {
    let mut hs = FourWayHandshake::new();
    assert_eq!(hs.essid_to_string(), "");
    hs.essid = Some(String::from("net"));
    assert_eq!(hs.essid_to_string(), "net");
}
