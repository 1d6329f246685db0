use wpaforge::eapol::EapolKey;
use wpaforge::handshake::FourWayHandshake;
use wpaforge::mac::MacAddress;
use wpaforge::storage::HandshakeStorage;

const KI_M1: u16 = 0x008a;
const KI_M2: u16 = 0x010a;
const KI_M3: u16 = 0x13ca;
const KI_M4: u16 = 0x030a;

fn key(ki: u16, rc: u64, nonce: [u8; 32], mic: [u8; 16], ts: u64) -> EapolKey {
    EapolKey {
        protocol_version: 2,
        timestamp: ts,
        packet_type: 3,
        packet_length: 95,
        descriptor_type: 2,
        key_information: ki,
        key_length: 16,
        replay_counter: rc,
        key_nonce: nonce,
        key_iv: [0; 16],
        key_rsc: 0,
        key_id: 0,
        key_mic: mic,
        key_data_length: 0,
        key_data: Vec::new(),
    }
}

fn hex(bytes: &[u8]) -> String {
    let mut out = String::new();
    for b in bytes {
        out.push_str(&format!("{:02x}", b));
    }
    out
}

fn pmkid_m1(value: [u8; 16]) -> EapolKey {
    let mut data = vec![0xdd, 0x14, 0x00, 0x0f, 0xac, 0x04];
    data.extend_from_slice(&value);
    let mut k = key(KI_M1, 1, [7; 32], [0; 16], 100);
    k.key_data = data;
    k.key_data_length = 22;
    k
}

const AP: MacAddress = MacAddress([0xaa, 0xbb, 0xcc, 0xdd, 0xee, 0xff]);
const CLIENT: MacAddress = MacAddress([0x11, 0x22, 0x33, 0x44, 0x55, 0x66]);

#[test]
fn export_of_incomplete_handshake_without_pmkid_is_none() {
    let mut hs = FourWayHandshake::new();
    hs.add_key(&key(KI_M1, 1, [7; 32], [0; 16], 100)).unwrap();
    assert_eq!(hs.to_hashcat_22000_format(), None);
}

#[test]
fn export_of_pmkid_only_handshake_is_one_wpa01_line() {
    let mut storage = HandshakeStorage::new();
    let hs = storage
        .add_or_update_handshake(&AP, &CLIENT, pmkid_m1([0x5a; 16]), Some(String::from("net")))
        .unwrap();
    assert!(hs.has_pmkid());
    assert!(!hs.complete());
    assert_eq!(storage.count(), 1);
    let line = hs.to_hashcat_22000_format().unwrap();
    let expected = format!(
        "WPA*01*{}*aabbccddeeff*112233445566*{}***00",
        hex(&[0x5a; 16]),
        hex("net".as_bytes()),
    );
    assert_eq!(line, expected);
}

#[test]
fn export_after_completion_has_both_lines_separated_by_one_newline() {
    let mut storage = HandshakeStorage::new();
    let essid = Some(String::from("net"));
    let anonce = [7u8; 32];
    storage.add_or_update_handshake(&AP, &CLIENT, pmkid_m1([0x5a; 16]), essid.clone()).unwrap();
    storage
        .add_or_update_handshake(&AP, &CLIENT, key(KI_M2, 2, [9; 32], [2; 16], 101), essid.clone())
        .unwrap();
    storage
        .add_or_update_handshake(&AP, &CLIENT, key(KI_M3, 3, anonce, [3; 16], 101), essid.clone())
        .unwrap();
    let hs = storage
        .add_or_update_handshake(&AP, &CLIENT, key(KI_M4, 4, [9; 32], [4; 16], 102), essid)
        .unwrap();
    assert!(hs.complete());
    assert_eq!(storage.count(), 1);
    let out = hs.to_hashcat_22000_format().unwrap();
    let lines: Vec<&str> = out.split('\n').collect();
    assert_eq!(lines.len(), 2);
    assert!(lines[0].starts_with("WPA*01*"));
    assert!(lines[1].starts_with("WPA*02*"));
    let expected01 = format!(
        "WPA*01*{}*aabbccddeeff*112233445566*{}***02",
        hex(&[0x5a; 16]),
        hex("net".as_bytes()),
    );
    let expected02 = format!(
        "WPA*02*{}*aabbccddeeff*112233445566*{}*{}*{}*02",
        hex(&[2u8; 16]),
        hex("net".as_bytes()),
        hex(&anonce),
        hex(&hs.eapol_client.clone().unwrap()),
    );
    assert_eq!(lines[0], expected01);
    assert_eq!(lines[1], expected02);
}

#[test]
fn export_of_complete_handshake_without_pmkid_is_one_wpa02_line() {
    let mut storage = HandshakeStorage::new();
    let essid = Some(String::from("net"));
    storage
        .add_or_update_handshake(&AP, &CLIENT, key(KI_M1, 1, [7; 32], [0; 16], 100), essid.clone())
        .unwrap();
    let hs = storage
        .add_or_update_handshake(&AP, &CLIENT, key(KI_M2, 2, [9; 32], [2; 16], 101), essid)
        .unwrap();
    assert!(hs.complete());
    assert!(!hs.has_pmkid());
    let out = hs.to_hashcat_22000_format().unwrap();
    assert!(out.starts_with("WPA*02*"));
    assert!(!out.contains('\n'));
}

#[test]
fn rejected_key_starts_a_second_handshake_attempt() {
    let mut storage = HandshakeStorage::new();
    let essid = Some(String::from("net"));
    let m1 = key(KI_M1, 1, [7; 32], [0; 16], 100);
    storage.add_or_update_handshake(&AP, &CLIENT, m1.clone(), essid.clone()).unwrap();
    // The same message 1 again: the first attempt rejects it, a second
    // attempt is appended.
    storage.add_or_update_handshake(&AP, &CLIENT, m1, essid).unwrap();
    assert_eq!(storage.count(), 2);
    let sessions = storage.get_handshakes();
    assert_eq!(sessions.len(), 1);
    assert_eq!(sessions[0].handshakes.len(), 2);
}

#[test]
fn storage_lookups_by_ap() {
    let mut storage = HandshakeStorage::new();
    let essid = Some(String::from("net"));
    storage
        .add_or_update_handshake(&AP, &CLIENT, key(KI_M1, 1, [7; 32], [0; 16], 100), essid.clone())
        .unwrap();
    assert!(storage.has_m1_for_ap(&AP));
    assert!(!storage.has_m1_for_ap(&CLIENT));
    assert!(!storage.has_complete_handshake_for_ap(&AP));
    storage
        .add_or_update_handshake(&AP, &CLIENT, key(KI_M2, 2, [9; 32], [2; 16], 101), essid)
        .unwrap();
    assert!(storage.has_complete_handshake_for_ap(&AP));
    let by_ap = storage.find_handshakes_by_ap(&AP);
    assert_eq!(by_ap.len(), 1);
    assert_eq!(by_ap[0].key.client_mac, CLIENT);
    assert!(storage.find_handshakes_by_ap(&CLIENT).is_empty());
}

#[test]
fn gtk_update_never_stored() {
    let mut storage = HandshakeStorage::new();
    let gtk = key(0x0382, 1, [7; 32], [1; 16], 100);
    let r = storage.add_or_update_handshake(&AP, &CLIENT, gtk, None);
    assert_eq!(r.unwrap_err(), "EAPOL is a GTK Update... ignoring.");
    assert_eq!(storage.count(), 0);
}

#[test]
fn missing_essid_does_not_erase_a_stored_one() {
    let mut storage = HandshakeStorage::new();
    storage
        .add_or_update_handshake(
            &AP,
            &CLIENT,
            key(KI_M1, 1, [7; 32], [0; 16], 100),
            Some(String::from("net")),
        )
        .unwrap();
    let hs = storage
        .add_or_update_handshake(&AP, &CLIENT, key(KI_M2, 2, [9; 32], [2; 16], 101), None)
        .unwrap();
    assert_eq!(hs.essid.as_deref(), Some("net"));
    assert!(hs.complete());
    let later = storage
        .add_or_update_handshake(&AP, &CLIENT, key(KI_M3, 3, [7; 32], [3; 16], 101), None)
        .unwrap();
    assert_eq!(later.essid.as_deref(), Some("net"));
    assert!(later.complete());
}
