//! Collection engine for WPA/WPA2 pre-shared-key material.
//!
//! The crate has two halves.  The handshake assembler consumes EAPOL-Key
//! frames, bins them by (access point, client) session, places each into its
//! slot of a four-way handshake, and exports offline-cracker records.  The
//! attack engine decides, per access point, which forged management frames to
//! transmit in order to elicit that material; it returns frame descriptors and
//! leaves the actual radio I/O to the caller.

pub mod attack;
pub mod devices;
pub mod eapol;
pub mod handshake;
pub mod mac;
pub mod pmkid;
pub mod storage;
pub mod text;
