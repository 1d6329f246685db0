//! The per-access-point record and the counters the attack engine uses.

use vstd::prelude::*;

use crate::mac::MacAddress;

verus! {

/// Seconds after which the per-access-point interaction cooldown expires.
pub const T1_TIMEOUT_SECS: u64 = 5;

/// The next value of a 12-bit sequence counter.
pub open spec fn next_seq(s: u16) -> u16 {
    if s >= 4095 {
        0u16
    } else {
        (s + 1) as u16
    }
}

/// Two independent monotone 12-bit sequence generators for the 802.11
/// sequence-control field of crafted frames: one for the deauthentication
/// path, one for the probe, authentication and association path.
#[derive(Debug, Clone, Copy, PartialEq, Eq, Structural)]
pub struct Counters {
    pub seq1: u16,
    pub seq2: u16,
}

impl Counters {
    /// Both counters start at zero.
    pub fn new() -> (r: Self)
        ensures
            r.seq1 == 0,
            r.seq2 == 0,
    {
        Counters { seq1: 0, seq2: 0 }
    }

    /// Yields the current value of counter 1 and advances it, wrapping
    /// after 12 bits.
    pub fn sequence1(&mut self) -> (r: u16)
        ensures
            r == old(self).seq1,
            final(self).seq1 == next_seq(old(self).seq1),
            final(self).seq2 == old(self).seq2,
    {
        let r = self.seq1;
        self.seq1 = if self.seq1 >= 4095 {
            0
        } else {
            self.seq1 + 1
        };
        r
    }

    /// Yields the current value of counter 2 and advances it, wrapping
    /// after 12 bits.
    pub fn sequence2(&mut self) -> (r: u16)
        ensures
            r == old(self).seq2,
            final(self).seq2 == next_seq(old(self).seq2),
            final(self).seq1 == old(self).seq1,
    {
        let r = self.seq2;
        self.seq2 = if self.seq2 >= 4095 {
            0
        } else {
            self.seq2 + 1
        };
        r
    }
}

/// The authentication-sequence state of one access point: the phase of the
/// forged Authentication → Association exchange, and the two cooldown
/// timers, stored as the instant of their last restart.
#[derive(Debug, Clone, Copy, PartialEq, Eq, Structural)]
pub struct AuthSequence {
    pub state: u8,
    pub t1: u64,
    pub t2: u64,
}

/// The interaction cooldown has elapsed: at least [`T1_TIMEOUT_SECS`] have
/// passed since timer 1 was last restarted.
pub open spec fn t1_elapsed(a: AuthSequence, now: u64) -> bool {
    now >= a.t1 + T1_TIMEOUT_SECS
}

impl AuthSequence {
    /// A fresh sequence: phase zero, both timers restarted now.
    pub fn new(now: u64) -> (r: Self)
        ensures
            r == (AuthSequence { state: 0u8, t1: now, t2: now }),
    {
        AuthSequence { state: 0, t1: now, t2: now }
    }

    /// Whether the interaction cooldown has elapsed.
    pub fn is_t1_timeout(&self, now: u64) -> (r: bool)
        ensures
            r == t1_elapsed(*self, now),
    {
        now >= self.t1 && now - self.t1 >= T1_TIMEOUT_SECS
    }
}

/// What the attack engine reads and writes of one access point record.
#[derive(Debug)]
pub struct AccessPoint {
    pub mac: MacAddress,
    pub ssid: Option<String>,
    /// Whether the robust-security element advertises PSK authentication.
    pub rsn_akm_psk: Option<bool>,
    /// Whether the access point advertises management-frame protection.
    pub ap_mfp: Option<bool>,
    /// Whether the pairwise cipher suite is TKIP.
    pub cs_tkip: Option<bool>,
    /// Whether the group cipher suite is TKIP.
    pub gs_tkip: Option<bool>,
    /// Whether the AKM capability mask is non-empty.
    pub akm_mask: bool,
    pub client_list: Vec<MacAddress>,
    pub beacon_count: u32,
    pub interactions: u64,
    pub auth_sequence: AuthSequence,
}

} // verus!
