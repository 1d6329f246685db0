//! The PMKID tagged element carried in the key data of EAPOL message 1.

use vstd::prelude::*;

use crate::eapol::all_zero_from;
use crate::eapol::slice_is_zero;

verus! {

/// The 22-byte PMKID element: one id byte, one length byte, a 3-byte OUI,
/// one OUI-type byte and the 16-byte PMKID value.
#[derive(Debug, Clone, Copy, PartialEq, Eq)]
pub struct Pmkid {
    pub id: u8,
    pub len: u8,
    pub oui: [u8; 3],
    pub oui_type: u8,
    pub pmkid: [u8; 16],
}

/// Spec-level image of a [`Pmkid`].
#[verifier::ext_equal]
pub ghost struct PmkidView {
    pub id: u8,
    pub len: u8,
    pub oui: Seq<u8>,
    pub oui_type: u8,
    pub pmkid: Seq<u8>,
}

impl View for Pmkid {
    type V = PmkidView;

    open spec fn view(&self) -> PmkidView {
        PmkidView {
            id: self.id,
            len: self.len,
            oui: self.oui@,
            oui_type: self.oui_type,
            pmkid: self.pmkid@,
        }
    }
}

/// The PMKID element read out of a 22-byte key-data block.
pub open spec fn pmkid_view_of(bytes: Seq<u8>) -> PmkidView
    recommends
        bytes.len() == 22,
{
    PmkidView {
        id: bytes[0],
        len: bytes[1],
        oui: bytes.subrange(2, 5),
        oui_type: bytes[5],
        pmkid: bytes.subrange(6, 22),
    }
}

impl PmkidView {
    /// The structural checks on a PMKID element: RSN OUI `00:0f:ac`, length
    /// `0x14`, OUI type 4, and a PMKID value that is not all zero.
    pub open spec fn valid(self) -> bool {
        &&& self.oui =~= seq![0x00u8, 0x0fu8, 0xacu8]
        &&& self.len == 0x14
        &&& self.oui_type == 4
        &&& !all_zero_from(self.pmkid, 0)
    }
}

impl Pmkid {
    /// Splits a 22-byte key-data block into the PMKID element fields.
    pub fn from_bytes(bytes: &[u8]) -> (r: Pmkid)
        requires
            bytes@.len() == 22,
        ensures
            r@ == pmkid_view_of(bytes@),
    {
        let mut pmkid: [u8; 16] = [0; 16];
        let mut i: usize = 0;
        while i < 16
            invariant
                i <= 16,
                bytes@.len() == 22,
                forall|j: int| 0 <= j < i ==> pmkid@[j] == bytes@[6 + j],
            decreases 16 - i,
        {
            pmkid[i] = bytes[6 + i];
            i = i + 1;
        }
        let r = Pmkid {
            id: bytes[0],
            len: bytes[1],
            oui: [bytes[2], bytes[3], bytes[4]],
            oui_type: bytes[5],
            pmkid,
        };
        proof {
            assert(r.oui@ =~= bytes@.subrange(2, 5));
            assert(r.pmkid@ =~= bytes@.subrange(6, 22));
            assert(r@ =~= pmkid_view_of(bytes@));
        }
        r
    }

    /// Tests the structural checks of [`PmkidView::valid`].
    pub fn valid(&self) -> (r: bool)
        ensures
            r == self@.valid(),
    {
        let structure = self.oui[0] == 0x00 && self.oui[1] == 0x0f && self.oui[2] == 0xac
            && self.len == 0x14 && self.oui_type == 4;
        let value_zero = slice_is_zero(self.pmkid.as_slice());
        proof {
            if structure {
                assert(self.oui@ =~= seq![0x00u8, 0x0fu8, 0xacu8]);
            } else {
                assert(self.oui@ =~= seq![0x00u8, 0x0fu8, 0xacu8] ==> self.oui@[0] == 0x00
                    && self.oui@[1] == 0x0f && self.oui@[2] == 0xac);
            }
        }
        structure && !value_zero
    }
}

/// Two PMKID elements independently split from identical 22-byte inputs
/// compare equal: [`Pmkid::from_bytes`] is a function of the bytes alone.
pub proof fn lemma_from_bytes_deterministic(bytes1: &[u8], bytes2: &[u8], a: Pmkid, b: Pmkid)
    requires
        bytes1@ == bytes2@,
        bytes1@.len() == 22,
        call_ensures(Pmkid::from_bytes, (bytes1,), a),
        call_ensures(Pmkid::from_bytes, (bytes2,), b),
    ensures
        a == b,
{
    broadcast use vstd::array::axiom_array_ext_equal;

    assert(a.oui@ =~= b.oui@);
    assert(a.pmkid@ =~= b.pmkid@);
    assert(a.oui =~= b.oui);
    assert(a.pmkid =~= b.pmkid);
}

} // verus!
