//! MAC addresses as plain 6-byte values.

use vstd::prelude::*;

verus! {

/// A 6-byte IEEE 802 identifier.  Equality is byte-wise; the broadcast
/// address is six `0xff` bytes.
#[derive(Clone, Copy, Debug, PartialEq, Eq, Hash)]
pub struct MacAddress(pub [u8; 6]);

impl View for MacAddress {
    type V = Seq<u8>;

    open spec fn view(&self) -> Seq<u8> {
        self.0@
    }
}

/// The all-ones broadcast address as a spec value.
pub open spec fn broadcast_view() -> Seq<u8> {
    seq![0xffu8, 0xffu8, 0xffu8, 0xffu8, 0xffu8, 0xffu8]
}

impl MacAddress {
    /// The address that addresses the whole network.
    pub fn broadcast() -> (r: MacAddress)
        ensures
            r@ == broadcast_view(),
    {
        let r = MacAddress([0xff, 0xff, 0xff, 0xff, 0xff, 0xff]);
        proof {
            assert(r@ =~= broadcast_view());
        }
        r
    }

    /// Byte-wise equality test usable from verified code.
    pub fn same_as(&self, other: &MacAddress) -> (r: bool)
        ensures
            r == (self@ == other@),
    {
        let r = self.0[0] == other.0[0] && self.0[1] == other.0[1] && self.0[2] == other.0[2]
            && self.0[3] == other.0[3] && self.0[4] == other.0[4] && self.0[5] == other.0[5];
        proof {
            if r {
                assert(self@ =~= other@);
            } else {
                assert(self@ != other@);
            }
        }
        r
    }
}

} // verus!
