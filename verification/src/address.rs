//! The address value itself and the queries on its first octet.

use vstd::prelude::*;

verus! {

/// An EUI-48 address: exactly six octets, octet 0 transmitted first.
///
/// Every combination of octet values is a valid address, so the type carries
/// no invariant beyond its fixed length.
#[derive(Clone, Copy, Debug, Hash, Ord)]
pub struct MacAddress([u8; 6]);

impl View for MacAddress {
    type V = Seq<u8>;

    /// The six octets, in wire order.
    closed spec fn view(&self) -> Seq<u8> {
        self.0@
    }
}

/// The view of the all-ones address.
pub open spec fn broadcast_octets() -> Seq<u8> {
    seq![0xffu8, 0xffu8, 0xffu8, 0xffu8, 0xffu8, 0xffu8]
}

/// The view of the all-zero address.
pub open spec fn zero_octets() -> Seq<u8> {
    seq![0u8, 0u8, 0u8, 0u8, 0u8, 0u8]
}

/// Whether the group bit, the least significant bit of octet 0, is set.
pub open spec fn multicast_bit(octets: Seq<u8>) -> bool {
    octets[0] & 0x01 != 0
}

/// Whether the locally-administered bit, bit 1 of octet 0, is set.
pub open spec fn local_bit(octets: Seq<u8>) -> bool {
    octets[0] & 0x02 != 0
}

impl MacAddress {
    /// Wraps six octets as they stand.
    pub fn from_octets(bytes: [u8; 6]) -> (mac: Self)
        ensures
            mac@ == bytes@,
    {
        MacAddress(bytes)
    }

    /// The address with every bit set, `ff:ff:ff:ff:ff:ff`.
    pub fn broadcast() -> (mac: Self)
        ensures
            mac@ == broadcast_octets(),
    {
        let mac = MacAddress([0xff; 6]);
        assert(mac@ =~= broadcast_octets());
        mac
    }

    /// The address with every bit clear, `00:00:00:00:00:00`.
    pub fn zero() -> (mac: Self)
        ensures
            mac@ == zero_octets(),
    {
        let mac = MacAddress([0x00; 6]);
        assert(mac@ =~= zero_octets());
        mac
    }

    /// True for a group (multicast) address.
    pub fn is_multicast(&self) -> (set: bool)
        ensures
            set == multicast_bit(self@),
    {
        self.0[0] & 0x1 != 0
    }

    /// True for a locally administered address.
    pub fn is_local(&self) -> (set: bool)
        ensures
            set == local_bit(self@),
    {
        self.0[0] & 0x2 != 0
    }

    /// The six octets as a slice, in wire order.
    pub fn as_bytes(&self) -> (bytes: &[u8])
        ensures
            bytes@ == self@,
    {
        self.0.as_slice()
    }

    /// The six octets as an array, in wire order.
    pub fn to_octets(&self) -> (bytes: [u8; 6])
        ensures
            bytes@ == self@,
    {
        self.0
    }

    /// Reads the octet at `index`; positions run from 0 to 5.
    pub fn octet(&self, index: usize) -> (value: u8)
        requires
            index < 6,
        ensures
            value == self@[index as int],
    {
        self.0[index]
    }

    /// Replaces the octet at `index` and leaves the other five alone.
    pub fn set_octet(&mut self, index: usize, value: u8)
        requires
            index < 6,
        ensures
            final(self)@ == old(self)@.update(index as int, value),
    {
        self.0[index] = value;
    }

    /// The address whose six octets are the first six entries of `octets`.
    pub closed spec fn from_seq(octets: Seq<u8>) -> Self {
        MacAddress([octets[0], octets[1], octets[2], octets[3], octets[4], octets[5]])
    }

    /// `from_seq` is the inverse of the view on sequences of six octets.
    pub proof fn lemma_from_seq(octets: Seq<u8>)
        requires
            octets.len() == 6,
        ensures
            Self::from_seq(octets)@ == octets,
    {
        assert(Self::from_seq(octets)@ =~= octets);
    }

    /// Every address has exactly six octets.
    pub proof fn lemma_len(self)
        ensures
            self@.len() == 6,
    {
    }

    /// Two addresses with the same octets are the same value.
    pub proof fn lemma_view_injective(self, other: Self)
        ensures
            self@ == other@ <==> self == other,
    {
        if self@ == other@ {
            assert(self.0 =~= other.0);
        }
    }
}

impl Default for MacAddress {
    /// The all-zero address.
    fn default() -> (mac: Self)
        ensures
            mac@ == zero_octets(),
    {
        MacAddress::zero()
    }
}

} // verus!
