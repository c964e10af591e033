use vstd::prelude::*;

verus! {

/// Whether any bit of `flags` is set in `bits`.
pub open spec fn has_any(bits: u16, flags: u16) -> bool {
    bits & flags != 0
}

/// A set of held modifier keys, one bit per physical key.
///
/// The side-agnostic families (`CONTROL`, `ALT`, `SHIFT`, `META`) take no bit of their
/// own: each is the union of its left and right bits. Bits outside `ALL` are kept as
/// they are and belong to no family.
#[derive(Clone, Copy, Debug, PartialEq, Eq, Hash, Default, Structural)]
pub struct Modifiers {
    pub bits: u16,
}

impl Modifiers {
    /// Usually capslock, insert, or kp-insert.
    pub const ODILIA: u16 = 0x001;

    pub const CONTROL_L: u16 = 0x002;

    pub const CONTROL_R: u16 = 0x004;

    pub const CONTROL: u16 = 0x006;

    pub const ALT_L: u16 = 0x008;

    pub const ALT_R: u16 = 0x010;

    pub const ALT: u16 = 0x018;

    pub const SHIFT_L: u16 = 0x020;

    pub const SHIFT_R: u16 = 0x040;

    pub const SHIFT: u16 = 0x060;

    pub const META_L: u16 = 0x080;

    pub const META_R: u16 = 0x100;

    pub const META: u16 = 0x180;

    pub const APPLICATIONS: u16 = 0x200;

    /// Every named modifier bit.
    pub const ALL: u16 = 0x3ff;

    /// The set with no modifier held.
    pub fn empty() -> (r: Modifiers)
        ensures
            r.bits == 0,
    {
        Modifiers { bits: 0 }
    }

    /// The set of all ten modifier keys.
    pub fn all() -> (r: Modifiers)
        ensures
            r.bits == Self::ALL,
    {
        Modifiers { bits: Self::ALL }
    }

    /// The set whose bits are exactly `bits`, unknown bits included.
    pub fn from_bits_retain(bits: u16) -> (r: Modifiers)
        ensures
            r.bits == bits,
    {
        Modifiers { bits }
    }

    /// Adds every key of `other` to this set.
    pub fn insert(&mut self, other: Modifiers)
        ensures
            final(self).bits == old(self).bits | other.bits,
    {
        self.bits = self.bits | other.bits;
    }

    /// The set of keys held in this set or in `other`.
    pub fn union(self, other: Modifiers) -> (r: Modifiers)
        ensures
            r.bits == self.bits | other.bits,
    {
        Modifiers { bits: self.bits | other.bits }
    }

    /// Whether every key of `other` is in this set.
    pub fn contains(self, other: Modifiers) -> (r: bool)
        ensures
            r == (self.bits & other.bits == other.bits),
    {
        self.bits & other.bits == other.bits
    }

    /// Whether this set and `other` share a key.
    pub fn intersects(self, other: Modifiers) -> (r: bool)
        ensures
            r == has_any(self.bits, other.bits),
    {
        self.bits & other.bits != 0
    }

    /// Whether either control key is held.
    pub fn control(self) -> (r: bool)
        ensures
            r == (has_any(self.bits, Self::CONTROL_L) || has_any(self.bits, Self::CONTROL_R)),
    {
        let b = self.bits;
        assert(has_any(b, 6) == (has_any(b, 2) || has_any(b, 4))) by (bit_vector);
        self.intersects(Modifiers { bits: Self::CONTROL })
    }

    /// Whether either alt key is held.
    pub fn alt(self) -> (r: bool)
        ensures
            r == (has_any(self.bits, Self::ALT_L) || has_any(self.bits, Self::ALT_R)),
    {
        let b = self.bits;
        assert(has_any(b, 24) == (has_any(b, 8) || has_any(b, 16))) by (bit_vector);
        self.intersects(Modifiers { bits: Self::ALT })
    }

    /// Whether either shift key is held.
    pub fn shift(self) -> (r: bool)
        ensures
            r == (has_any(self.bits, Self::SHIFT_L) || has_any(self.bits, Self::SHIFT_R)),
    {
        let b = self.bits;
        assert(has_any(b, 96) == (has_any(b, 32) || has_any(b, 64))) by (bit_vector);
        self.intersects(Modifiers { bits: Self::SHIFT })
    }

    /// Whether either meta key is held.
    pub fn meta(self) -> (r: bool)
        ensures
            r == (has_any(self.bits, Self::META_L) || has_any(self.bits, Self::META_R)),
    {
        let b = self.bits;
        assert(has_any(b, 384) == (has_any(b, 128) || has_any(b, 256))) by (bit_vector);
        self.intersects(Modifiers { bits: Self::META })
    }

    /// Whether the left key of any sided family is held. `ODILIA` and `APPLICATIONS`
    /// have no side.
    pub fn left(self) -> (r: bool)
        ensures
            r == (has_any(self.bits, Self::CONTROL_L) || has_any(self.bits, Self::ALT_L)
                || has_any(self.bits, Self::SHIFT_L) || has_any(self.bits, Self::META_L)),
    {
        let b = self.bits;
        assert(has_any(b, 2u16 | 8u16 | 32u16 | 128u16) == (has_any(b, 2) || has_any(b, 8) || has_any(b, 32) || has_any(
            b,
            128,
        ))) by (bit_vector);
        self.intersects(
            Modifiers { bits: Self::CONTROL_L | Self::ALT_L | Self::SHIFT_L | Self::META_L },
        )
    }

    /// Whether the right key of any sided family is held. `ODILIA` and `APPLICATIONS`
    /// have no side.
    pub fn right(self) -> (r: bool)
        ensures
            r == (has_any(self.bits, Self::CONTROL_R) || has_any(self.bits, Self::ALT_R)
                || has_any(self.bits, Self::SHIFT_R) || has_any(self.bits, Self::META_R)),
    {
        let b = self.bits;
        assert(has_any(b, 4u16 | 16u16 | 64u16 | 256u16) == (has_any(b, 4) || has_any(b, 16) || has_any(b, 64) || has_any(
            b,
            256,
        ))) by (bit_vector);
        self.intersects(
            Modifiers { bits: Self::CONTROL_R | Self::ALT_R | Self::SHIFT_R | Self::META_R },
        )
    }
}

} // verus!
