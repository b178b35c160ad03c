//! Presence flags: one bit per component kind, kept per entity.
//!
//! A kind is named by its mask, a `u64` with a single bit set. A
//! [`ComponentFlags`] value is the set of kinds that one entity carries.

use vstd::prelude::*;

verus! {

/// The mark of a slot that carries no component yet.
pub const FLAG_NONE: u64 = 0x2;

pub const FLAG_POSITION: u64 = 0x8;

pub const FLAG_SCALE: u64 = 0x10;

pub const FLAG_ROTATION: u64 = 0x20;

pub const FLAG_VELOCITY: u64 = 0x40;

pub const FLAG_GEOMETRY: u64 = 0x80;

pub const FLAG_PICKABLE: u64 = 0x100;

pub const FLAG_CAMERA: u64 = 0x200;

pub const FLAG_BOB: u64 = 0x400;

/// Whether `mask` names exactly one component kind.
pub open spec fn is_kind(mask: u64) -> bool {
    mask == FLAG_POSITION || mask == FLAG_SCALE || mask == FLAG_ROTATION || mask == FLAG_VELOCITY
        || mask == FLAG_GEOMETRY || mask == FLAG_PICKABLE || mask == FLAG_CAMERA || mask
        == FLAG_BOB
}

/// The set of component kinds of one entity.
#[derive(Clone, Copy, Debug)]
pub struct ComponentFlags {
    pub bits: u64,
}

impl ComponentFlags {
    /// Whether every bit of `mask` is set.
    pub open spec fn has(self, mask: u64) -> bool {
        self.bits & mask == mask
    }

    /// The flags of a fresh slot: [`FLAG_NONE`] and nothing else.
    pub fn new() -> (r: ComponentFlags)
        ensures
            r.bits == FLAG_NONE,
            forall|mask: u64| is_kind(mask) ==> !r.has(mask),
    {
        let r = ComponentFlags { bits: FLAG_NONE };
        proof {
            lemma_fresh_has_no_kind(r);
        }
        r
    }

    /// The flags with exactly the bits of `bits` set.
    pub fn from_bits(bits: u64) -> (r: ComponentFlags)
        ensures
            r.bits == bits,
    {
        ComponentFlags { bits }
    }

    /// Whether every bit of `mask` is set.
    pub fn contains(&self, mask: u64) -> (r: bool)
        ensures
            r == self.has(mask),
    {
        self.bits & mask == mask
    }

    /// Sets the bits of `mask`, and leaves every disjoint mask as it was.
    pub fn insert(&mut self, mask: u64)
        ensures
            final(self).bits == old(self).bits | mask,
            final(self).has(mask),
            forall|other: u64|
                other & mask == 0 ==> final(self).has(other) == old(self).has(other),
    {
        let ghost before = self.bits;
        self.bits = self.bits | mask;
        proof {
            lemma_insert(before, mask);
        }
    }

    /// Clears the bits of `mask`, and leaves every disjoint mask as it was.
    pub fn remove(&mut self, mask: u64)
        ensures
            final(self).bits == old(self).bits & !mask,
            mask != 0 ==> !final(self).has(mask),
            forall|other: u64|
                other & mask == 0 ==> final(self).has(other) == old(self).has(other),
    {
        let ghost before = self.bits;
        self.bits = self.bits & !mask;
        proof {
            lemma_remove(before, mask);
        }
    }
}

/// A fresh slot carries no component kind.
pub proof fn lemma_fresh_has_no_kind(flags: ComponentFlags)
    requires
        flags.bits == FLAG_NONE,
    ensures
        forall|mask: u64| is_kind(mask) ==> !flags.has(mask),
{
    assert(0x2u64 & 0x8 != 0x8) by (bit_vector);
    assert(0x2u64 & 0x10 != 0x10) by (bit_vector);
    assert(0x2u64 & 0x20 != 0x20) by (bit_vector);
    assert(0x2u64 & 0x40 != 0x40) by (bit_vector);
    assert(0x2u64 & 0x80 != 0x80) by (bit_vector);
    assert(0x2u64 & 0x100 != 0x100) by (bit_vector);
    assert(0x2u64 & 0x200 != 0x200) by (bit_vector);
    assert(0x2u64 & 0x400 != 0x400) by (bit_vector);
}

/// Two different component kinds share no bit, and none shares one with
/// [`FLAG_NONE`].
pub proof fn lemma_kinds_disjoint(a: u64, b: u64)
    requires
        is_kind(a),
        is_kind(b) || b == FLAG_NONE,
        a != b,
    ensures
        a & b == 0,
        b & a == 0,
        a != 0,
{
    assert(forall|x: u64, y: u64|
        (x == 0x2 || x == 0x8 || x == 0x10 || x == 0x20 || x == 0x40 || x == 0x80 || x == 0x100
            || x == 0x200 || x == 0x400) && (y == 0x2 || y == 0x8 || y == 0x10 || y == 0x20
            || y == 0x40 || y == 0x80 || y == 0x100 || y == 0x200 || y == 0x400) && x != y
            ==> #[trigger] (x & y) == 0) by (bit_vector);
}

proof fn lemma_insert(bits: u64, mask: u64)
    ensures
        (bits | mask) & mask == mask,
        forall|other: u64|
            other & mask == 0 ==> (((bits | mask) & other == other) == (bits & other == other)),
{
    assert((bits | mask) & mask == mask) by (bit_vector);
    assert forall|other: u64| other & mask == 0 implies (((bits | mask) & other == other) == (bits
        & other == other)) by {
        assert(other & mask == 0 ==> (((bits | mask) & other == other) == (bits & other == other)))
            by (bit_vector);
    }
}

proof fn lemma_remove(bits: u64, mask: u64)
    ensures
        mask != 0 ==> (bits & !mask) & mask != mask,
        forall|other: u64|
            other & mask == 0 ==> (((bits & !mask) & other == other) == (bits & other == other)),
{
    assert(mask != 0 ==> (bits & !mask) & mask != mask) by (bit_vector);
    assert forall|other: u64| other & mask == 0 implies (((bits & !mask) & other == other) == (bits
        & other == other)) by {
        assert(other & mask == 0 ==> (((bits & !mask) & other == other) == (bits & other
            == other))) by (bit_vector);
    }
}

} // verus!
