use vstd::prelude::*;

verus! {

/// Bit of the capability that marks a card holding no permission.
pub const NONE_BIT: u8 = 0x01;

/// Bit of the capability given to regular cards.
pub const REGULAR_BIT: u8 = 0x02;

/// Bit of the capability given to IT support staff.
pub const IT_SUPPORT_BIT: u8 = 0x04;

/// Bit of the capability to operate the door systems.
pub const OPEN_DOORS_BIT: u8 = 0x08;

/// Bit of the capability that bypasses everything except super-admin checks.
pub const ADMIN_BIT: u8 = 0x10;

/// Bit of the capability that bypasses everything.
pub const SUPER_ADMIN_BIT: u8 = 0x20;

/// Every recognized bit.
pub const ALL_BITS: u8 = 0x3f;

/// Whether `bits` uses recognized capability bits only: all of them lie within
/// `ALL_BITS`, the low six bits.
pub open spec fn recognized(bits: u8) -> bool {
    bits <= ALL_BITS
}

/// Whether the bitmask `a` holds every bit of `b`.
pub open spec fn includes(a: u8, b: u8) -> bool {
    a & b == b
}

/// A set of named capabilities, stored as a bitmask of recognized bits.
#[derive(Debug, Clone, Copy, PartialEq, Eq, Structural)]
pub struct Permissions {
    bits: u8,
}

impl View for Permissions {
    type V = u8;

    closed spec fn view(&self) -> u8 {
        self.bits
    }
}

impl Permissions {
    #[verifier::type_invariant]
    spec fn inv(self) -> bool {
        recognized(self.bits)
    }

    /// Two permission sets are equal exactly when their bitmasks are.
    pub proof fn lemma_eq_by_view(a: Permissions, b: Permissions)
        ensures
            a == b <==> a@ == b@,
    {
    }

    /// The set with no capability at all.
    pub fn empty() -> (r: Permissions)
        ensures
            r@ == 0,
    {
        Permissions { bits: 0 }
    }

    /// The set of every recognized capability.
    pub fn all() -> (r: Permissions)
        ensures
            r@ == ALL_BITS,
    {
        Permissions { bits: ALL_BITS }
    }

    /// The `NONE` capability.
    pub fn none() -> (r: Permissions)
        ensures
            r@ == NONE_BIT,
    {
        Permissions { bits: NONE_BIT }
    }

    /// The `REGULAR` capability.
    pub fn regular() -> (r: Permissions)
        ensures
            r@ == REGULAR_BIT,
    {
        Permissions { bits: REGULAR_BIT }
    }

    /// The `IT_SUPPORT` capability.
    pub fn it_support() -> (r: Permissions)
        ensures
            r@ == IT_SUPPORT_BIT,
    {
        Permissions { bits: IT_SUPPORT_BIT }
    }

    /// The `OPEN_DOORS` capability.
    pub fn open_doors() -> (r: Permissions)
        ensures
            r@ == OPEN_DOORS_BIT,
    {
        Permissions { bits: OPEN_DOORS_BIT }
    }

    /// The `ADMIN` capability.
    pub fn admin() -> (r: Permissions)
        ensures
            r@ == ADMIN_BIT,
    {
        Permissions { bits: ADMIN_BIT }
    }

    /// The `SUPER_ADMIN` capability.
    pub fn super_admin() -> (r: Permissions)
        ensures
            r@ == SUPER_ADMIN_BIT,
    {
        Permissions { bits: SUPER_ADMIN_BIT }
    }

    /// The raw bitmask.
    pub fn bits(&self) -> (r: u8)
        ensures
            r == self@,
            recognized(r),
    {
        proof {
            use_type_invariant(self);
        }
        self.bits
    }

    /// The set with exactly the bits of `bits`, or `None` where `bits` holds a bit that
    /// names no capability.
    pub fn from_bits(bits: u8) -> (r: Option<Permissions>)
        ensures
            r is Some <==> recognized(bits),
            r matches Some(p) ==> p@ == bits,
    {
        if bits <= ALL_BITS {
            Some(Permissions { bits })
        } else {
            None
        }
    }

    /// Whether every capability of `other` is in this set.
    pub fn contains(&self, other: Permissions) -> (r: bool)
        ensures
            r == includes(self@, other@),
    {
        self.bits & other.bits == other.bits
    }

    /// Whether the set holds no capability.
    pub fn is_empty(&self) -> (r: bool)
        ensures
            r == (self@ == 0),
    {
        self.bits == 0
    }

    /// The capabilities in either set.
    pub fn union(self, other: Permissions) -> (r: Permissions)
        ensures
            r@ == self@ | other@,
    {
        proof {
            use_type_invariant(self);
            use_type_invariant(other);
            let (a, b) = (self.bits, other.bits);
            assert(a <= 0x3f && b <= 0x3f ==> a | b <= 0x3f)
                by (bit_vector);
        }
        Permissions { bits: self.bits | other.bits }
    }

    /// The capabilities in both sets.
    pub fn intersect(self, other: Permissions) -> (r: Permissions)
        ensures
            r@ == self@ & other@,
    {
        proof {
            use_type_invariant(self);
            let (a, b) = (self.bits, other.bits);
            assert(a <= 0x3f ==> a & b <= 0x3f) by (bit_vector);
        }
        Permissions { bits: self.bits & other.bits }
    }

    /// The capabilities of this set that are not in `other`.
    pub fn difference(self, other: Permissions) -> (r: Permissions)
        ensures
            r@ == self@ & !other@,
    {
        proof {
            use_type_invariant(self);
            let (a, b) = (self.bits, other.bits);
            assert(a <= 0x3f ==> a & !b <= 0x3f) by (bit_vector);
        }
        Permissions { bits: self.bits & !other.bits }
    }

    /// The capabilities in exactly one of the two sets.
    pub fn symmetric_difference(self, other: Permissions) -> (r: Permissions)
        ensures
            r@ == self@ ^ other@,
    {
        proof {
            use_type_invariant(self);
            use_type_invariant(other);
            let (a, b) = (self.bits, other.bits);
            assert(a <= 0x3f && b <= 0x3f ==> a ^ b <= 0x3f)
                by (bit_vector);
        }
        Permissions { bits: self.bits ^ other.bits }
    }

    /// Every capability but `NONE`.
    pub fn privileged() -> (r: Permissions)
        ensures
            r@ == ALL_BITS ^ NONE_BIT,
    {
        Permissions::all().symmetric_difference(Permissions::none())
    }
}

/// A union holds both of its operands, intersecting a set with itself gives it back, and
/// the privileged set does not hold `NONE`.
pub proof fn lemma_set_laws(a: Permissions, b: Permissions)
    ensures
        includes(a@ | b@, a@),
        includes(a@ | b@, b@),
        a@ & a@ == a@,
        !includes(ALL_BITS ^ NONE_BIT, NONE_BIT),
{
    let (x, y) = (a@, b@);
    assert((x | y) & x == x) by (bit_vector);
    assert((x | y) & y == y) by (bit_vector);
    assert(x & x == x) by (bit_vector);
    assert((0x3fu8 ^ 0x01u8) & 0x01u8 != 0x01u8) by (bit_vector);
}

} // verus!
