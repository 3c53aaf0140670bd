use vstd::prelude::*;

verus! {

/// Bit of `NbtOptions::flags` that marks a root tag written without a name.
pub const NAMELESS_ROOT: u8 = 1;

/// Bit of `NbtOptions::flags` that marks lists whose elements may differ in type.
pub const DYNAMIC_LISTS: u8 = 2;

/// Options that select the NBT dialect used when writing values.
#[derive(Debug, Clone, Copy)]
pub struct NbtOptions {
    flags: u8,
}

impl NbtOptions {
    /// The raw flag byte.
    pub closed spec fn spec_flags(self) -> u8 {
        self.flags
    }

    /// Whether the nameless-root bit is set.
    pub open spec fn spec_is_nameless_root(self) -> bool {
        self.spec_flags() & NAMELESS_ROOT != 0
    }

    /// Whether the dynamic-lists bit is set.
    pub open spec fn spec_is_dynamic_lists(self) -> bool {
        self.spec_flags() & DYNAMIC_LISTS != 0
    }

    /// The flag byte after setting or clearing `bit`.
    pub open spec fn spec_with_bit(flags: u8, bit: u8, enabled: bool) -> u8 {
        if enabled {
            flags | bit
        } else {
            flags & !bit
        }
    }

    /// Options with no flag set.
    pub fn new() -> (r: Self)
        ensures
            r.spec_flags() == 0,
            !r.spec_is_nameless_root(),
            !r.spec_is_dynamic_lists(),
    {
        let r = Self { flags: 0 };
        assert(0u8 & NAMELESS_ROOT == 0 && 0u8 & DYNAMIC_LISTS == 0) by (bit_vector);
        r
    }

    /// Since Minecraft 1.20.2, NBT sent doesn't have a name for the root tag.
    pub fn nameless_root(self, enabled: bool) -> (r: Self)
        ensures
            r.spec_flags() == Self::spec_with_bit(self.spec_flags(), NAMELESS_ROOT, enabled),
            r.spec_is_nameless_root() == enabled,
            r.spec_is_dynamic_lists() == self.spec_is_dynamic_lists(),
    {
        let mut r = self;
        if enabled {
            r.flags = r.flags | NAMELESS_ROOT;
        } else {
            r.flags = r.flags & !NAMELESS_ROOT;
        }
        proof {
            lemma_set_bit_facts(self.flags);
        }
        r
    }

    /// Since Minecraft 1.21.5, lists can contain elements of different types.
    pub fn dynamic_lists(self, enabled: bool) -> (r: Self)
        ensures
            r.spec_flags() == Self::spec_with_bit(self.spec_flags(), DYNAMIC_LISTS, enabled),
            r.spec_is_dynamic_lists() == enabled,
            r.spec_is_nameless_root() == self.spec_is_nameless_root(),
    {
        let mut r = self;
        if enabled {
            r.flags = r.flags | DYNAMIC_LISTS;
        } else {
            r.flags = r.flags & !DYNAMIC_LISTS;
        }
        proof {
            lemma_set_bit_facts(self.flags);
        }
        r
    }

    /// Checks if nameless root is enabled.
    pub fn is_nameless_root(&self) -> (r: bool)
        ensures
            r == self.spec_is_nameless_root(),
    {
        (self.flags & NAMELESS_ROOT) != 0
    }

    /// Checks if dynamic lists are enabled.
    pub fn is_dynamic_lists(&self) -> (r: bool)
        ensures
            r == self.spec_is_dynamic_lists(),
    {
        (self.flags & DYNAMIC_LISTS) != 0
    }
}

impl Default for NbtOptions {
    fn default() -> (r: Self)
        ensures
            r.spec_flags() == 0,
    {
        Self::new()
    }
}

/// How setting or clearing one of the two option bits affects both bits.
proof fn lemma_set_bit_facts(f: u8)
    ensures
        (f | NAMELESS_ROOT) & NAMELESS_ROOT != 0,
        (f & !NAMELESS_ROOT) & NAMELESS_ROOT == 0,
        ((f | NAMELESS_ROOT) & DYNAMIC_LISTS != 0) == (f & DYNAMIC_LISTS != 0),
        ((f & !NAMELESS_ROOT) & DYNAMIC_LISTS != 0) == (f & DYNAMIC_LISTS != 0),
        (f | DYNAMIC_LISTS) & DYNAMIC_LISTS != 0,
        (f & !DYNAMIC_LISTS) & DYNAMIC_LISTS == 0,
        ((f | DYNAMIC_LISTS) & NAMELESS_ROOT != 0) == (f & NAMELESS_ROOT != 0),
        ((f & !DYNAMIC_LISTS) & NAMELESS_ROOT != 0) == (f & NAMELESS_ROOT != 0),
{
    assert((f | 1u8) & 1u8 != 0) by (bit_vector);
    assert((f & !1u8) & 1u8 == 0) by (bit_vector);
    assert(((f | 1u8) & 2u8 != 0) == (f & 2u8 != 0)) by (bit_vector);
    assert(((f & !1u8) & 2u8 != 0) == (f & 2u8 != 0)) by (bit_vector);
    assert((f | 2u8) & 2u8 != 0) by (bit_vector);
    assert((f & !2u8) & 2u8 == 0) by (bit_vector);
    assert(((f | 2u8) & 1u8 != 0) == (f & 1u8 != 0)) by (bit_vector);
    assert(((f & !2u8) & 1u8 != 0) == (f & 1u8 != 0)) by (bit_vector);
}

/// Setting the same option twice keeps only the second setting, and setting
/// the two options in either order gives the same options.
pub proof fn law_option_settings(f: u8, a: bool, b: bool)
    ensures
        NbtOptions::spec_with_bit(NbtOptions::spec_with_bit(f, NAMELESS_ROOT, a), NAMELESS_ROOT, b)
            == NbtOptions::spec_with_bit(f, NAMELESS_ROOT, b),
        NbtOptions::spec_with_bit(NbtOptions::spec_with_bit(f, DYNAMIC_LISTS, a), DYNAMIC_LISTS, b)
            == NbtOptions::spec_with_bit(f, DYNAMIC_LISTS, b),
        NbtOptions::spec_with_bit(NbtOptions::spec_with_bit(f, NAMELESS_ROOT, a), DYNAMIC_LISTS, b)
            == NbtOptions::spec_with_bit(NbtOptions::spec_with_bit(f, DYNAMIC_LISTS, b), NAMELESS_ROOT, a),
{
    assert(((f | 1u8) | 1u8) == (f | 1u8)) by (bit_vector);
    assert(((f | 1u8) & !1u8) == (f & !1u8)) by (bit_vector);
    assert(((f & !1u8) | 1u8) == (f | 1u8)) by (bit_vector);
    assert(((f & !1u8) & !1u8) == (f & !1u8)) by (bit_vector);
    assert(((f | 2u8) | 2u8) == (f | 2u8)) by (bit_vector);
    assert(((f | 2u8) & !2u8) == (f & !2u8)) by (bit_vector);
    assert(((f & !2u8) | 2u8) == (f | 2u8)) by (bit_vector);
    assert(((f & !2u8) & !2u8) == (f & !2u8)) by (bit_vector);
    assert(((f | 1u8) | 2u8) == ((f | 2u8) | 1u8)) by (bit_vector);
    assert(((f | 1u8) & !2u8) == ((f & !2u8) | 1u8)) by (bit_vector);
    assert(((f & !1u8) | 2u8) == ((f | 2u8) & !1u8)) by (bit_vector);
    assert(((f & !1u8) & !2u8) == ((f & !2u8) & !1u8)) by (bit_vector);
}

} // verus!
