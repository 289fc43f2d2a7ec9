use vstd::prelude::*;

verus! {

/// Writing `v` into the bits of `m` leaves `v` there and every bit outside `m`
/// as it was.
pub proof fn lemma_field_write(b: u8, m: u8, v: u8, m2: u8)
    requires
        v & !m == 0,
    ensures
        ((b & !m) | v) & m == v,
        m & m2 == 0 ==> ((b & !m) | v) & m2 == b & m2,
{
    assert(v & !m == 0 ==> ((b & !m) | v) & m == v) by (bit_vector);
    assert(v & !m == 0 && m & m2 == 0 ==> ((b & !m) | v) & m2 == b & m2) by (bit_vector);
}

/// Writes `v` into the bits of `m`.
pub fn write_field(b: u8, m: u8, v: u8) -> (r: u8)
    requires
        v & !m == 0,
    ensures
        r == (b & !m) | v,
        r & m == v,
        forall|m2: u8| m & m2 == 0 ==> #[trigger] (r & m2) == b & m2,
{
    proof {
        lemma_field_write(b, m, v, 0);
        assert forall|m2: u8| m & m2 == 0 implies #[trigger] (((b & !m) | v) & m2) == b & m2 by {
            lemma_field_write(b, m, v, m2);
        }
    }
    (b & !m) | v
}

/// Sets or clears the single bit `m`.
pub fn write_flag(b: u8, m: u8, on: bool) -> (r: u8)
    requires
        m == 1 || m == 2 || m == 4 || m == 8 || m == 16 || m == 32 || m == 64 || m == 128,
    ensures
        (r & m != 0) == on,
        forall|m2: u8| m & m2 == 0 ==> #[trigger] (r & m2) == b & m2,
{
    let v: u8 = if on {
        m
    } else {
        0
    };
    proof {
        assert(m & !m == 0) by (bit_vector);
        assert(0u8 & !m == 0) by (bit_vector);
    }
    write_field(b, m, v)
}

/// Whether `m` is one of the field masks of a byte: the two low bits, or a
/// single higher bit.
pub open spec fn is_field_mask(m: u8) -> bool {
    m == 3 || m == 4 || m == 8 || m == 16 || m == 32 || m == 64 || m == 128
}

/// Different field masks share no bit.
pub proof fn lemma_masks()
    ensures
        forall|a: u8, b: u8|
            is_field_mask(a) && is_field_mask(b) && a != b ==> #[trigger] (a & b) == 0,
{
    assert(forall|a: u8, b: u8|
        (a == 3 || a == 4 || a == 8 || a == 16 || a == 32 || a == 64 || a == 128) && (b == 3 || b
            == 4 || b == 8 || b == 16 || b == 32 || b == 64 || b == 128) && a != b ==> #[trigger] (a
            & b) == 0) by (bit_vector);
}

/// Whether `m` is a single bit of a byte.
pub open spec fn is_bit_mask(m: u8) -> bool {
    m == 1 || m == 2 || m == 4 || m == 8 || m == 16 || m == 32 || m == 64 || m == 128
}

/// Different single bits share nothing, and the three high bits share nothing
/// with the five low ones.
pub proof fn lemma_bit_masks()
    ensures
        forall|a: u8, b: u8| is_bit_mask(a) && is_bit_mask(b) && a != b ==> #[trigger] (a & b) == 0,
        forall|a: u8| (a == 1 || a == 2 || a == 4 || a == 8 || a == 16) ==> #[trigger] (a & 224)
            == 0 && 224 & a == 0,
{
    assert(forall|a: u8, b: u8|
        (a == 1 || a == 2 || a == 4 || a == 8 || a == 16 || a == 32 || a == 64 || a == 128) && (b
            == 1 || b == 2 || b == 4 || b == 8 || b == 16 || b == 32 || b == 64 || b == 128) && a
            != b ==> #[trigger] (a & b) == 0) by (bit_vector);
    assert(forall|a: u8|
        (a == 1 || a == 2 || a == 4 || a == 8 || a == 16) ==> #[trigger] (a & 224) == 0 && 224 & a
            == 0) by (bit_vector);
}

/// The nibble operations of a joystick's packed axis and pov counts, stated in
/// arithmetic: the low four bits, the three bits above them, and the byte with
/// either group cleared.
pub proof fn lemma_nibbles(x: u8)
    ensures
        x & 15 == x % 16,
        (x >> 4u8) & 7 == (x / 16) % 8,
        x & 0xF0 == x - x % 16,
        x & 0x8F == x - ((x / 16) % 8) * 16,
        x & !15u8 == x - x % 16,
        x & !0x70u8 == x - ((x / 16) % 8) * 16,
{
    assert(x & 15 == x % 16) by (bit_vector);
    assert((x >> 4u8) & 7 == (x / 16) % 8) by (bit_vector);
    assert(x & 0xF0 == x - x % 16) by (bit_vector);
    assert(x & 0x8F == x - ((x / 16) % 8) * 16) by (bit_vector);
    assert(x & !15u8 == x - x % 16) by (bit_vector);
    assert(x & !0x70u8 == x - ((x / 16) % 8) * 16) by (bit_vector);
}

} // verus!
