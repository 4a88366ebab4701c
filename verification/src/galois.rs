use vstd::prelude::*;

verus! {

/// Doubling in GF(2^8): multiply by x, folding an overflow of bit 7 back into
/// the field with the reduction constant 0x1b (the low bits of x^8+x^4+x^3+x+1).
pub open spec fn gf_xtime(a: u8) -> u8 {
    if a >= 0x80 {
        (a << 1) ^ 0x1b
    } else {
        a << 1
    }
}

/// The GF(2^8) product of two bytes: polynomial multiplication over GF(2)
/// reduced modulo x^8+x^4+x^3+x+1, written as repeated doubling of `a`
/// over the bits of `b`.
pub open spec fn gf_mul_spec(a: u8, b: u8) -> u8
    decreases b,
{
    if b == 0 {
        0
    } else {
        (if b & 1 == 1 {
            a
        } else {
            0
        }) ^ gf_mul_spec(gf_xtime(a), b / 2)
    }
}

proof fn lemma_gf_mul_step(a: u8, b: u8)
    ensures
        gf_mul_spec(a, b) == (if b & 1 == 1 {
            a
        } else {
            0
        }) ^ gf_mul_spec(gf_xtime(a), b >> 1),
{
    assert(b >> 1 == b / 2) by (bit_vector);
    if b == 0 {
        assert(b & 1 != 1) by (bit_vector)
            requires
                b == 0,
        ;
        assert(0u8 >> 1 == 0) by (bit_vector);
        assert(gf_mul_spec(a, 0) == 0);
        assert(gf_mul_spec(gf_xtime(a), 0) == 0);
        assert(0u8 ^ 0u8 == 0) by (bit_vector);
    }
}

proof fn lemma_xtime_zero()
    ensures
        gf_xtime(0) == 0,
{
    assert(0u8 < 0x80 && 0u8 << 1 == 0) by (bit_vector);
}

proof fn lemma_xtime_additive(x: u8, y: u8)
    ensures
        gf_xtime(x ^ y) == gf_xtime(x) ^ gf_xtime(y),
{
    assert(gf_xtime(x ^ y) == gf_xtime(x) ^ gf_xtime(y)) by (bit_vector);
}

/// Multiplication by zero on the left: 0 times any byte is 0.
proof fn lemma_mul_zero_left(b: u8)
    ensures
        gf_mul_spec(0, b) == 0,
    decreases b,
{
    if b == 0 {
    } else {
        lemma_xtime_zero();
        lemma_mul_zero_left(b / 2);
        assert(0u8 ^ 0u8 == 0) by (bit_vector);
    }
}

/// The product distributes over XOR (field addition) in its left operand.
proof fn lemma_mul_distributes_left(x: u8, y: u8, b: u8)
    ensures
        gf_mul_spec(x ^ y, b) == gf_mul_spec(x, b) ^ gf_mul_spec(y, b),
    decreases b,
{
    if b == 0 {
        assert(0u8 ^ 0u8 == 0) by (bit_vector);
    } else {
        lemma_xtime_additive(x, y);
        lemma_mul_distributes_left(gf_xtime(x), gf_xtime(y), b / 2);
        let m1: u8 = gf_mul_spec(gf_xtime(x), b / 2);
        let m2: u8 = gf_mul_spec(gf_xtime(y), b / 2);
        if b & 1 == 1 {
            assert((x ^ y) ^ (m1 ^ m2) == (x ^ m1) ^ (y ^ m2)) by (bit_vector);
        } else {
            assert(0u8 ^ (m1 ^ m2) == (0u8 ^ m1) ^ (0u8 ^ m2)) by (bit_vector);
        }
    }
}

/// Doubling commutes with the product: (x * a) * b == x * (a * b).
proof fn lemma_mul_xtime_left(a: u8, b: u8)
    ensures
        gf_mul_spec(gf_xtime(a), b) == gf_xtime(gf_mul_spec(a, b)),
    decreases b,
{
    if b == 0 {
        lemma_xtime_zero();
    } else {
        lemma_mul_xtime_left(gf_xtime(a), b / 2);
        lemma_xtime_additive(
            if b & 1 == 1 {
                a
            } else {
                0
            },
            gf_mul_spec(gf_xtime(a), b / 2),
        );
        lemma_xtime_zero();
    }
}

/// Every byte splits into its low bit plus the double of its high bits.
proof fn lemma_low_bit_decomposition(a: u8)
    ensures
        a == (a & 1) ^ gf_xtime(a / 2),
{
    assert(a == (a & 1) ^ gf_xtime(a / 2)) by (bit_vector);
}

/// One is a left identity of the product.
proof fn lemma_mul_one_left(b: u8)
    ensures
        gf_mul_spec(1, b) == b,
    decreases b,
{
    if b == 0 {
    } else {
        lemma_mul_one_left(b / 2);
        lemma_mul_xtime_left(1, b / 2);
        assert(gf_mul_spec(gf_xtime(1), b / 2) == gf_xtime(b / 2));
        lemma_low_bit_decomposition(b);
        assert((if b & 1 == 1 {
            1u8
        } else {
            0u8
        }) == b & 1) by (bit_vector);
    }
}

/// Field addition is commutative: a + b == b + a.
pub proof fn lemma_add_commutative(a: u8, b: u8)
    ensures
        a ^ b == b ^ a,
{
    assert(a ^ b == b ^ a) by (bit_vector);
}

/// Field addition is associative: (a + b) + c == a + (b + c).
pub proof fn lemma_add_associative(a: u8, b: u8, c: u8)
    ensures
        (a ^ b) ^ c == a ^ (b ^ c),
{
    assert((a ^ b) ^ c == a ^ (b ^ c)) by (bit_vector);
}

/// Zero is the additive identity: a + 0 == a.
pub proof fn lemma_add_identity(a: u8)
    ensures
        a ^ 0 == a,
{
    assert(a ^ 0 == a) by (bit_vector);
}

/// Every element is its own additive inverse: a + a == 0.
pub proof fn lemma_add_self_inverse(a: u8)
    ensures
        a ^ a == 0,
{
    assert(a ^ a == 0) by (bit_vector);
}

/// Multiplication by zero gives zero, on either side.
pub proof fn lemma_mul_zero(a: u8)
    ensures
        gf_mul_spec(a, 0) == 0,
        gf_mul_spec(0, a) == 0,
{
    lemma_mul_zero_left(a);
}

/// One is the multiplicative identity, on either side.
pub proof fn lemma_mul_identity(a: u8)
    ensures
        gf_mul_spec(a, 1) == a,
        gf_mul_spec(1, a) == a,
{
    lemma_mul_one_left(a);
    assert(1u8 & 1 == 1 && 1u8 / 2 == 0) by (bit_vector);
    assert(gf_mul_spec(a, 1) == a ^ gf_mul_spec(gf_xtime(a), 0));
    assert(a ^ 0 == a) by (bit_vector);
}

/// The field product is commutative: a * b == b * a.
pub proof fn lemma_mul_commutative(a: u8, b: u8)
    ensures
        gf_mul_spec(a, b) == gf_mul_spec(b, a),
    decreases a,
{
    if a == 0 {
        lemma_mul_zero_left(b);
        assert(gf_mul_spec(b, 0) == 0);
    } else {
        // Unfold the product with `a` on the right and pull the doubling out.
        lemma_gf_mul_step(b, a);
        assert(a >> 1 == a / 2) by (bit_vector);
        lemma_mul_xtime_left(b, a / 2);
        lemma_mul_commutative(a / 2, b);
        lemma_mul_xtime_left(a / 2, b);
        assert(gf_mul_spec(b, a) == (if a & 1 == 1 {
            b
        } else {
            0
        }) ^ gf_mul_spec(gf_xtime(a / 2), b));
        // Split `a` into its low bit plus the double of its high bits.
        lemma_low_bit_decomposition(a);
        lemma_mul_distributes_left(a & 1, gf_xtime(a / 2), b);
        assert(gf_mul_spec(a, b) == gf_mul_spec(a & 1, b) ^ gf_mul_spec(gf_xtime(a / 2), b));
        assert(a & 1 == 0 || a & 1 == 1) by (bit_vector);
        if a & 1 == 1 {
            lemma_mul_one_left(b);
        } else {
            lemma_mul_zero_left(b);
        }
    }
}

/// A byte seen as an element of GF(2^8), the field AES works in.
#[derive(Clone, Copy, Debug, PartialEq, Eq, Structural)]
pub struct GaloisField<T>(pub T);

impl From<u8> for GaloisField<u8> {
    fn from(a: u8) -> (r: Self) {
        GaloisField(a)
    }
}

impl vstd::std_specs::convert::FromSpecImpl<u8> for GaloisField<u8> {
    open spec fn obeys_from_spec() -> bool {
        true
    }

    open spec fn from_spec(a: u8) -> Self {
        GaloisField(a)
    }
}

impl GaloisField<u8> {
    /// Field addition: the XOR of the two bytes.
    pub fn add(self, rhs: Self) -> (r: Self)
        ensures
            r.0 == self.0 ^ rhs.0,
    {
        GaloisField(self.0 ^ rhs.0)
    }

    /// Field addition with a bare byte on the right.
    pub fn add_byte(self, rhs: u8) -> (r: Self)
        ensures
            r.0 == self.0 ^ rhs,
    {
        GaloisField(self.0 ^ rhs)
    }

    /// In-place field addition.
    pub fn add_assign(&mut self, rhs: Self)
        ensures
            final(self).0 == old(self).0 ^ rhs.0,
    {
        self.0 = self.0 ^ rhs.0;
    }

    /// Field subtraction; in GF(2^8) it coincides with addition.
    pub fn sub(self, rhs: Self) -> (r: Self)
        ensures
            r.0 == self.0 ^ rhs.0,
    {
        GaloisField(self.0 ^ rhs.0)
    }

    /// Field subtraction with a bare byte on the right.
    pub fn sub_byte(self, rhs: u8) -> (r: Self)
        ensures
            r.0 == self.0 ^ rhs,
    {
        GaloisField(self.0 ^ rhs)
    }

    /// In-place field subtraction.
    pub fn sub_assign(&mut self, rhs: Self)
        ensures
            final(self).0 == old(self).0 ^ rhs.0,
    {
        self.0 = self.0 ^ rhs.0;
    }

    /// Field multiplication by peasant multiplication: eight rounds of
    /// conditional accumulation and doubling with eager reduction.
    pub fn mul(self, rhs: Self) -> (r: Self)
        ensures
            r.0 == gf_mul_spec(self.0, rhs.0),
    {
        let mut a: u8 = self.0;
        let mut b: u8 = rhs.0;
        let mut p: u8 = 0;
        let mut i: usize = 0;
        let ghost rr: u8 = rhs.0;
        proof {
            assert(rr >> 0u8 == rr) by (bit_vector);
            let m0: u8 = gf_mul_spec(self.0, rr);
            assert(0u8 ^ m0 == m0) by (bit_vector);
        }
        while i < 8
            invariant
                i <= 8,
                b == rr >> (i as u8),
                p ^ gf_mul_spec(a, b) == gf_mul_spec(self.0, rr),
            decreases 8 - i,
        {
            let ghost a0 = a;
            let ghost b0 = b;
            let ghost p0 = p;
            if b & 1 == 1 {
                p = p ^ a;
            }
            let carry: u8 = a >> 7;
            a = a << 1;
            if carry == 1 {
                a = a ^ 0x1b;
            }
            b = b >> 1;
            i = i + 1;
            proof {
                assert((a0 >> 7 == 1) == (a0 >= 0x80)) by (bit_vector);
                assert(a == gf_xtime(a0));
                lemma_gf_mul_step(a0, b0);
                assert(p == p0 ^ (if b0 & 1 == 1 {
                    a0
                } else {
                    0
                })) by {
                    assert(p0 ^ 0 == p0) by (bit_vector);
                };
                let t: u8 = if b0 & 1 == 1 {
                    a0
                } else {
                    0
                };
                let m: u8 = gf_mul_spec(a, b);
                assert((p0 ^ t) ^ m == p0 ^ (t ^ m)) by (bit_vector);
                assert(rr >> ((i - 1) as u8) >> 1 == rr >> (i as u8)) by (bit_vector)
                    requires
                        1 <= i <= 8,
                ;
            }
        }
        proof {
            assert(rr >> 8u8 == 0) by (bit_vector);
            assert(p ^ gf_mul_spec(a, 0) == p) by {
                assert(gf_mul_spec(a, 0) == 0);
                assert(p ^ 0 == p) by (bit_vector);
            };
        }
        GaloisField(p)
    }

    /// Field multiplication with a bare byte on the right.
    pub fn mul_byte(self, rhs: u8) -> (r: Self)
        ensures
            r.0 == gf_mul_spec(self.0, rhs),
    {
        self.mul(GaloisField(rhs))
    }

    /// In-place field multiplication.
    pub fn mul_assign(&mut self, rhs: Self)
        ensures
            final(self).0 == gf_mul_spec(old(self).0, rhs.0),
    {
        *self = self.mul(rhs);
    }

    /// Bitwise OR of the two underlying bytes.
    pub fn bitor(self, rhs: Self) -> (r: Self)
        ensures
            r.0 == self.0 | rhs.0,
    {
        GaloisField(self.0 | rhs.0)
    }

    /// Bitwise OR with a bare byte on the right.
    pub fn bitor_byte(self, rhs: u8) -> (r: Self)
        ensures
            r.0 == self.0 | rhs,
    {
        GaloisField(self.0 | rhs)
    }

    /// In-place bitwise OR.
    pub fn bitor_assign(&mut self, rhs: Self)
        ensures
            final(self).0 == old(self).0 | rhs.0,
    {
        self.0 = self.0 | rhs.0;
    }

    /// Bitwise XOR of the two underlying bytes.
    pub fn bitxor(self, rhs: Self) -> (r: Self)
        ensures
            r.0 == self.0 ^ rhs.0,
    {
        GaloisField(self.0 ^ rhs.0)
    }

    /// Bitwise XOR with a bare byte on the right.
    pub fn bitxor_byte(self, rhs: u8) -> (r: Self)
        ensures
            r.0 == self.0 ^ rhs,
    {
        GaloisField(self.0 ^ rhs)
    }

    /// In-place bitwise XOR.
    pub fn bitxor_assign(&mut self, rhs: Self)
        ensures
            final(self).0 == old(self).0 ^ rhs.0,
    {
        self.0 = self.0 ^ rhs.0;
    }

    /// Bitwise AND of the two underlying bytes.
    pub fn bitand(self, rhs: Self) -> (r: Self)
        ensures
            r.0 == self.0 & rhs.0,
    {
        GaloisField(self.0 & rhs.0)
    }

    /// Bitwise AND with a bare byte on the right.
    pub fn bitand_byte(self, rhs: u8) -> (r: Self)
        ensures
            r.0 == self.0 & rhs,
    {
        GaloisField(self.0 & rhs)
    }

    /// In-place bitwise AND.
    pub fn bitand_assign(&mut self, rhs: Self)
        ensures
            final(self).0 == old(self).0 & rhs.0,
    {
        self.0 = self.0 & rhs.0;
    }

    /// Right shift of the underlying byte; the shift amount must fit a byte's width.
    pub fn shr(self, rhs: Self) -> (r: Self)
        requires
            rhs.0 < 8,
        ensures
            r.0 == self.0 >> rhs.0,
    {
        GaloisField(self.0 >> rhs.0)
    }

    /// Right shift by a bare byte on the right.
    pub fn shr_byte(self, rhs: u8) -> (r: Self)
        requires
            rhs < 8,
        ensures
            r.0 == self.0 >> rhs,
    {
        GaloisField(self.0 >> rhs)
    }

    /// In-place right shift.
    pub fn shr_assign(&mut self, rhs: Self)
        requires
            rhs.0 < 8,
        ensures
            final(self).0 == old(self).0 >> rhs.0,
    {
        self.0 = self.0 >> rhs.0;
    }

    /// Left shift of the underlying byte; the shift amount must fit a byte's width.
    pub fn shl(self, rhs: Self) -> (r: Self)
        requires
            rhs.0 < 8,
        ensures
            r.0 == self.0 << rhs.0,
    {
        GaloisField(self.0 << rhs.0)
    }

    /// Left shift by a bare byte on the right.
    pub fn shl_byte(self, rhs: u8) -> (r: Self)
        requires
            rhs < 8,
        ensures
            r.0 == self.0 << rhs,
    {
        GaloisField(self.0 << rhs)
    }

    /// In-place left shift.
    pub fn shl_assign(&mut self, rhs: Self)
        requires
            rhs.0 < 8,
        ensures
            final(self).0 == old(self).0 << rhs.0,
    {
        self.0 = self.0 << rhs.0;
    }
}

} // verus!
