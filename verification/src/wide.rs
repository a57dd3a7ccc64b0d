//! Unsigned 256-bit integers, held as two 128-bit limbs.
//!
//! Every routine here is stated over the mathematical integer that a
//! value stands for (its view), so callers reason about products and
//! quotients as plain `int` arithmetic.

use vstd::prelude::*;

verus! {

/// 2^128, the weight of the high limb.
pub open spec fn limb() -> int {
    0x1_0000_0000_0000_0000_0000_0000_0000_0000int
}

/// 2^256, one more than the largest value a `Wide` can hold.
pub open spec fn wide_bound() -> int {
    limb() * limb()
}

/// The weight that a carry out of the high limb stands for.
pub open spec fn carry_value(carry: bool) -> int {
    if carry {
        wide_bound()
    } else {
        0
    }
}

/// An unsigned 256-bit integer.
#[derive(Clone, Copy, Debug, PartialEq, Eq, Structural)]
pub struct Wide {
    pub hi: u128,
    pub lo: u128,
}

impl View for Wide {
    type V = int;

    open spec fn view(&self) -> int {
        self.hi as int * limb() + self.lo as int
    }
}

/// The product of two 128-bit values always fits in 256 bits.
pub proof fn lemma_product_fits(a: int, b: int)
    by (nonlinear_arith)
    requires
        0 <= a < limb(),
        0 <= b < limb(),
    ensures
        0 <= a * b <= (limb() - 1) * (limb() - 1),
        a * b < wide_bound(),
{
}

/// Doubling and adding a bit, as it is done one binary digit at a time.
pub proof fn lemma_mul_halves(a: int, b: int)
    by (nonlinear_arith)
    requires
        0 <= b,
    ensures
        a * b == 2 * (a * (b / 2)) + a * (b % 2),
{
}

/// A quotient and remainder of `x` by `d` are the quotient and remainder.
pub proof fn lemma_div_rem_unique(x: int, d: int, q: int, r: int)
    requires
        d > 0,
        0 <= r < d,
        x == q * d + r,
    ensures
        q == x / d,
        r == x % d,
{
    vstd::arithmetic::div_mod::lemma_fundamental_div_mod_converse(x, d, q, r);
}

impl Wide {
    pub fn zero() -> (r: Wide)
        ensures
            r@ == 0,
    {
        Wide { hi: 0, lo: 0 }
    }

    pub fn from_u128(x: u128) -> (r: Wide)
        ensures
            r@ == x as int,
    {
        Wide { hi: 0, lo: x }
    }

    /// The largest 256-bit value, 2^256 - 1.
    pub fn max_value() -> (r: Wide)
        ensures
            r@ == wide_bound() - 1,
    {
        Wide { hi: u128::MAX, lo: u128::MAX }
    }

    /// Every view lies in `[0, 2^256)`.
    pub proof fn lemma_view_range(&self)
        ensures
            0 <= self@ < wide_bound(),
    {
        assert(self.hi as int * limb() <= (limb() - 1) * limb()) by (nonlinear_arith)
            requires
                self.hi as int <= limb() - 1,
        ;
    }

    pub fn is_zero(&self) -> (r: bool)
        ensures
            r == (self@ == 0),
    {
        self.hi == 0 && self.lo == 0
    }

    pub fn lt(&self, other: &Wide) -> (r: bool)
        ensures
            r == (self@ < other@),
    {
        self.hi < other.hi || (self.hi == other.hi && self.lo < other.lo)
    }

    /// The value as a `u128`, where it fits.
    pub fn to_u128(&self) -> (r: Option<u128>)
        ensures
            r == (if self@ <= u128::MAX {
                Some(self@ as u128)
            } else {
                None
            }),
    {
        if self.hi == 0 {
            Some(self.lo)
        } else {
            None
        }
    }

    /// `floor(self / 2)`.
    pub fn half(&self) -> (r: Wide)
        ensures
            r@ == self@ / 2,
    {
        if self.hi % 2 == 1 {
            Wide { hi: self.hi / 2, lo: self.lo / 2 + 0x8000_0000_0000_0000_0000_0000_0000_0000 }
        } else {
            Wide { hi: self.hi / 2, lo: self.lo / 2 }
        }
    }

    pub fn is_odd(&self) -> (r: bool)
        ensures
            r == (self@ % 2 == 1),
    {
        self.lo % 2 == 1
    }

    /// Sum modulo 2^256, with the carry out of the high limb.
    pub fn add_carry(&self, other: &Wide) -> (r: (Wide, bool))
        ensures
            r.0@ + carry_value(r.1) == self@ + other@,
    {
        let lo: u128 = self.lo.wrapping_add(other.lo);
        let carry_lo: bool = lo < self.lo;
        let hi_sum: u128 = self.hi.wrapping_add(other.hi);
        let carry_hi: bool = hi_sum < self.hi;
        if carry_lo {
            let hi: u128 = hi_sum.wrapping_add(1);
            (Wide { hi, lo }, carry_hi || hi == 0)
        } else {
            (Wide { hi: hi_sum, lo }, carry_hi)
        }
    }

    /// Difference modulo 2^256.
    pub fn wrapping_sub(&self, other: &Wide) -> (r: Wide)
        ensures
            r@ == (if self@ >= other@ {
                self@ - other@
            } else {
                self@ - other@ + wide_bound()
            }),
    {
        let lo: u128 = self.lo.wrapping_sub(other.lo);
        let hi_diff: u128 = self.hi.wrapping_sub(other.hi);
        if self.lo < other.lo {
            Wide { hi: hi_diff.wrapping_sub(1), lo }
        } else {
            Wide { hi: hi_diff, lo }
        }
    }

    /// Sum, where it fits in 256 bits.
    pub fn checked_add(&self, other: &Wide) -> (r: Option<Wide>)
        ensures
            match r {
                Some(s) => s@ == self@ + other@,
                None => self@ + other@ >= wide_bound(),
            },
    {
        let (sum, carry) = self.add_carry(other);
        proof {
            sum.lemma_view_range();
        }
        if carry {
            None
        } else {
            Some(sum)
        }
    }

    /// Difference, where it is not negative.
    pub fn checked_sub(&self, other: &Wide) -> (r: Option<Wide>)
        ensures
            match r {
                Some(s) => s@ == self@ - other@,
                None => self@ < other@,
            },
    {
        if self.lt(other) {
            None
        } else {
            Some(self.wrapping_sub(other))
        }
    }

    /// Takes `d` off a value below `2 * d` once, where that is needed to
    /// bring it under `d`; the flag says whether it was.
    fn reduce(carry: bool, w: Wide, d: &Wide) -> (r: (Wide, bool))
        requires
            carry_value(carry) + w@ < 2 * d@,
        ensures
            r.0@ < d@,
            r.0@ + (if r.1 {
                d@
            } else {
                0
            }) == carry_value(carry) + w@,
    {
        proof {
            w.lemma_view_range();
            d.lemma_view_range();
        }
        if carry || !w.lt(d) {
            (w.wrapping_sub(d), true)
        } else {
            (w, false)
        }
    }

    /// `2 * self + bit`, with the carry out of the high limb.
    fn double_plus(&self, bit: bool) -> (r: (Wide, bool))
        ensures
            r.0@ + carry_value(r.1) == 2 * self@ + (if bit {
                1int
            } else {
                0int
            }),
    {
        let (twice, carry) = self.add_carry(self);
        if bit {
            let (sum, carry_bit) = twice.add_carry(&Wide { hi: 0, lo: 1 });
            proof {
                sum.lemma_view_range();
                twice.lemma_view_range();
                self.lemma_view_range();
            }
            (sum, carry || carry_bit)
        } else {
            (twice, carry)
        }
    }

    /// The full 256-bit product of two 128-bit values.
    pub fn full_mul(a: u128, b: u128) -> (r: Wide)
        ensures
            r@ == a as int * b as int,
        decreases b,
    {
        if b == 0 {
            Wide::zero()
        } else {
            let rest = Wide::full_mul(a, b / 2);
            let (twice, carry) = rest.add_carry(&rest);
            proof {
                lemma_mul_halves(a as int, b as int);
                lemma_product_fits(a as int, b as int);
                lemma_product_fits(a as int, (b / 2) as int);
                twice.lemma_view_range();
                assert(a as int * ((b % 2) as int) == (if b % 2 == 1 {
                    a as int
                } else {
                    0
                })) by (nonlinear_arith)
                    requires
                        b % 2 == 0 || b % 2 == 1,
                ;
            }
            if b % 2 == 1 {
                let (sum, carry_bit) = twice.add_carry(&Wide::from_u128(a));
                proof {
                    sum.lemma_view_range();
                }
                sum
            } else {
                twice
            }
        }
    }

    /// Quotient and remainder of a 256-bit value by a 256-bit value.
    pub fn div_rem(a: Wide, d: &Wide) -> (r: (Wide, Wide))
        requires
            d@ > 0,
        ensures
            a@ == r.0@ * d@ + r.1@,
            0 <= r.1@ < d@,
            r.0@ == a@ / d@,
            r.1@ == a@ % d@,
        decreases a@,
    {
        proof {
            a.lemma_view_range();
            d.lemma_view_range();
        }
        if a.lt(d) {
            proof {
                lemma_div_rem_unique(a@, d@, 0, a@);
            }
            (Wide::zero(), a)
        } else {
            let (q1, r1) = Wide::div_rem(a.half(), d);
            let (t, carry) = r1.double_plus(a.is_odd());
            let (rem, took) = Wide::reduce(carry, t, d);
            let (q, q_carry) = q1.double_plus(took);
            proof {
                let k: int = if took {
                    1
                } else {
                    0
                };
                let bit: int = if a@ % 2 == 1 {
                    1
                } else {
                    0
                };
                assert(a@ == (2 * q1@ + k) * d@ + rem@) by (nonlinear_arith)
                    requires
                        a@ == 2 * (a@ / 2) + bit,
                        a@ / 2 == q1@ * d@ + r1@,
                        rem@ + k * d@ == 2 * r1@ + bit,
                ;
                q.lemma_view_range();
                rem.lemma_view_range();
                q1.lemma_view_range();
                assert(2 * q1@ + k <= a@) by (nonlinear_arith)
                    requires
                        a@ == (2 * q1@ + k) * d@ + rem@,
                        d@ >= 1,
                        rem@ >= 0,
                        2 * q1@ + k >= 0,
                ;
                lemma_div_rem_unique(a@, d@, q@, rem@);
            }
            (q, rem)
        }
    }

    /// Quotient and remainder of `x * b` by `d`, for `x` below `d`; the
    /// quotient is then below `b`.
    pub fn mul_rem_small(x: &Wide, b: u128, d: &Wide) -> (r: (u128, Wide))
        requires
            x@ < d@,
        ensures
            x@ * b as int == r.0 as int * d@ + r.1@,
            0 <= r.1@ < d@,
            r.0 as int <= b as int,
        decreases b,
    {
        proof {
            x.lemma_view_range();
            d.lemma_view_range();
        }
        if b == 0 {
            (0, Wide::zero())
        } else {
            let (q1, r1) = Wide::mul_rem_small(x, b / 2, d);
            let (t, carry) = r1.add_carry(&r1);
            let (t1, took1) = Wide::reduce(carry, t, d);
            let odd: bool = b % 2 == 1;
            let (u1, took2) = if odd {
                let (u, carry2) = t1.add_carry(x);
                Wide::reduce(carry2, u, d)
            } else {
                (t1, false)
            };
            proof {
                let k1: int = if took1 {
                    1
                } else {
                    0
                };
                let k2: int = if took2 {
                    1
                } else {
                    0
                };
                let bit: int = if odd {
                    1
                } else {
                    0
                };
                u1.lemma_view_range();
                assert(x@ * b as int == (2 * q1 as int + k1 + k2) * d@ + u1@) by (nonlinear_arith)
                    requires
                        b as int == 2 * ((b / 2) as int) + bit,
                        bit == 0 || bit == 1,
                        x@ * ((b / 2) as int) == q1 as int * d@ + r1@,
                        t1@ + k1 * d@ == 2 * r1@,
                        u1@ + k2 * d@ == t1@ + bit * x@,
                ;
                assert(2 * q1 as int + k1 + k2 < b as int) by (nonlinear_arith)
                    requires
                        x@ * b as int == (2 * q1 as int + k1 + k2) * d@ + u1@,
                        0 <= x@ < d@,
                        u1@ >= 0,
                        b as int > 0,
                ;
            }
            let mut q: u128 = 2 * q1;
            if took1 {
                q = q + 1;
            }
            if took2 {
                q = q + 1;
            }
            (q, u1)
        }
    }

    /// Product with a 128-bit value, where it fits in 256 bits.
    pub fn checked_mul_u128(&self, b: u128) -> (r: Option<Wide>)
        ensures
            match r {
                Some(p) => p@ == self@ * b as int,
                None => self@ * b as int >= wide_bound(),
            },
    {
        let low = Wide::full_mul(self.lo, b);
        let high = Wide::full_mul(self.hi, b);
        proof {
            assert(self@ * b as int == (self.hi as int * b as int) * limb() + self.lo as int
                * b as int) by (nonlinear_arith)
                requires
                    self@ == self.hi as int * limb() + self.lo as int,
            ;
            assert(high@ * limb() == high.hi as int * wide_bound() + high.lo as int * limb())
                by (nonlinear_arith)
                requires
                    high@ == high.hi as int * limb() + high.lo as int,
                    wide_bound() == limb() * limb(),
            ;
            assert(high.hi as int >= 1 ==> high.hi as int * wide_bound() >= wide_bound())
                by (nonlinear_arith);
            assert(forall|s: int| s >= limb() ==> #[trigger] (s * limb()) >= wide_bound())
                by (nonlinear_arith);
        }
        if high.hi != 0 {
            None
        } else {
            match high.lo.checked_add(low.hi) {
                None => {
                    proof {
                        let s: int = high.lo as int + low.hi as int;
                        assert(s * limb() >= wide_bound());
                        assert(s * limb() == high.lo as int * limb() + low.hi as int * limb())
                            by (nonlinear_arith)
                            requires
                                s == high.lo as int + low.hi as int,
                        ;
                    }
                    None
                },
                Some(hi) => {
                    proof {
                        assert(hi as int * limb() == high.lo as int * limb() + low.hi as int
                            * limb()) by (nonlinear_arith)
                            requires
                                hi as int == high.lo as int + low.hi as int,
                        ;
                    }
                    Some(Wide { hi, lo: low.lo })
                },
            }
        }
    }

    /// Quotient and remainder of `a * b` by `d`, where the quotient fits
    /// in 256 bits.
    pub fn mul_div_rem(a: Wide, b: u128, d: &Wide) -> (r: Option<(Wide, Wide)>)
        requires
            d@ > 0,
        ensures
            match r {
                Some((q, rem)) => {
                    &&& q@ == (a@ * b as int) / d@
                    &&& rem@ == (a@ * b as int) % d@
                    &&& a@ * b as int == q@ * d@ + rem@
                },
                None => (a@ * b as int) / d@ >= wide_bound(),
            },
    {
        let (qa, ra) = Wide::div_rem(a, d);
        let (q2, r2) = Wide::mul_rem_small(&ra, b, d);
        let scaled = qa.checked_mul_u128(b);
        proof {
            qa.lemma_view_range();
            assert(a@ * b as int == (qa@ * b as int + q2 as int) * d@ + r2@) by (nonlinear_arith)
                requires
                    a@ == qa@ * d@ + ra@,
                    ra@ * b as int == q2 as int * d@ + r2@,
            ;
            lemma_div_rem_unique(a@ * b as int, d@, qa@ * b as int + q2 as int, r2@);
            assert(qa@ * b as int >= 0) by (nonlinear_arith)
                requires
                    qa@ >= 0,
                    b as int >= 0,
            ;
        }
        match scaled {
            None => None,
            Some(p) => {
                let (q, carry) = p.add_carry(&Wide::from_u128(q2));
                proof {
                    q.lemma_view_range();
                }
                if carry {
                    None
                } else {
                    Some((q, r2))
                }
            },
        }
    }
}

} // verus!
