//! Arithmetic in GF(2^6), the 64-element Galois field that P25 defines by
//! the primitive polynomial x^6 + x + 1.
//!
//! An element is a 6-bit polynomial over GF(2). Addition is XOR of the
//! polynomial forms; multiplication is carry-less multiplication reduced by
//! the primitive polynomial; every nonzero element is a power of the
//! primitive element alpha.

use vstd::prelude::*;

verus! {

/// Multiplication of a field element by x (that is, by alpha), reduced by
/// the primitive polynomial x^6 + x + 1: doubling, and on overflow past
/// six bits, subtraction of the modulus, which flips the two low bits.
pub open spec fn xtime(a: u8) -> u8
    recommends
        a < 64,
{
    if a < 32 {
        (2 * a) as u8
    } else {
        let t = (2 * a - 64) as u8;
        if t % 4 == 0 {
            (t + 3) as u8
        } else {
            (t - 1) as u8
        }
    }
}

/// The power alpha^k of the primitive element, as a 6-bit polynomial.
pub open spec fn gf_pow(k: nat) -> u8
    decreases k,
{
    if k == 0 {
        1
    } else {
        xtime(gf_pow((k - 1) as nat))
    }
}

/// Bitwise exclusive or of two bytes, written out arithmetically: the low
/// bits add modulo 2 and the high bits recurse.
pub open spec fn bxor(a: u8, b: u8) -> u8
    decreases a,
{
    if a == 0 {
        b
    } else if b == 0 {
        a
    } else {
        (((a % 2 + b % 2) % 2) + 2 * bxor(a / 2, b / 2)) as u8
    }
}

/// `bxor` agrees with the machine exclusive-or.
pub proof fn lemma_bxor_is_xor(a: u8, b: u8)
    ensures
        bxor(a, b) == (a ^ b),
    decreases a,
{
    if a == 0 {
        assert(a ^ b == b) by (bit_vector)
            requires
                a == 0u8,
        ;
    } else if b == 0 {
        assert(a ^ b == a) by (bit_vector)
            requires
                b == 0u8,
        ;
    } else {
        lemma_bxor_is_xor(a / 2, b / 2);
        let x = a / 2 ^ b / 2;
        assert(x <= 127 && a ^ b == ((a % 2 + b % 2) % 2 + 2 * (x as int)) as u8) by (bit_vector)
            requires
                x == (a / 2 ^ b / 2),
                a != 0u8,
                b != 0u8,
        ;
    }
}

/// The product of two field elements: carry-less multiplication of `a` by
/// each set bit of `b`, reduced by the primitive polynomial.
pub open spec fn gf_mul(a: u8, b: u8) -> u8
    decreases b,
{
    if b == 0 {
        0
    } else {
        bxor(
            if b % 2 == 1 {
                a
            } else {
                0
            },
            gf_mul(xtime(a), b / 2),
        )
    }
}

/// The multiplicative inverse of each nonzero field element, as fixed by
/// `gf_mul`; the zero element, which has no inverse, is mapped to zero.
pub open spec fn gf_inv(a: u8) -> u8 {
    if a == 1 {
        1
    } else if a == 2 {
        33
    } else if a == 3 {
        62
    } else if a == 4 {
        49
    } else if a == 5 {
        43
    } else if a == 6 {
        31
    } else if a == 7 {
        44
    } else if a == 8 {
        57
    } else if a == 9 {
        37
    } else if a == 10 {
        52
    } else if a == 11 {
        28
    } else if a == 12 {
        46
    } else if a == 13 {
        40
    } else if a == 14 {
        22
    } else if a == 15 {
        25
    } else if a == 16 {
        61
    } else if a == 17 {
        54
    } else if a == 18 {
        51
    } else if a == 19 {
        39
    } else if a == 20 {
        26
    } else if a == 21 {
        35
    } else if a == 22 {
        14
    } else if a == 23 {
        24
    } else if a == 24 {
        23
    } else if a == 25 {
        15
    } else if a == 26 {
        20
    } else if a == 27 {
        34
    } else if a == 28 {
        11
    } else if a == 29 {
        53
    } else if a == 30 {
        45
    } else if a == 31 {
        6
    } else if a == 32 {
        63
    } else if a == 33 {
        2
    } else if a == 34 {
        27
    } else if a == 35 {
        21
    } else if a == 36 {
        56
    } else if a == 37 {
        9
    } else if a == 38 {
        50
    } else if a == 39 {
        19
    } else if a == 40 {
        13
    } else if a == 41 {
        47
    } else if a == 42 {
        48
    } else if a == 43 {
        5
    } else if a == 44 {
        7
    } else if a == 45 {
        30
    } else if a == 46 {
        12
    } else if a == 47 {
        41
    } else if a == 48 {
        42
    } else if a == 49 {
        4
    } else if a == 50 {
        38
    } else if a == 51 {
        18
    } else if a == 52 {
        10
    } else if a == 53 {
        29
    } else if a == 54 {
        17
    } else if a == 55 {
        60
    } else if a == 56 {
        36
    } else if a == 57 {
        8
    } else if a == 58 {
        59
    } else if a == 59 {
        58
    } else if a == 60 {
        55
    } else if a == 61 {
        16
    } else if a == 62 {
        3
    } else if a == 63 {
        32
    } else {
        0
    }
}

/// Multiplying by the zero element yields zero whichever side it stands.
pub proof fn lemma_gf_mul_zero_left(b: u8)
    ensures
        gf_mul(0, b) == 0,
    decreases b,
{
    if b != 0 {
        lemma_gf_mul_zero_left(b / 2);
    }
}

/// Every nonzero field element is a power of alpha: the 63 powers of
/// alpha run through every nonzero 6-bit value.
pub proof fn lemma_gf_pow_covers(a: u8)
    requires
        1 <= a < 64,
    ensures
        exists|j: int| 0 <= j < 63 && #[trigger] gf_pow(j as nat) == a,
{
    assert(gf_pow(0) == 1);
    assert(gf_pow(1) == 2);
    assert(gf_pow(2) == 4);
    assert(gf_pow(3) == 8);
    assert(gf_pow(4) == 16);
    assert(gf_pow(5) == 32);
    assert(gf_pow(6) == 3);
    assert(gf_pow(7) == 6);
    assert(gf_pow(8) == 12);
    assert(gf_pow(9) == 24);
    assert(gf_pow(10) == 48);
    assert(gf_pow(11) == 35);
    assert(gf_pow(12) == 5);
    assert(gf_pow(13) == 10);
    assert(gf_pow(14) == 20);
    assert(gf_pow(15) == 40);
    assert(gf_pow(16) == 19);
    assert(gf_pow(17) == 38);
    assert(gf_pow(18) == 15);
    assert(gf_pow(19) == 30);
    assert(gf_pow(20) == 60);
    assert(gf_pow(21) == 59);
    assert(gf_pow(22) == 53);
    assert(gf_pow(23) == 41);
    assert(gf_pow(24) == 17);
    assert(gf_pow(25) == 34);
    assert(gf_pow(26) == 7);
    assert(gf_pow(27) == 14);
    assert(gf_pow(28) == 28);
    assert(gf_pow(29) == 56);
    assert(gf_pow(30) == 51);
    assert(gf_pow(31) == 37);
    assert(gf_pow(32) == 9);
    assert(gf_pow(33) == 18);
    assert(gf_pow(34) == 36);
    assert(gf_pow(35) == 11);
    assert(gf_pow(36) == 22);
    assert(gf_pow(37) == 44);
    assert(gf_pow(38) == 27);
    assert(gf_pow(39) == 54);
    assert(gf_pow(40) == 47);
    assert(gf_pow(41) == 29);
    assert(gf_pow(42) == 58);
    assert(gf_pow(43) == 55);
    assert(gf_pow(44) == 45);
    assert(gf_pow(45) == 25);
    assert(gf_pow(46) == 50);
    assert(gf_pow(47) == 39);
    assert(gf_pow(48) == 13);
    assert(gf_pow(49) == 26);
    assert(gf_pow(50) == 52);
    assert(gf_pow(51) == 43);
    assert(gf_pow(52) == 21);
    assert(gf_pow(53) == 42);
    assert(gf_pow(54) == 23);
    assert(gf_pow(55) == 46);
    assert(gf_pow(56) == 31);
    assert(gf_pow(57) == 62);
    assert(gf_pow(58) == 63);
    assert(gf_pow(59) == 61);
    assert(gf_pow(60) == 57);
    assert(gf_pow(61) == 49);
    assert(gf_pow(62) == 33);
    if a == 1 {
        assert(gf_pow(0int as nat) == a);
    } else if a == 2 {
        assert(gf_pow(1int as nat) == a);
    } else if a == 3 {
        assert(gf_pow(6int as nat) == a);
    } else if a == 4 {
        assert(gf_pow(2int as nat) == a);
    } else if a == 5 {
        assert(gf_pow(12int as nat) == a);
    } else if a == 6 {
        assert(gf_pow(7int as nat) == a);
    } else if a == 7 {
        assert(gf_pow(26int as nat) == a);
    } else if a == 8 {
        assert(gf_pow(3int as nat) == a);
    } else if a == 9 {
        assert(gf_pow(32int as nat) == a);
    } else if a == 10 {
        assert(gf_pow(13int as nat) == a);
    } else if a == 11 {
        assert(gf_pow(35int as nat) == a);
    } else if a == 12 {
        assert(gf_pow(8int as nat) == a);
    } else if a == 13 {
        assert(gf_pow(48int as nat) == a);
    } else if a == 14 {
        assert(gf_pow(27int as nat) == a);
    } else if a == 15 {
        assert(gf_pow(18int as nat) == a);
    } else if a == 16 {
        assert(gf_pow(4int as nat) == a);
    } else if a == 17 {
        assert(gf_pow(24int as nat) == a);
    } else if a == 18 {
        assert(gf_pow(33int as nat) == a);
    } else if a == 19 {
        assert(gf_pow(16int as nat) == a);
    } else if a == 20 {
        assert(gf_pow(14int as nat) == a);
    } else if a == 21 {
        assert(gf_pow(52int as nat) == a);
    } else if a == 22 {
        assert(gf_pow(36int as nat) == a);
    } else if a == 23 {
        assert(gf_pow(54int as nat) == a);
    } else if a == 24 {
        assert(gf_pow(9int as nat) == a);
    } else if a == 25 {
        assert(gf_pow(45int as nat) == a);
    } else if a == 26 {
        assert(gf_pow(49int as nat) == a);
    } else if a == 27 {
        assert(gf_pow(38int as nat) == a);
    } else if a == 28 {
        assert(gf_pow(28int as nat) == a);
    } else if a == 29 {
        assert(gf_pow(41int as nat) == a);
    } else if a == 30 {
        assert(gf_pow(19int as nat) == a);
    } else if a == 31 {
        assert(gf_pow(56int as nat) == a);
    } else if a == 32 {
        assert(gf_pow(5int as nat) == a);
    } else if a == 33 {
        assert(gf_pow(62int as nat) == a);
    } else if a == 34 {
        assert(gf_pow(25int as nat) == a);
    } else if a == 35 {
        assert(gf_pow(11int as nat) == a);
    } else if a == 36 {
        assert(gf_pow(34int as nat) == a);
    } else if a == 37 {
        assert(gf_pow(31int as nat) == a);
    } else if a == 38 {
        assert(gf_pow(17int as nat) == a);
    } else if a == 39 {
        assert(gf_pow(47int as nat) == a);
    } else if a == 40 {
        assert(gf_pow(15int as nat) == a);
    } else if a == 41 {
        assert(gf_pow(23int as nat) == a);
    } else if a == 42 {
        assert(gf_pow(53int as nat) == a);
    } else if a == 43 {
        assert(gf_pow(51int as nat) == a);
    } else if a == 44 {
        assert(gf_pow(37int as nat) == a);
    } else if a == 45 {
        assert(gf_pow(44int as nat) == a);
    } else if a == 46 {
        assert(gf_pow(55int as nat) == a);
    } else if a == 47 {
        assert(gf_pow(40int as nat) == a);
    } else if a == 48 {
        assert(gf_pow(10int as nat) == a);
    } else if a == 49 {
        assert(gf_pow(61int as nat) == a);
    } else if a == 50 {
        assert(gf_pow(46int as nat) == a);
    } else if a == 51 {
        assert(gf_pow(30int as nat) == a);
    } else if a == 52 {
        assert(gf_pow(50int as nat) == a);
    } else if a == 53 {
        assert(gf_pow(22int as nat) == a);
    } else if a == 54 {
        assert(gf_pow(39int as nat) == a);
    } else if a == 55 {
        assert(gf_pow(43int as nat) == a);
    } else if a == 56 {
        assert(gf_pow(29int as nat) == a);
    } else if a == 57 {
        assert(gf_pow(60int as nat) == a);
    } else if a == 58 {
        assert(gf_pow(42int as nat) == a);
    } else if a == 59 {
        assert(gf_pow(21int as nat) == a);
    } else if a == 60 {
        assert(gf_pow(20int as nat) == a);
    } else if a == 61 {
        assert(gf_pow(59int as nat) == a);
    } else if a == 62 {
        assert(gf_pow(57int as nat) == a);
    } else if a == 63 {
        assert(gf_pow(58int as nat) == a);
    }
}

/// A codeword of GF(2^6), held in its 6-bit polynomial form.
#[derive(Clone, Copy, Debug, PartialEq, Eq, Structural)]
pub struct Gf {
    bits: u8,
}

impl Gf {
    /// The 6-bit polynomial form of this element.
    pub closed spec fn value(self) -> u8 {
        self.bits
    }

    /// The element fits in six bits.
    pub open spec fn wf(self) -> bool {
        self.value() < 64
    }

    /// The additive identity, the element with no power form.
    pub fn zero() -> (r: Gf)
        ensures
            r.value() == 0,
            r.wf(),
    {
        Gf { bits: 0 }
    }

    /// The multiplicative identity alpha^0.
    pub fn one() -> (r: Gf)
        ensures
            r.value() == 1,
            r.wf(),
    {
        Gf { bits: 1 }
    }

    /// The element alpha^(k mod 63).
    pub fn for_power(k: usize) -> (r: Gf)
        ensures
            r.value() == gf_pow((k % 63) as nat),
            r.wf(),
    {
        let e = k % 63;
        let mut i: usize = 0;
        let mut p: u8 = 1;
        while i < e
            invariant
                i <= e,
                e < 63,
                p == gf_pow(i as nat),
                p < 64,
            decreases e - i,
        {
            p = xtime_exec(p);
            i = i + 1;
        }
        Gf { bits: p }
    }

    /// The sum of two elements: XOR of the polynomial forms.
    pub fn add(self, o: Gf) -> (r: Gf)
        requires
            self.wf(),
            o.wf(),
        ensures
            r.value() == bxor(self.value(), o.value()),
            r.wf(),
    {
        let ghost x = self.bits;
        let ghost y = o.bits;
        proof {
            lemma_bxor_is_xor(x, y);
            assert(x ^ y < 64) by (bit_vector)
                requires
                    x < 64,
                    y < 64,
            ;
        }
        Gf { bits: self.bits ^ o.bits }
    }

    /// The product of two elements.
    pub fn mul(self, o: Gf) -> (r: Gf)
        requires
            self.wf(),
            o.wf(),
        ensures
            r.value() == gf_mul(self.value(), o.value()),
            r.wf(),
    {
        let mut acc: u8 = 0;
        let mut a: u8 = self.bits;
        let mut b: u8 = o.bits;
        while b != 0
            invariant
                a < 64,
                acc < 64,
                bxor(acc, gf_mul(a, b)) == gf_mul(self.value(), o.value()),
            decreases b,
        {
            let ghost acc0 = acc;
            let ghost a0 = a;
            let ghost b0 = b;
            if b % 2 == 1 {
                proof {
                    lemma_bxor_is_xor(acc0, a0);
                    assert(acc0 ^ a0 < 64) by (bit_vector)
                        requires
                            acc0 < 64,
                            a0 < 64,
                    ;
                }
                acc = acc ^ a;
            }
            a = xtime_exec(a);
            b = b / 2;
            proof {
                let t: u8 = if b0 % 2 == 1 {
                    a0
                } else {
                    0
                };
                let m = gf_mul(a, b);
                assert(gf_mul(a0, b0) == bxor(t, m));
                lemma_bxor_is_xor(acc0, t);
                lemma_bxor_is_xor(bxor(acc0, t), m);
                lemma_bxor_is_xor(t, m);
                lemma_bxor_is_xor(acc0, bxor(t, m));
                assert((acc0 ^ t) ^ m == acc0 ^ (t ^ m)) by (bit_vector);
            }
        }
        Gf { bits: acc }
    }

    /// The discrete log of this element: the power k with alpha^k equal to
    /// it, lowest first, or nothing for the zero element.
    pub fn power(self) -> (r: Option<usize>)
        requires
            self.wf(),
        ensures
            self.value() == 0 <==> r is None,
            r matches Some(k) ==> {
                &&& k < 63
                &&& gf_pow(k as nat) == self.value()
                &&& forall|j: int| 0 <= j < k ==> #[trigger] gf_pow(j as nat) != self.value()
            },
    {
        if self.bits == 0 {
            return None;
        }
        let mut k: usize = 0;
        let mut p: u8 = 1;
        while k < 63
            invariant
                k <= 63,
                p == gf_pow(k as nat),
                p < 64,
                self.bits != 0,
                self.bits < 64,
                forall|j: int| 0 <= j < k ==> #[trigger] gf_pow(j as nat) != self.bits,
            decreases 63 - k,
        {
            if p == self.bits {
                return Some(k);
            }
            p = xtime_exec(p);
            k = k + 1;
        }
        proof {
            lemma_gf_pow_covers(self.bits);
        }
        None
    }

    /// The 6-bit polynomial form, as a machine value.
    pub fn bits(self) -> (r: u8)
        ensures
            r == self.value(),
    {
        self.bits
    }

    /// Wrap a 6-bit polynomial form.
    pub fn from_bits(bits: u8) -> (r: Gf)
        requires
            bits < 64,
        ensures
            r.value() == bits,
            r.wf(),
    {
        Gf { bits }
    }

    /// The multiplicative inverse of this nonzero element; inverting the
    /// zero element is ruled out by the caller.
    #[verifier::rlimit(100)]
    pub fn invert(self) -> (r: Gf)
        requires
            self.wf(),
            self.value() != 0,
        ensures
            r.wf(),
            r.value() == gf_inv(self.value()),
            gf_mul(self.value(), r.value()) == 1,
    {
        proof {
            reveal_with_fuel(gf_mul, 8);
            reveal_with_fuel(bxor, 8);
            assert(gf_mul(1, 1) == 1);
            assert(gf_mul(2, 33) == 1);
            assert(gf_mul(3, 62) == 1);
            assert(gf_mul(4, 49) == 1);
            assert(gf_mul(5, 43) == 1);
            assert(gf_mul(6, 31) == 1);
            assert(gf_mul(7, 44) == 1);
            assert(gf_mul(8, 57) == 1);
            assert(gf_mul(9, 37) == 1);
            assert(gf_mul(10, 52) == 1);
            assert(gf_mul(11, 28) == 1);
            assert(gf_mul(12, 46) == 1);
            assert(gf_mul(13, 40) == 1);
            assert(gf_mul(14, 22) == 1);
            assert(gf_mul(15, 25) == 1);
            assert(gf_mul(16, 61) == 1);
            assert(gf_mul(17, 54) == 1);
            assert(gf_mul(18, 51) == 1);
            assert(gf_mul(19, 39) == 1);
            assert(gf_mul(20, 26) == 1);
            assert(gf_mul(21, 35) == 1);
            assert(gf_mul(22, 14) == 1);
            assert(gf_mul(23, 24) == 1);
            assert(gf_mul(24, 23) == 1);
            assert(gf_mul(25, 15) == 1);
            assert(gf_mul(26, 20) == 1);
            assert(gf_mul(27, 34) == 1);
            assert(gf_mul(28, 11) == 1);
            assert(gf_mul(29, 53) == 1);
            assert(gf_mul(30, 45) == 1);
            assert(gf_mul(31, 6) == 1);
            assert(gf_mul(32, 63) == 1);
            assert(gf_mul(33, 2) == 1);
            assert(gf_mul(34, 27) == 1);
            assert(gf_mul(35, 21) == 1);
            assert(gf_mul(36, 56) == 1);
            assert(gf_mul(37, 9) == 1);
            assert(gf_mul(38, 50) == 1);
            assert(gf_mul(39, 19) == 1);
            assert(gf_mul(40, 13) == 1);
            assert(gf_mul(41, 47) == 1);
            assert(gf_mul(42, 48) == 1);
            assert(gf_mul(43, 5) == 1);
            assert(gf_mul(44, 7) == 1);
            assert(gf_mul(45, 30) == 1);
            assert(gf_mul(46, 12) == 1);
            assert(gf_mul(47, 41) == 1);
            assert(gf_mul(48, 42) == 1);
            assert(gf_mul(49, 4) == 1);
            assert(gf_mul(50, 38) == 1);
            assert(gf_mul(51, 18) == 1);
            assert(gf_mul(52, 10) == 1);
            assert(gf_mul(53, 29) == 1);
            assert(gf_mul(54, 17) == 1);
            assert(gf_mul(55, 60) == 1);
            assert(gf_mul(56, 36) == 1);
            assert(gf_mul(57, 8) == 1);
            assert(gf_mul(58, 59) == 1);
            assert(gf_mul(59, 58) == 1);
            assert(gf_mul(60, 55) == 1);
            assert(gf_mul(61, 16) == 1);
            assert(gf_mul(62, 3) == 1);
            assert(gf_mul(63, 32) == 1);
        }
        let bits: u8 = match self.bits {
            1 => 1,
            2 => 33,
            3 => 62,
            4 => 49,
            5 => 43,
            6 => 31,
            7 => 44,
            8 => 57,
            9 => 37,
            10 => 52,
            11 => 28,
            12 => 46,
            13 => 40,
            14 => 22,
            15 => 25,
            16 => 61,
            17 => 54,
            18 => 51,
            19 => 39,
            20 => 26,
            21 => 35,
            22 => 14,
            23 => 24,
            24 => 23,
            25 => 15,
            26 => 20,
            27 => 34,
            28 => 11,
            29 => 53,
            30 => 45,
            31 => 6,
            32 => 63,
            33 => 2,
            34 => 27,
            35 => 21,
            36 => 56,
            37 => 9,
            38 => 50,
            39 => 19,
            40 => 13,
            41 => 47,
            42 => 48,
            43 => 5,
            44 => 7,
            45 => 30,
            46 => 12,
            47 => 41,
            48 => 42,
            49 => 4,
            50 => 38,
            51 => 18,
            52 => 10,
            53 => 29,
            54 => 17,
            55 => 60,
            56 => 36,
            57 => 8,
            58 => 59,
            59 => 58,
            60 => 55,
            61 => 16,
            62 => 3,
            63 => 32,
            _ => 0,
        };
        Gf { bits }
    }
}

/// The 63 powers of alpha in ascending order, computed once so that hot
/// paths can look a power up instead of iterating.
pub fn exp_table() -> (r: Vec<u8>)
    ensures
        r@.len() == 63,
        forall|j: int| 0 <= j < 63 ==> #[trigger] r@[j] == gf_pow(j as nat) && r@[j] < 64,
{
    let mut tab: Vec<u8> = Vec::new();
    let mut p: u8 = 1;
    let mut k: usize = 0;
    while k < 63
        invariant
            k <= 63,
            tab@.len() == k,
            p == gf_pow(k as nat),
            p < 64,
            forall|j: int| 0 <= j < k ==> #[trigger] tab@[j] == gf_pow(j as nat) && tab@[j] < 64,
        decreases 63 - k,
    {
        tab.push(p);
        p = xtime_exec(p);
        k = k + 1;
    }
    tab
}

/// Multiplication by x in executable form.
fn xtime_exec(a: u8) -> (r: u8)
    requires
        a < 64,
    ensures
        r == xtime(a),
        r < 64,
{
    if a < 32 {
        2 * a
    } else {
        let t = 2 * a - 64;
        if t % 4 == 0 {
            t + 3
        } else {
            t - 1
        }
    }
}

} // verus!
