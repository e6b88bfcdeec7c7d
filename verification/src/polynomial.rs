//! Fixed-capacity polynomials over GF(2^6).
//!
//! The codes at hand never need a degree above the code distance, so a
//! polynomial is a dense, little-endian coefficient array of fixed length;
//! arithmetic past that capacity is silently truncated, and the degree is
//! derived by scanning rather than stored.

use vstd::prelude::*;
use crate::galois::{Gf, bxor, gf_mul};

verus! {

/// Coefficient capacity of the polynomials used by the BCH(63,16,23)
/// decoder: the syndrome polynomial holds the sentinel plus coefficients
/// for each power up to one less than the code distance 23.
pub const POLY_LEN: usize = 24;

/// The coefficient of `s` at `j`, taking indices past the end as zero.
pub open spec fn coef_at(s: Seq<u8>, j: int) -> u8 {
    if 0 <= j < s.len() {
        s[j]
    } else {
        0
    }
}

/// The degree of the coefficient sequence scanned down from `i`: the
/// largest index at or below `i` holding a nonzero coefficient, or -1 if
/// there is none.
pub open spec fn deg_from(s: Seq<u8>, i: int) -> int
    decreases i + 1,
{
    if i < 0 {
        -1
    } else if coef_at(s, i) != 0 {
        i
    } else {
        deg_from(s, i - 1)
    }
}

/// The degree of a coefficient sequence, or -1 for the zero polynomial.
pub open spec fn deg_of(s: Seq<u8>) -> int {
    deg_from(s, s.len() - 1)
}

/// Horner evaluation of the coefficients of `s` from index `i` upward at
/// the point `x`.
pub open spec fn eval_from(s: Seq<u8>, x: u8, i: int) -> u8
    decreases s.len() - i,
{
    if i < 0 || i >= s.len() {
        0
    } else {
        bxor(gf_mul(eval_from(s, x, i + 1), x), s[i])
    }
}

/// The value of the polynomial with coefficients `s` at the point `x`.
pub open spec fn poly_eval(s: Seq<u8>, x: u8) -> u8 {
    eval_from(s, x, 0)
}

/// All coefficients are 6-bit field values.
pub open spec fn coefs_wf(s: Seq<u8>) -> bool {
    forall|j: int| 0 <= j < s.len() ==> s[j] < 64
}

/// A polynomial over GF(2^6) with capacity `POLY_LEN`.
pub struct Polynomial {
    c: Vec<u8>,
}

impl Polynomial {
    /// The coefficients, little-endian, padded with zeros to capacity.
    pub closed spec fn coefs(self) -> Seq<u8> {
        self.c@
    }

    /// The polynomial holds exactly `POLY_LEN` 6-bit coefficients.
    pub open spec fn wf(self) -> bool {
        &&& self.coefs().len() == POLY_LEN
        &&& coefs_wf(self.coefs())
    }

    /// Build a polynomial from the given coefficients, low order first;
    /// the remaining coefficients are zero.
    pub fn new(coefs: &Vec<Gf>) -> (r: Polynomial)
        requires
            coefs@.len() <= POLY_LEN,
            forall|j: int| 0 <= j < coefs@.len() ==> (#[trigger] coefs@[j]).wf(),
        ensures
            r.wf(),
            forall|j: int|
                0 <= j < POLY_LEN ==> #[trigger] r.coefs()[j] == (if j < coefs@.len() {
                    coefs@[j].value()
                } else {
                    0
                }),
    {
        let mut c: Vec<u8> = Vec::new();
        let mut i: usize = 0;
        while i < coefs.len()
            invariant
                i <= coefs@.len() <= POLY_LEN,
                c@.len() == i,
                forall|j: int| 0 <= j < coefs@.len() ==> (#[trigger] coefs@[j]).wf(),
                forall|j: int| 0 <= j < i ==> #[trigger] c@[j] == coefs@[j].value() && c@[j] < 64,
            decreases coefs@.len() - i,
        {
            c.push(coefs[i].bits());
            i = i + 1;
        }
        while i < POLY_LEN
            invariant
                coefs@.len() <= i <= POLY_LEN,
                c@.len() == i,
                forall|j: int|
                    0 <= j < i ==> #[trigger] c@[j] == (if j < coefs@.len() {
                        coefs@[j].value()
                    } else {
                        0
                    }) && c@[j] < 64,
            decreases POLY_LEN - i,
        {
            c.push(0);
            i = i + 1;
        }
        Polynomial { c }
    }

    /// The polynomial 1: coefficient one at index zero, zero elsewhere.
    pub fn one() -> (r: Polynomial)
        ensures
            r.wf(),
            r.coefs()[0] == 1,
            forall|j: int| 1 <= j < POLY_LEN ==> #[trigger] r.coefs()[j] == 0,
    {
        let mut coefs: Vec<Gf> = Vec::new();
        coefs.push(Gf::one());
        Polynomial::new(&coefs)
    }

    /// An exact copy of this polynomial.
    pub fn duplicate(&self) -> (r: Polynomial)
        requires
            self.wf(),
        ensures
            r.wf(),
            r.coefs() == self.coefs(),
    {
        let mut c: Vec<u8> = Vec::new();
        let mut i: usize = 0;
        while i < self.c.len()
            invariant
                self.wf(),
                self.c@.len() == POLY_LEN,
                i <= POLY_LEN,
                c@.len() == i,
                forall|j: int| 0 <= j < i ==> #[trigger] c@[j] == self.c@[j],
            decreases POLY_LEN - i,
        {
            c.push(self.c[i]);
            i = i + 1;
        }
        proof {
            assert(c@ =~= self.c@);
        }
        Polynomial { c }
    }

    /// The number of coefficient slots.
    pub fn len(&self) -> (r: usize)
        requires
            self.wf(),
        ensures
            r == POLY_LEN,
    {
        self.c.len()
    }

    /// The coefficient at index `i`; reading past capacity is ruled out by
    /// the caller.
    pub fn coef(&self, i: usize) -> (r: Gf)
        requires
            self.wf(),
            i < POLY_LEN,
        ensures
            r.value() == self.coefs()[i as int],
            r.wf(),
    {
        Gf::from_bits(self.c[i])
    }

    /// The degree: the index of the highest nonzero coefficient, or
    /// nothing for the zero polynomial.
    pub fn degree(&self) -> (r: Option<usize>)
        requires
            self.wf(),
        ensures
            r matches Some(d) ==> d == deg_of(self.coefs()) && d < POLY_LEN,
            r is None <==> deg_of(self.coefs()) < 0,
    {
        let mut i: usize = POLY_LEN;
        while i > 0
            invariant
                self.wf(),
                i <= POLY_LEN,
                deg_of(self.coefs()) == deg_from(self.coefs(), i - 1),
            decreases i,
        {
            if self.c[i - 1] != 0 {
                return Some(i - 1);
            }
            i = i - 1;
        }
        None
    }

    /// Horner evaluation of the polynomial at the point `x`.
    pub fn eval(&self, x: Gf) -> (r: Gf)
        requires
            self.wf(),
            x.wf(),
        ensures
            r.value() == poly_eval(self.coefs(), x.value()),
            r.wf(),
    {
        let mut acc = Gf::zero();
        let mut i: usize = POLY_LEN;
        while i > 0
            invariant
                self.wf(),
                x.wf(),
                acc.wf(),
                i <= POLY_LEN,
                acc.value() == eval_from(self.coefs(), x.value(), i as int),
            decreases i,
        {
            i = i - 1;
            acc = acc.mul(x).add(self.coef(i));
        }
        acc
    }

    /// Add `scale * x^shift * other` into this polynomial, truncating at
    /// capacity: the coefficient at `j` becomes its old value plus
    /// `scale * other[j - shift]` for `j >= shift`, and is unchanged below
    /// the shift.
    pub fn add_scaled_shifted(&mut self, other: &Polynomial, scale: Gf, shift: usize)
        requires
            old(self).wf(),
            other.wf(),
            scale.wf(),
        ensures
            final(self).wf(),
            forall|j: int|
                0 <= j < POLY_LEN ==> #[trigger] final(self).coefs()[j] == (if j < shift {
                    old(self).coefs()[j]
                } else {
                    bxor(old(self).coefs()[j], gf_mul(scale.value(), coef_at(other.coefs(), j - shift)))
                }),
    {
        let mut i: usize = shift;
        while i < POLY_LEN
            invariant
                self.wf(),
                other.wf(),
                scale.wf(),
                shift <= i || i == POLY_LEN,
                self.coefs().len() == POLY_LEN,
                forall|j: int| 0 <= j < shift && j < POLY_LEN ==> #[trigger] self.coefs()[j] == old(self).coefs()[j],
                forall|j: int| i <= j < POLY_LEN ==> #[trigger] self.coefs()[j] == old(self).coefs()[j],
                forall|j: int|
                    shift <= j < i && j < POLY_LEN ==> #[trigger] self.coefs()[j] == bxor(
                        old(self).coefs()[j],
                        gf_mul(scale.value(), coef_at(other.coefs(), j - shift)),
                    ),
            decreases POLY_LEN - i,
        {
            let term = scale.mul(other.coef(i - shift));
            let v = Gf::from_bits(self.c[i]).add(term);
            self.c.set(i, v.bits());
            i = i + 1;
        }
    }
}

/// A run of zero coefficients from `i` on evaluates to zero at any point.
pub proof fn lemma_eval_tail_zero(s: Seq<u8>, x: u8, i: int)
    requires
        forall|j: int| i <= j < s.len() ==> s[j] == 0,
    ensures
        eval_from(s, x, i) == 0,
    decreases s.len() - i,
{
    if !(i < 0 || i >= s.len()) {
        lemma_eval_tail_zero(s, x, i + 1);
        crate::galois::lemma_gf_mul_zero_left(x);
    }
}

} // verus!
