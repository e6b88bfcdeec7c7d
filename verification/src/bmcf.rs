//! Berlekamp-Massey error-locator synthesis and Chien search over GF(2^6).
//!
//! From a syndrome polynomial whose zeroth coefficient is the sentinel 1,
//! the Berlekamp-Massey recurrence produces the minimal-degree error
//! locator; the Chien search then enumerates its roots as bit positions,
//! highest position first.

use vstd::prelude::*;
use crate::galois::{Gf, bxor, gf_mul, gf_inv, gf_pow};
use crate::polynomial::{Polynomial, POLY_LEN, coef_at, poly_eval};

verus! {

/// The running state of the Berlekamp-Massey recurrence.
pub struct BmState {
    /// The current error-locator candidate.
    pub cur: Seq<u8>,
    /// The locator before the last length change, kept for backtracking.
    pub prev: Seq<u8>,
    /// The current feedback-register length.
    pub llen: nat,
    /// Steps since the last length change.
    pub m: nat,
    /// The last nonzero discrepancy.
    pub b: u8,
}

/// The coefficients of the polynomial 1 at full capacity.
pub open spec fn one_coefs() -> Seq<u8> {
    Seq::new(POLY_LEN as nat, |i: int| if i == 0 { 1u8 } else { 0u8 })
}

/// The discrepancy sum over locator indices 0 through `i`: each locator
/// coefficient times the syndrome `i` steps back from position `n + 1`.
pub open spec fn disc_sum(cur: Seq<u8>, syn: Seq<u8>, n: int, i: int) -> u8
    decreases i + 1,
{
    if i < 0 {
        0
    } else {
        bxor(gf_mul(coef_at(cur, i), coef_at(syn, n + 1 - i)), disc_sum(cur, syn, n, i - 1))
    }
}

/// The locator update: add `scale * x^m * prev` into `cur`, truncated to
/// the capacity of `cur`.
pub open spec fn bm_upd(cur: Seq<u8>, prev: Seq<u8>, scale: u8, m: nat) -> Seq<u8> {
    Seq::new(
        cur.len(),
        |j: int|
            if j < m {
                cur[j]
            } else {
                bxor(cur[j], gf_mul(scale, coef_at(prev, j - m)))
            },
    )
}

/// The state the recurrence starts from: locator and backtrack polynomial
/// 1, length 0, one step since the last bump, discrepancy 1.
pub open spec fn bm_init() -> BmState {
    BmState { cur: one_coefs(), prev: one_coefs(), llen: 0, m: 1, b: 1 }
}

/// One step of the Berlekamp-Massey recurrence at position `n`: a zero
/// discrepancy leaves the locator; otherwise the locator is corrected by
/// the scaled backtrack polynomial, and the register length grows to
/// `n + 1 - L` whenever `2L <= n`.
pub open spec fn bm_step(st: BmState, syn: Seq<u8>, n: int) -> BmState {
    let d = disc_sum(st.cur, syn, n, st.llen as int);
    if d == 0 {
        BmState { cur: st.cur, prev: st.prev, llen: st.llen, m: st.m + 1, b: st.b }
    } else {
        let scale = gf_mul(d, gf_inv(st.b));
        if 2 * st.llen <= n {
            BmState {
                cur: bm_upd(st.cur, st.prev, scale, st.m),
                prev: st.cur,
                llen: (n + 1 - st.llen) as nat,
                m: 1,
                b: d,
            }
        } else {
            BmState {
                cur: bm_upd(st.cur, st.prev, scale, st.m),
                prev: st.prev,
                llen: st.llen,
                m: st.m + 1,
                b: st.b,
            }
        }
    }
}

/// The state after the first `n` steps of the recurrence on `syn`.
pub open spec fn bm_states(syn: Seq<u8>, n: nat) -> BmState
    decreases n,
{
    if n == 0 {
        bm_init()
    } else {
        bm_step(bm_states(syn, (n - 1) as nat), syn, n - 1)
    }
}

/// Number of recurrence steps for an 11-error-correcting code: twice the
/// error capacity.
pub const BM_STEPS: usize = 22;

/// Synthesize the error-locator polynomial of a syndrome polynomial: the
/// state of the Berlekamp-Massey recurrence after all `BM_STEPS` steps.
/// The locator's zeroth coefficient is always 1, so its degree is defined
/// and equals the number of errors the locator predicts.
pub fn bm_locator(syn: &Polynomial) -> (r: Polynomial)
    requires
        syn.wf(),
    ensures
        r.wf(),
        r.coefs() == bm_states(syn.coefs(), BM_STEPS as nat).cur,
        r.coefs()[0] == 1,
{
    let mut cur = Polynomial::one();
    let mut prev = Polynomial::one();
    let mut llen: usize = 0;
    let mut m: usize = 1;
    let mut b = Gf::one();
    let mut n: usize = 0;
    proof {
        assert(cur.coefs() =~= one_coefs());
        assert(prev.coefs() =~= one_coefs());
    }
    while n < BM_STEPS
        invariant
            syn.wf(),
            cur.wf(),
            prev.wf(),
            b.wf(),
            n <= BM_STEPS,
            llen <= n,
            1 <= m <= n + 1,
            cur.coefs() == bm_states(syn.coefs(), n as nat).cur,
            prev.coefs() == bm_states(syn.coefs(), n as nat).prev,
            llen as nat == bm_states(syn.coefs(), n as nat).llen,
            m as nat == bm_states(syn.coefs(), n as nat).m,
            b.value() == bm_states(syn.coefs(), n as nat).b,
            b.value() != 0,
            cur.coefs()[0] == 1,
        decreases BM_STEPS - n,
    {
        let ghost st = bm_states(syn.coefs(), n as nat);

        let mut d = Gf::zero();
        let mut i: usize = 0;
        while i <= llen
            invariant
                i <= llen + 1,
                llen <= n < BM_STEPS,
                syn.wf(),
                cur.wf(),
                d.wf(),
                d.value() == disc_sum(cur.coefs(), syn.coefs(), n as int, i - 1),
            decreases llen + 1 - i,
        {
            let term = cur.coef(i).mul(syn.coef(n + 1 - i));
            d = term.add(d);
            i = i + 1;
        }
        proof {
            assert(d.value() == disc_sum(st.cur, syn.coefs(), n as int, st.llen as int));
        }

        if d.bits() == 0 {
            m = m + 1;
        } else {
            let scale = d.mul(b.invert());
            let ghost cur0 = cur.coefs();
            if 2 * llen <= n {
                let t = cur.duplicate();
                cur.add_scaled_shifted(&prev, scale, m);
                prev = t;
                llen = n + 1 - llen;
                b = d;
                m = 1;
            } else {
                cur.add_scaled_shifted(&prev, scale, m);
                m = m + 1;
            }
            proof {
                assert(cur.coefs() =~= bm_upd(cur0, st.prev, gf_mul(d.value(), gf_inv(st.b)), st.m));
            }
        }
        n = n + 1;
    }
    cur
}

/// The error positions found by the Chien search scanning bit `i` down to
/// bit 0: those whose inverse power of alpha is a root of the locator.
pub open spec fn chien_from(lam: Seq<u8>, i: int) -> Seq<int>
    decreases i + 1,
{
    if i < 0 {
        Seq::empty()
    } else if poly_eval(lam, gf_pow(((63 - i) % 63) as nat)) == 0 {
        seq![i] + chien_from(lam, i - 1)
    } else {
        chien_from(lam, i - 1)
    }
}

/// All error positions of a locator over the 63 codeword bits, highest
/// position first.
pub open spec fn chien_positions(lam: Seq<u8>) -> Seq<int> {
    chien_from(lam, 62)
}

/// Enumerate up to `max` error locations of the locator `lam`, highest
/// bit position first, with the error value of each location. The code is
/// binary, so every error value is the field's one; the value is returned
/// so callers can assert that invariant.
pub fn error_locations(lam: &Polynomial, max: usize) -> (r: Vec<(usize, Gf)>)
    requires
        lam.wf(),
    ensures
        chien_positions(lam.coefs()).len() >= max ==> r@.len() == max,
        chien_positions(lam.coefs()).len() < max ==> r@.len() == chien_positions(lam.coefs()).len(),
        forall|k: int|
            0 <= k < r@.len() ==> (#[trigger] r@[k]).0 as int == chien_positions(lam.coefs())[k]
                && r@[k].0 < 63 && r@[k].1.value() == 1,
{
    let ghost full = chien_positions(lam.coefs());
    let mut out: Vec<(usize, Gf)> = Vec::new();
    let mut scanned: usize = 0;
    while scanned < 63 && out.len() < max
        invariant
            lam.wf(),
            scanned <= 63,
            out@.len() <= max,
            full == chien_positions(lam.coefs()),
            full == out@.map_values(|p: (usize, Gf)| p.0 as int) + chien_from(
                lam.coefs(),
                62 - scanned,
            ),
            forall|k: int|
                0 <= k < out@.len() ==> (#[trigger] out@[k]).0 < 63 && out@[k].1.value() == 1,
        decreases 63 - scanned,
    {
        let i = 62 - scanned;
        let e = lam.eval(Gf::for_power(63 - i));
        let ghost out0 = out@;
        if e.bits() == 0 {
            out.push((i, Gf::one()));
            proof {
                assert(out@.map_values(|p: (usize, Gf)| p.0 as int) =~= out0.map_values(
                    |p: (usize, Gf)| p.0 as int,
                ) + seq![i as int]);
                assert(full =~= out@.map_values(|p: (usize, Gf)| p.0 as int) + chien_from(
                    lam.coefs(),
                    62 - (scanned + 1),
                ));
            }
        } else {
            proof {
                assert(full =~= out@.map_values(|p: (usize, Gf)| p.0 as int) + chien_from(
                    lam.coefs(),
                    62 - (scanned + 1),
                ));
            }
        }
        scanned = scanned + 1;
    }
    proof {
        if scanned == 63 {
            assert(chien_from(lam.coefs(), -1) =~= Seq::<int>::empty());
            assert(full =~= out@.map_values(|p: (usize, Gf)| p.0 as int));
            assert(full.len() == out@.len());
        } else {
            assert(out@.len() == max);
            assert(full.len() >= max);
        }
        assert(forall|k: int|
            0 <= k < out@.len() ==> out@.map_values(|p: (usize, Gf)| p.0 as int)[k] == (
            #[trigger] out@[k]).0 as int);
    }
    out
}

/// On a syndrome polynomial whose coefficients past the sentinel all
/// vanish, every discrepancy is zero, so the recurrence never moves: the
/// locator stays 1 and the register length stays 0.
pub proof fn lemma_bm_clean(syn: Seq<u8>, n: nat)
    requires
        syn.len() == POLY_LEN,
        n <= BM_STEPS,
        forall|k: int| 1 <= k < POLY_LEN ==> syn[k] == 0,
    ensures
        bm_states(syn, n).cur == one_coefs(),
        bm_states(syn, n).prev == one_coefs(),
        bm_states(syn, n).llen == 0,
        bm_states(syn, n).m == n + 1,
        bm_states(syn, n).b == 1,
    decreases n,
{
    if n > 0 {
        lemma_bm_clean(syn, (n - 1) as nat);
        let st = bm_states(syn, (n - 1) as nat);
        let d = disc_sum(st.cur, syn, n - 1, 0);
        assert(coef_at(st.cur, 0) == 1);
        assert(coef_at(syn, n as int) == 0);
        assert(gf_mul(1, 0) == 0);
        assert(disc_sum(st.cur, syn, n - 1, -1) == 0);
        assert(d == bxor(0, 0));
        assert(d == 0);
    }
}

/// The locator 1 has degree zero.
pub proof fn lemma_deg_one_coefs(i: int)
    requires
        0 <= i < POLY_LEN,
    ensures
        crate::polynomial::deg_from(one_coefs(), i) == 0,
    decreases i,
{
    if i > 0 {
        lemma_deg_one_coefs(i - 1);
    }
}

/// The locator 1 evaluates to 1 everywhere, so it has no roots and the
/// Chien search over it finds no error positions.
pub proof fn lemma_chien_one_coefs(i: int)
    requires
        i < 63,
    ensures
        chien_from(one_coefs(), i) =~= Seq::<int>::empty(),
    decreases i + 1,
{
    if i >= 0 {
        let x = gf_pow(((63 - i) % 63) as nat);
        crate::polynomial::lemma_eval_tail_zero(one_coefs(), x, 1);
        crate::galois::lemma_gf_mul_zero_left(x);
        assert(poly_eval(one_coefs(), x) == bxor(gf_mul(0, x), 1));
        assert(poly_eval(one_coefs(), x) == 1);
        lemma_chien_one_coefs(i - 1);
    }
}

} // verus!
