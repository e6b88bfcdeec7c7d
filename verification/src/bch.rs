//! Encoding and decoding of the (63, 16, 23) BCH code described by P25.
//!
//! Encoding multiplies the 16 data bits by a fixed generator matrix under
//! GF(2) and appends the resulting 47 parity bits and the overall-parity
//! bit. Decoding strips the overall-parity bit, computes the syndrome
//! polynomial, synthesizes the error locator with Berlekamp-Massey, finds
//! the error positions with a Chien search, and flips them, correcting up
//! to 11 bit errors.

use vstd::prelude::*;
use vstd::arithmetic::power2::{pow2, lemma2_to64, lemma2_to64_rest, lemma_pow2_adds, lemma_pow2_pos, lemma_pow2_strictly_increases};
use vstd::arithmetic::div_mod::lemma_div_denominator;
use crate::galois::{Gf, bxor, gf_pow, exp_table};
use crate::polynomial::{Polynomial, POLY_LEN, deg_of, deg_from};
use crate::bmcf::{bm_states, chien_positions, bm_locator, error_locations, BM_STEPS};

verus! {

/// Row `i` of the generator matrix from P25, transformed so that row
/// `i` gives the 16-bit mask of data bits feeding appended bit `i`: the
/// first 47 rows produce the BCH parity bits and the last row produces
/// the overall-parity bit.
pub open spec fn gen_row(i: int) -> u16 {
    if i == 0 {
        0b1110110001000111
    } else if i == 1 {
        0b1001101001100100
    } else if i == 2 {
        0b0100110100110010
    } else if i == 3 {
        0b0010011010011001
    } else if i == 4 {
        0b1111111100001011
    } else if i == 5 {
        0b1001001111000010
    } else if i == 6 {
        0b0100100111100001
    } else if i == 7 {
        0b1100100010110111
    } else if i == 8 {
        0b1000100000011100
    } else if i == 9 {
        0b0100010000001110
    } else if i == 10 {
        0b0010001000000111
    } else if i == 11 {
        0b1111110101000100
    } else if i == 12 {
        0b0111111010100010
    } else if i == 13 {
        0b0011111101010001
    } else if i == 14 {
        0b1111001111101111
    } else if i == 15 {
        0b1001010110110000
    } else if i == 16 {
        0b0100101011011000
    } else if i == 17 {
        0b0010010101101100
    } else if i == 18 {
        0b0001001010110110
    } else if i == 19 {
        0b0000100101011011
    } else if i == 20 {
        0b1110100011101010
    } else if i == 21 {
        0b0111010001110101
    } else if i == 22 {
        0b1101011001111101
    } else if i == 23 {
        0b1000011101111001
    } else if i == 24 {
        0b1010111111111011
    } else if i == 25 {
        0b1011101110111010
    } else if i == 26 {
        0b0101110111011101
    } else if i == 27 {
        0b1100001010101001
    } else if i == 28 {
        0b1000110100010011
    } else if i == 29 {
        0b1010101011001110
    } else if i == 30 {
        0b0101010101100111
    } else if i == 31 {
        0b1100011011110100
    } else if i == 32 {
        0b0110001101111010
    } else if i == 33 {
        0b0011000110111101
    } else if i == 34 {
        0b1111010010011001
    } else if i == 35 {
        0b1001011000001011
    } else if i == 36 {
        0b1010011101000010
    } else if i == 37 {
        0b0101001110100001
    } else if i == 38 {
        0b1100010110010111
    } else if i == 39 {
        0b1000111010001100
    } else if i == 40 {
        0b0100011101000110
    } else if i == 41 {
        0b0010001110100011
    } else if i == 42 {
        0b1111110110010110
    } else if i == 43 {
        0b0111111011001011
    } else if i == 44 {
        0b1101001100100010
    } else if i == 45 {
        0b0110100110010001
    } else if i == 46 {
        0b1101100010001111
    } else if i == 47 {
        0b0000000000000011
    } else {
        0
    }
}

/// Row `i` of the generator matrix, as a machine value.
fn gen_row_exec(i: usize) -> (r: u16)
    requires
        i < 48,
    ensures
        r == gen_row(i as int),
{
    match i {
        0 => 0b1110110001000111,
        1 => 0b1001101001100100,
        2 => 0b0100110100110010,
        3 => 0b0010011010011001,
        4 => 0b1111111100001011,
        5 => 0b1001001111000010,
        6 => 0b0100100111100001,
        7 => 0b1100100010110111,
        8 => 0b1000100000011100,
        9 => 0b0100010000001110,
        10 => 0b0010001000000111,
        11 => 0b1111110101000100,
        12 => 0b0111111010100010,
        13 => 0b0011111101010001,
        14 => 0b1111001111101111,
        15 => 0b1001010110110000,
        16 => 0b0100101011011000,
        17 => 0b0010010101101100,
        18 => 0b0001001010110110,
        19 => 0b0000100101011011,
        20 => 0b1110100011101010,
        21 => 0b0111010001110101,
        22 => 0b1101011001111101,
        23 => 0b1000011101111001,
        24 => 0b1010111111111011,
        25 => 0b1011101110111010,
        26 => 0b0101110111011101,
        27 => 0b1100001010101001,
        28 => 0b1000110100010011,
        29 => 0b1010101011001110,
        30 => 0b0101010101100111,
        31 => 0b1100011011110100,
        32 => 0b0110001101111010,
        33 => 0b0011000110111101,
        34 => 0b1111010010011001,
        35 => 0b1001011000001011,
        36 => 0b1010011101000010,
        37 => 0b0101001110100001,
        38 => 0b1100010110010111,
        39 => 0b1000111010001100,
        40 => 0b0100011101000110,
        41 => 0b0010001110100011,
        42 => 0b1111110110010110,
        43 => 0b0111111011001011,
        44 => 0b1101001100100010,
        45 => 0b0110100110010001,
        46 => 0b1101100010001111,
        47 => 0b0000000000000011,
        _ => 0,
    }
}

/// The parity, under GF(2), of the set bits of `x`: the bits added up
/// modulo 2.
pub open spec fn parity16(x: u16) -> u64
    decreases x,
{
    if x == 0 {
        0
    } else {
        (((x % 2) as u64 + parity16(x / 2)) % 2) as u64
    }
}

/// The parity of the bits of `x`, as a machine value.
fn parity16_exec(x: u16) -> (r: u64)
    ensures
        r == parity16(x),
        r <= 1,
{
    let ghost x0 = x;
    let mut x = x;
    let mut acc: u64 = 0;
    proof {
        lemma_parity16_le(x0);
    }
    while x != 0
        invariant
            acc <= 1,
            parity16(x0) == (acc + parity16(x)) % 2,
        decreases x,
    {
        proof {
            lemma_parity16_le(x / 2);
        }
        acc = (acc + (x % 2) as u64) % 2;
        x = x / 2;
    }
    acc
}

/// The parity of any value is a single bit.
proof fn lemma_parity16_le(x: u16)
    ensures
        parity16(x) <= 1,
    decreases x,
{
    if x != 0 {
        lemma_parity16_le(x / 2);
    }
}

/// The codeword after the first `i` generator rows have been folded in:
/// the data word followed by `i` appended parity bits, each the parity of
/// the data bits its row selects.
pub open spec fn encode_fold(w: u16, i: int) -> int
    decreases i,
{
    if i <= 0 {
        w as int
    } else {
        2 * encode_fold(w, i - 1) + parity16(w & gen_row(i - 1))
    }
}

/// The 64-bit codeword of a 16-bit data word: data in bits 63..48, the 47
/// BCH parity bits in bits 47..1, and the P25 overall-parity bit in bit 0.
pub open spec fn encoded(w: u16) -> int {
    encode_fold(w, 48)
}

/// The codeword after `i` rows fits in `16 + i` bits.
proof fn lemma_encode_fold_bound(w: u16, i: int)
    requires
        0 <= i,
    ensures
        0 <= encode_fold(w, i) < pow2((16 + i) as nat),
    decreases i,
{
    if i == 0 {
        lemma2_to64();
    } else {
        lemma_encode_fold_bound(w, i - 1);
        lemma_parity16_le(w & gen_row(i - 1));
        assert(pow2((16 + i) as nat) == 2 * pow2((16 + i - 1) as nat)) by {
            lemma_pow2_adds((16 + i - 1) as nat, 1);
            lemma2_to64();
        }
    }
}

/// Encode the 16 data bits into a 64-bit codeword.
pub fn encode(word: u16) -> (r: u64)
    ensures
        r == encoded(word),
{
    let mut r: u64 = word as u64;
    let mut i: usize = 0;
    proof {
        lemma2_to64();
        lemma2_to64_rest();
    }
    while i < 48
        invariant
            i <= 48,
            r == encode_fold(word, i as int),
        decreases 48 - i,
    {
        proof {
            lemma_encode_fold_bound(word, i as int);
            if 16 + i < 63 {
                lemma_pow2_strictly_increases((16 + i) as nat, 63);
            }
            lemma2_to64();
            lemma2_to64_rest();
        }
        let p = parity16_exec(word & gen_row_exec(i));
        r = r * 2 + p;
        i = i + 1;
    }
    r
}

/// One term of a syndrome: a set bit `b` of the received word contributes
/// alpha to the power `b * k`.
pub open spec fn syn_term(word: u64, k: int, b: int) -> u8 {
    if (word >> (b as u64)) & 1 == 1 {
        gf_pow(((b * k) % 63) as nat)
    } else {
        0
    }
}

/// The sum of the syndrome terms of bits 0 through `b`.
pub open spec fn syn_sum(word: u64, k: int, b: int) -> u8
    decreases b + 1,
{
    if b < 0 {
        0
    } else {
        bxor(syn_term(word, k, b), syn_sum(word, k, b - 1))
    }
}

/// Coefficient `k` of the syndrome polynomial of a 63-bit received word:
/// the received word evaluated at alpha^k, with the sentinel 1 at `k` 0
/// that lets the Berlekamp-Massey recurrence start uniformly.
pub open spec fn syn_coef(word: u64, k: int) -> u8 {
    if k == 0 {
        1
    } else {
        syn_sum(word, k, 62)
    }
}

/// The full syndrome polynomial of a 63-bit received word.
pub open spec fn syndrome_coefs(word: u64) -> Seq<u8> {
    Seq::new(POLY_LEN as nat, |k: int| if k < 23 { syn_coef(word, k) } else { 0 })
}

/// Generate the syndrome polynomial for the given received word.
pub fn syndromes(word: u64) -> (r: Polynomial)
    ensures
        r.wf(),
        r.coefs() == syndrome_coefs(word),
{
    let tab = exp_table();
    let mut coefs: Vec<Gf> = Vec::new();
    coefs.push(Gf::one());
    let mut k: usize = 1;
    while k < 23
        invariant
            1 <= k <= 23,
            tab@.len() == 63,
            forall|j: int| 0 <= j < 63 ==> #[trigger] tab@[j] == gf_pow(j as nat) && tab@[j] < 64,
            coefs@.len() == k,
            forall|j: int| 0 <= j < k ==> (#[trigger] coefs@[j]).wf(),
            forall|j: int| 0 <= j < k ==> (#[trigger] coefs@[j]).value() == syn_coef(word, j),
        decreases 23 - k,
    {
        let mut s = Gf::zero();
        let mut b: usize = 0;
        while b < 63
            invariant
                1 <= k < 23,
                b <= 63,
                tab@.len() == 63,
                forall|j: int| 0 <= j < 63 ==> #[trigger] tab@[j] == gf_pow(j as nat) && tab@[j] < 64,
                s.wf(),
                s.value() == syn_sum(word, k as int, b - 1),
            decreases 63 - b,
        {
            if (word >> (b as u64)) & 1 == 1 {
                proof {
                    assert(b * k < 63 * 23) by (nonlinear_arith)
                        requires
                            b < 63,
                            k < 23,
                    ;
                }
                let term = Gf::from_bits(tab[(b * k) % 63]);
                s = term.add(s);
            } else {
                proof {
                    assert(bxor(0, s.value()) == s.value());
                }
            }
            b = b + 1;
        }
        coefs.push(s);
        k = k + 1;
    }
    let r = Polynomial::new(&coefs);
    proof {
        assert(r.coefs() =~= syndrome_coefs(word));
    }
    r
}

/// The received word with the bits at the listed positions, from index
/// `i` on, flipped.
pub open spec fn flip_from(w: u64, locs: Seq<int>, i: int) -> u64
    decreases locs.len() - i,
{
    if i < 0 || i >= locs.len() {
        w
    } else {
        flip_from(w ^ (1u64 << (locs[i] as u64)), locs, i + 1)
    }
}

/// The received word with the bits at all listed positions flipped.
pub open spec fn flip_errors(w: u64, locs: Seq<int>) -> u64 {
    flip_from(w, locs, 0)
}

/// What decoding a 64-bit received word yields: the overall-parity bit is
/// dropped, the error locator of the syndromes predicts `e` errors, and
/// if the Chien search finds `e` roots the flipped word's top 16 bits are
/// the data; if it finds fewer, the word is uncorrectable.
pub open spec fn decode_result(word: u64) -> Option<(u16, usize)> {
    let w = word >> 1u64;
    let lam = bm_states(syndrome_coefs(w), BM_STEPS as nat).cur;
    let e = deg_of(lam);
    let locs = chien_positions(lam);
    if locs.len() >= e && e >= 0 {
        Some(((flip_errors(w, locs.take(e)) >> 47u64) as u16, e as usize))
    } else {
        None
    }
}

/// Try to decode the 64-bit word to the nearest codeword, correcting up
/// to 11 errors. Return `Some((data, err))`, where `data` is the 16 data
/// bits and `err` is the number of corrected errors, and `None` if the
/// word could not be corrected.
pub fn decode(word: u64) -> (r: Option<(u16, usize)>)
    ensures
        r == decode_result(word),
{
    let w = word >> 1u64;
    let syn = syndromes(w);
    let lam = bm_locator(&syn);

    let e: usize = match lam.degree() {
        Some(d) => d,
        None => {
            proof {
                lemma_deg_from_nonneg(lam.coefs(), POLY_LEN - 1);
            }
            0
        },
    };
    proof {
        assert(e as int == deg_of(lam.coefs()));
    }

    let locs = error_locations(&lam, e);

    if locs.len() == e {
        let ghost target = chien_positions(lam.coefs()).take(e as int);
        let mut wc = w;
        let mut i: usize = 0;
        proof {
            assert(target.len() == e);
        }
        while i < e
            invariant
                i <= e,
                locs@.len() == e,
                target.len() == e,
                forall|j: int|
                    0 <= j < e ==> (#[trigger] locs@[j]).0 as int == target[j] && locs@[j].0 < 63,
                flip_errors(w, target) == flip_from(wc, target, i as int),
            decreases e - i,
        {
            wc = wc ^ (1u64 << (locs[i].0 as u64));
            i = i + 1;
        }
        Some(((wc >> 47u64) as u16, e))
    } else {
        None
    }
}

/// A received word is error-free when every true syndrome vanishes: the
/// word, read as a polynomial over GF(2^6), has every power of alpha up
/// to the code distance as a root.
pub open spec fn error_free(w: u64) -> bool {
    forall|k: int| 1 <= k < 23 ==> #[trigger] syn_coef(w, k) == 0
}

/// An error-free word decodes to its own data: when every true syndrome
/// of the stripped word vanishes, the Berlekamp-Massey recurrence keeps
/// the locator at 1, the Chien search finds no error positions, and the
/// decoder returns the word's top 16 bits with zero reported errors.
pub proof fn lemma_decode_error_free(word: u64)
    requires
        error_free(word >> 1u64),
    ensures
        decode_result(word) == Some((((word >> 1u64) >> 47u64) as u16, 0usize)),
{
    let w = word >> 1u64;
    let syn = syndrome_coefs(w);
    assert(forall|k: int| 1 <= k < POLY_LEN ==> #[trigger] syn[k] == 0);
    crate::bmcf::lemma_bm_clean(syn, BM_STEPS as nat);
    let lam = bm_states(syn, BM_STEPS as nat).cur;
    crate::bmcf::lemma_deg_one_coefs(POLY_LEN - 1);
    assert(deg_of(lam) == 0);
    crate::bmcf::lemma_chien_one_coefs(62);
    assert(chien_positions(lam).len() == 0);
    let locs = chien_positions(lam).take(0);
    assert(flip_errors(w, locs) == w);
}

/// Flipping only the overall-parity bit (bit 0) never changes what a
/// word decodes to: the decoder strips that bit before computing
/// syndromes, so both the decoded data and the reported error count are
/// those of the unflipped word.
pub proof fn lemma_decode_ignores_parity_bit(word: u64)
    ensures
        decode_result(word ^ 1) == decode_result(word),
{
    assert((word ^ 1) >> 1u64 == word >> 1u64) by (bit_vector);
}

/// The codeword after `i` rows still holds the data word in its top 16
/// bits: the appended parity bits never disturb it.
proof fn lemma_encode_fold_div(w: u16, i: int)
    requires
        0 <= i,
    ensures
        encode_fold(w, i) / pow2(i as nat) as int == w,
    decreases i,
{
    if i == 0 {
        lemma2_to64();
    } else {
        lemma_encode_fold_div(w, i - 1);
        lemma_encode_fold_bound(w, i - 1);
        lemma_parity16_le(w & gen_row(i - 1));
        let a = encode_fold(w, i - 1);
        let p = parity16(w & gen_row(i - 1)) as int;
        let q = pow2((i - 1) as nat) as int;
        assert(pow2(i as nat) == 2 * pow2((i - 1) as nat)) by {
            lemma_pow2_adds((i - 1) as nat, 1);
            lemma2_to64();
        }
        assert(q > 0) by {
            lemma_pow2_pos((i - 1) as nat);
        }
        assert((2 * a + p) / (2 * q) == ((2 * a + p) / 2) / q) by {
            lemma_div_denominator(2 * a + p, 2, q);
        }
        assert((2 * a + p) / 2 == a);
    }
}

/// The code is systematic: the top 16 bits of a codeword are the data
/// word itself.
pub proof fn lemma_encoded_data_bits(w: u16)
    ensures
        0 <= encoded(w) < pow2(64),
        (encoded(w) as u64) >> 48u64 == w,
{
    lemma_encode_fold_bound(w, 48);
    lemma_encode_fold_div(w, 48);
    lemma2_to64();
    lemma2_to64_rest();
    assert(0 <= encoded(w) < 0x1_0000_0000_0000_0000);
    let c = encoded(w) as u64;
    assert(c == encoded(w));
    vstd::bits::lemma_u64_shr_is_div(c, 48u64);
    assert(c >> 48u64 == c as nat / pow2(48));
    assert(encoded(w) / pow2(48) as int == w);
}

/// Whenever the syndromes of a data word's codeword all vanish, decoding
/// the codeword returns that data word with zero reported errors. This
/// reduces the round trip `decode(encode(w)) == (w, 0)` to the vanishing
/// of the codeword's syndromes.
pub proof fn lemma_decode_encode_error_free(w: u16)
    requires
        error_free((encoded(w) as u64) >> 1u64),
    ensures
        decode_result(encoded(w) as u64) == Some((w, 0usize)),
{
    let c = encoded(w) as u64;
    lemma_decode_error_free(c);
    lemma_encoded_data_bits(w);
    assert((c >> 1u64) >> 47u64 == c >> 48u64) by (bit_vector);
}

/// Parity adds under exclusive or: the parity of an XOR of two words is
/// the sum of their parities modulo 2.
pub proof fn lemma_parity16_xor(x: u16, y: u16)
    ensures
        parity16(x ^ y) == (parity16(x) + parity16(y)) % 2,
    decreases x + y,
{
    lemma_parity16_le(x);
    lemma_parity16_le(y);
    if x == 0 && y == 0 {
        assert(0u16 ^ 0u16 == 0u16) by (bit_vector);
    } else {
        lemma_parity16_xor(x / 2, y / 2);
        assert((x ^ y) % 2 == (x % 2 + y % 2) % 2 && (x ^ y) / 2 == (x / 2 ^ y / 2) && (x ^ y
            == 0 ==> x == y)) by (bit_vector);
        lemma_parity16_le(x / 2);
        lemma_parity16_le(y / 2);
        if x ^ y != 0 {
            assert(parity16(x ^ y) == (((x ^ y) % 2) as u64 + parity16((x ^ y) / 2)) % 2);
        }
    }
}

/// The code is linear over GF(2): after any number of generator rows, the
/// codeword of an XOR of two data words is the XOR of their codewords.
proof fn lemma_encode_fold_xor(w1: u16, w2: u16, i: int)
    requires
        0 <= i <= 48,
    ensures
        encode_fold(w1 ^ w2, i) == (encode_fold(w1, i) as u64) ^ (encode_fold(w2, i) as u64),
    decreases i,
{
    lemma_encode_fold_bound(w1, i);
    lemma_encode_fold_bound(w2, i);
    lemma_encode_fold_bound((w1 ^ w2) as u16, i);
    lemma2_to64();
    lemma2_to64_rest();
    if i == 0 {
        assert((w1 as u64) ^ (w2 as u64) == (w1 ^ w2) as u64) by (bit_vector);
    } else {
        lemma_encode_fold_xor(w1, w2, i - 1);
        lemma_encode_fold_bound(w1, i - 1);
        lemma_encode_fold_bound(w2, i - 1);
        if 16 + i - 1 < 63 {
            lemma_pow2_strictly_increases((16 + i - 1) as nat, 63);
        }
        let row = gen_row(i - 1);
        assert((w1 ^ w2) & row == (w1 & row) ^ (w2 & row)) by (bit_vector);
        lemma_parity16_xor(w1 & row, w2 & row);
        lemma_parity16_le(w1 & row);
        lemma_parity16_le(w2 & row);
        let x1: u64 = encode_fold(w1, i - 1) as u64;
        let x2: u64 = encode_fold(w2, i - 1) as u64;
        let p1: u64 = parity16(w1 & row);
        let p2: u64 = parity16(w2 & row);
        if 16 + i <= 63 {
            lemma_pow2_strictly_increases((16 + i - 1) as nat, 63);
        }
        assert(((2 * x1 + p1) as u64) ^ ((2 * x2 + p2) as u64) == (2 * (x1 ^ x2) + ((p1 + p2)
            % 2)) as u64) by (bit_vector)
            requires
                x1 < 0x8000000000000000u64,
                x2 < 0x8000000000000000u64,
                p1 < 2u64,
                p2 < 2u64,
        ;
        assert(encode_fold(w1 ^ w2, i) == 2 * (x1 ^ x2) + ((p1 + p2) % 2));
        assert(pow2((16 + i) as nat) <= pow2(64)) by {
            if 16 + i < 64 {
                lemma_pow2_strictly_increases((16 + i) as nat, 64);
            }
        }
    }
}

/// The code is linear: the codeword of an XOR of two data words is the
/// XOR of their codewords.
pub proof fn lemma_encode_linear(w1: u16, w2: u16)
    ensures
        encoded(w1 ^ w2) == (encoded(w1) as u64) ^ (encoded(w2) as u64),
{
    lemma_encode_fold_xor(w1, w2, 48);
}

/// What the overall-parity bit is: the last generator row fixes bit 0 of
/// every codeword as the parity of the data word's two low bits.
pub proof fn lemma_encode_parity_bit(w: u16)
    ensures
        encoded(w) % 2 == parity16(w & 0b11),
{
    lemma_parity16_le(w & gen_row(47));
    assert(encoded(w) == 2 * encode_fold(w, 47) + parity16(w & gen_row(47)));
}

/// A sequence with a nonzero coefficient at index zero has a degree.
proof fn lemma_deg_from_nonneg(s: Seq<u8>, i: int)
    requires
        0 <= i < s.len(),
        s[0] != 0,
    ensures
        deg_from(s, i) >= 0,
    decreases i,
{
    if i > 0 && s[i] == 0 {
        lemma_deg_from_nonneg(s, i - 1);
    }
}

} // verus!
