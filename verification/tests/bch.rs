use p25::bch::{encode, decode, syndromes};
use p25::bmcf::{bm_locator, error_locations};
use p25::galois::Gf;
use p25::polynomial::Polynomial;

#[test]
fn validate_coefs() {
    let empty: Vec<Gf> = Vec::new();
    let p = Polynomial::new(&empty);
    assert_eq!(p.len(), 24);
}

#[test]
fn test_encode() {
    assert_eq!(encode(0b1111111100000000), 0b1111111100000000100100110001000011000010001100000110100001101000);
    assert_eq!(encode(0b0011)&1, 0);
    assert_eq!(encode(0b0101)&1, 1);
    assert_eq!(encode(0b1010)&1, 1);
    assert_eq!(encode(0b1100)&1, 0);
    assert_eq!(encode(0b1111)&1, 0);
}

#[test]
fn test_syndromes() {
    let w = encode(0b1111111100000000)>>1;
    let p = syndromes(w);

    assert_eq!(p.len(), 24);
    assert_eq!(p.degree().unwrap(), 0);
    assert_eq!(syndromes(w ^ 1<<60).degree().unwrap(), 22);
    assert!(p.coef(0) == Gf::for_power(0));
}

#[test]
fn test_decoder() {
    let w = encode(0b1111111100000000)^0b11<<61;
    let poly = bm_locator(&syndromes(w >> 1));

    assert!(poly.coef(0).power().unwrap() == 0);
    assert!(poly.coef(1).power().unwrap() == 3);
    assert!(poly.coef(2).power().unwrap() == 58);
}

#[test]
fn test_locs() {
    let w = encode(0b0000111100001111)^0b11<<61;
    let p = syndromes(w >> 1);
    assert_eq!(p.len(), 24);

    let mut coefs: Vec<Gf> = Vec::new();
    coefs.push(Gf::for_power(0));
    coefs.push(Gf::for_power(3));
    coefs.push(Gf::for_power(58));
    let poly = Polynomial::new(&coefs);

    let locs = error_locations(&poly, 24);

    assert!(locs[0] == (61, Gf::for_power(0)));
    assert!(locs[1] == (60, Gf::for_power(0)));
    assert!(locs.len() == 2);
}

#[test]
fn test_decode() {
    assert!(decode(encode(0b0000111100001111) ^ 1<<63).unwrap() ==
            (0b0000111100001111, 1));

    assert!(decode(encode(0b1100011111111111) ^ 1).unwrap() ==
            (0b1100011111111111, 0));

    assert!(decode(encode(0b1111111100000000) ^ 0b11010011<<30).unwrap() ==
            (0b1111111100000000, 5));

    assert!(decode(encode(0b1101101101010001) ^ (1<<63 | 1)).unwrap() ==
            (0b1101101101010001, 1));

    assert!(decode(encode(0b1111111111111111) ^ 0b11111111111).unwrap() ==
            (0b1111111111111111, 10));

    assert!(decode(encode(0b0000000000000000) ^ 0b11111111111).unwrap() ==
            (0b0000000000000000, 10));

    assert!(decode(encode(0b0000111110000000) ^ 0b111111111110).unwrap() ==
            (0b0000111110000000, 11));

    assert!(decode(encode(0b0000111110000000) ^ 0b111111111110).unwrap() ==
            (0b0000111110000000, 11));

    assert!(decode(encode(0b0000111110001010) ^ 0b1111111111110).is_none());
    assert!(decode(encode(0b0000001111111111) ^ 0b11111111111111111111110).is_none());
    assert!(decode(encode(0b0000001111111111) ^
                   0b00100101010101000010001100100010011111111110).is_none());

    for i in 0..1u32<<17 {
        assert_eq!(decode(encode(i as u16)).unwrap().0, i as u16);
    }
}

#[test]
fn test_roundtrip_with_parity_flip() {
    assert!(decode(encode(0x0F0F) ^ (1<<63)).unwrap() == (0x0F0F, 1));
    assert!(decode(encode(0x0F0F) ^ 1).unwrap() == (0x0F0F, 0));
    assert!(decode(encode(0xABCD) ^ 1).unwrap() == (0xABCD, 0));
}

#[test]
fn test_error_patterns_at_capacity() {
    assert!(decode(encode(0x0F80) ^ 0b1111_1111_1110).unwrap() == (0x0F80, 11));
    assert!(decode(encode(0x0F8A) ^ 0b1_1111_1111_1110).is_none());
}

#[test]
fn test_no_locations_requested() {
    let mut coefs: Vec<Gf> = Vec::new();
    coefs.push(Gf::for_power(0));
    coefs.push(Gf::for_power(3));
    coefs.push(Gf::for_power(58));
    let poly = Polynomial::new(&coefs);
    let locs = error_locations(&poly, 0);
    assert!(locs.is_empty());
}
