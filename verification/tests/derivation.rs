use curve_utils::codec::{point_from_compressed_hex, point_to_compressed_hex};
use curve_utils::curve::point_eq;
use curve_utils::hash_to_curve::{affine_from_bytes_tai, get_generators};

#[test]
fn derive_is_deterministic() {
    let seed1: Vec<u8> = b"a deterministic seed".to_vec();
    let seed2: Vec<u8> = b"a deterministic seed".to_vec();
    let p1 = affine_from_bytes_tai(&seed1).expect("derivation failed");
    let p2 = affine_from_bytes_tai(&seed2).expect("derivation failed");
    assert!(point_eq(&p1, &p2));
    assert_eq!(point_to_compressed_hex(&p1), point_to_compressed_hex(&p2));
}

#[test]
fn derive_distinct_seeds_distinct_points() {
    let p1 = affine_from_bytes_tai(&b"seed one".to_vec()).expect("derivation failed");
    let p2 = affine_from_bytes_tai(&b"seed two".to_vec()).expect("derivation failed");
    assert!(!point_eq(&p1, &p2));
    assert_ne!(point_to_compressed_hex(&p1), point_to_compressed_hex(&p2));
}

#[test]
fn derive_succeeds_within_bounded_search() {
    assert!(affine_from_bytes_tai(&b"this is J".to_vec()).is_some());
    assert!(affine_from_bytes_tai(&Vec::new()).is_some());
    assert!(affine_from_bytes_tai(&b"x".to_vec()).is_some());
}

#[test]
fn generators_fixed_pair() {
    let (g, j) = get_generators().expect("generator derivation failed");
    let j_again = affine_from_bytes_tai(&b"this is J".to_vec()).expect("derivation failed");
    assert!(point_eq(&j, &j_again));
    assert!(!point_eq(&g, &j));
}

#[test]
fn generators_deterministic() {
    let (g1, j1) = get_generators().expect("generator derivation failed");
    let (g2, j2) = get_generators().expect("generator derivation failed");
    assert!(point_eq(&g1, &g2));
    assert!(point_eq(&j1, &j2));
}

#[test]
fn compressed_hex_round_trip() {
    let (g, j) = get_generators().expect("generator derivation failed");
    for p in [g, j] {
        let h = point_to_compressed_hex(&p);
        assert_eq!(h.len(), 66);
        assert!(h.iter().all(|b| b.is_ascii_hexdigit()));
        let q = point_from_compressed_hex(&h).expect("round trip failed");
        assert!(point_eq(&p, &q));
    }
}

#[test]
fn compressed_hex_rejects_bad_text() {
    assert!(point_from_compressed_hex(&b"zz".to_vec()).is_none());
    assert!(point_from_compressed_hex(&b"aabb".to_vec()).is_none());
    assert!(point_from_compressed_hex(&b"abc".to_vec()).is_none());
}
