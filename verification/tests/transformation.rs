use curve_utils::curve::{point_clone, point_eq, SecpPoint};
use curve_utils::hash_to_curve::affine_from_bytes_tai;
use curve_utils::transform::{create_permissible_points_and_randomnesses, PermissibleParams};

/// A stand-in for curve-tree parameters: keeps each commitment as it is
/// and hands out a fixed randomness.
struct IdentityParams {
    randomness: u64,
}

impl PermissibleParams for IdentityParams {
    type Randomness = u64;

    // The ghost description of the map; never run.
    fn permissible_spec(&self, p: SecpPoint) -> (SecpPoint, u64) {
        (p, self.randomness)
    }

    fn permissible_commitment(&self, p: &SecpPoint) -> (SecpPoint, u64) {
        (point_clone(p), self.randomness)
    }
}

#[test]
fn transform_aligns_outputs_with_inputs() {
    let leaves: Vec<SecpPoint> = [&b"t one"[..], b"t two", b"t three", b"t four"]
        .iter()
        .map(|s| affine_from_bytes_tai(&s.to_vec()).unwrap())
        .collect();
    let params = IdentityParams { randomness: 7 };
    let (points, randomnesses) = create_permissible_points_and_randomnesses(&leaves, &params);
    assert_eq!(points.len(), leaves.len());
    assert_eq!(randomnesses.len(), leaves.len());
    for (got, leaf) in points.iter().zip(leaves.iter()) {
        let (expected, r) = params.permissible_commitment(leaf);
        assert!(point_eq(got, &expected));
        assert_eq!(r, 7);
    }
    assert!(randomnesses.iter().all(|r| *r == 7));
}

#[test]
fn transform_of_empty_input_is_empty() {
    let params = IdentityParams { randomness: 0 };
    let (points, randomnesses) = create_permissible_points_and_randomnesses(&Vec::new(), &params);
    assert!(points.is_empty());
    assert!(randomnesses.is_empty());
}
