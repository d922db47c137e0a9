use path_tracer::scene::closest_hit_index;

fn key(distance: f32) -> u32 {
    (distance + 0.0).to_bits()
}

#[test]
fn no_spheres_is_a_miss() {
    assert_eq!(closest_hit_index(&vec![]), None);
}

#[test]
fn all_spheres_missed_is_a_miss() {
    assert_eq!(closest_hit_index(&vec![None, None, None]), None);
}

#[test]
fn single_hit_is_chosen() {
    assert_eq!(closest_hit_index(&vec![None, Some(key(3.5)), None]), Some(1));
}

#[test]
fn nearer_of_two_overlapping_spheres_wins() {
    // Two overlapping spheres on one ray: the front surfaces at 10 and 12.
    assert_eq!(closest_hit_index(&vec![Some(key(12.0)), Some(key(10.0))]), Some(1));
    assert_eq!(closest_hit_index(&vec![Some(key(10.0)), Some(key(12.0))]), Some(0));
}

#[test]
fn equal_distances_keep_the_first_sphere() {
    assert_eq!(closest_hit_index(&vec![None, Some(key(4.0)), Some(key(4.0))]), Some(1));
}

#[test]
fn zero_distance_is_nearest() {
    let keys = vec![Some(key(0.5)), Some(key(-0.0)), Some(key(1.0e-30))];
    assert_eq!(closest_hit_index(&keys), Some(1));
}

#[test]
fn keys_order_like_distances() {
    let distances = [7.25f32, 0.001, 1.0e6, 3.0, 0.0009];
    let keys: Vec<Option<u32>> = distances.iter().map(|d| Some(key(*d))).collect();
    assert_eq!(closest_hit_index(&keys), Some(4));
}
