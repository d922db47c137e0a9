//! Closest-hit selection over the spheres of a scene.
//!
//! Each sphere that a ray hits contributes the distance of its hit as an
//! ordered key: for distances that are non-negative and not NaN, the bit
//! pattern of an IEEE-754 single compares exactly as the distance does, so the
//! scan below works on those keys and never on the floating-point values.
use vstd::prelude::*;

verus! {

/// Index `i` holds a hit whose key is no larger than any other hit's key and
/// strictly smaller than the key of every earlier hit.
pub open spec fn is_closest(keys: Seq<Option<u32>>, i: int) -> bool {
    &&& 0 <= i < keys.len()
    &&& keys[i] is Some
    &&& forall|j: int|
        0 <= j < keys.len() && #[trigger] keys[j] is Some ==> keys[i]->0 <= keys[j]->0
    &&& forall|j: int| 0 <= j < i && #[trigger] keys[j] is Some ==> keys[i]->0 < keys[j]->0
}

/// No entry holds a hit: the ray escapes the scene.
pub open spec fn all_missed(keys: Seq<Option<u32>>) -> bool {
    forall|j: int| 0 <= j < keys.len() ==> #[trigger] keys[j] is None
}

/// Scans the per-sphere hit keys in scene order and returns the index of the
/// nearest hit. A later hit replaces the current one only when its key is
/// strictly smaller, so among equal distances the first sphere wins.
pub fn closest_hit_index(keys: &Vec<Option<u32>>) -> (r: Option<usize>)
    ensures
        r is None <==> all_missed(keys@),
        r matches Some(i) ==> is_closest(keys@, i as int),
{
    let mut best: Option<usize> = None;
    let mut i: usize = 0;
    while i < keys.len()
        invariant
            0 <= i <= keys.len(),
            best is None <==> all_missed(keys@.subrange(0, i as int)),
            best matches Some(b) ==> is_closest(keys@.subrange(0, i as int), b as int),
        decreases keys.len() - i,
    {
        let ghost prefix = keys@.subrange(0, i as int);
        let ghost next = keys@.subrange(0, i + 1);
        assert(forall|j: int| 0 <= j < i ==> next[j] == prefix[j]);
        assert(next[i as int] == keys@[i as int]);
        if let Some(k) = keys[i] {
            match best {
                None => {
                    best = Some(i);
                },
                Some(b) => {
                    if k < keys[b].unwrap() {
                        best = Some(i);
                    }
                },
            }
        }
        i = i + 1;
    }
    assert(keys@.subrange(0, keys.len() as int) =~= keys@);
    best
}

} // verus!
