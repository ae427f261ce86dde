//! Looking up per-frame lens metadata by timestamp.
use vstd::prelude::*;

verus! {

/// How far `k` is from `ts`.
pub open spec fn distance(k: i64, ts: i64) -> int {
    if k >= ts { k - ts } else { ts - k }
}

/// The widest distance allowed: `max_diff`, or zero where it is negative.
pub open spec fn allowance(max_diff: i64) -> int {
    if max_diff > 0 { max_diff as int } else { 0 }
}

/// `i` is the matching entry nearest to `ts`, the later one where two are equally
/// near.
pub open spec fn is_closest(entries: Seq<(i64, bool)>, ts: i64, i: int) -> bool {
    &&& 0 <= i < entries.len()
    &&& entries[i].1
    &&& forall|j: int| 0 <= j < entries.len() && (#[trigger] entries[j]).1 ==> {
        &&& distance(entries[i].0, ts) <= distance(entries[j].0, ts)
        &&& distance(entries[j].0, ts) == distance(entries[i].0, ts) ==> entries[j].0 <= entries[i].0
    }
}

/// `FileMetadata::lens_params_closest`, over the lens-parameter entries by
/// timestamp, each with whether it is one the caller wants: the wanted entry nearest
/// to `timestamp_us` (the later one of two equally near), where it is nearer than
/// `max_diff` (a negative `max_diff` counting as zero). Gives the entry's index.
pub fn lens_params_closest(entries: &Vec<(i64, bool)>, timestamp_us: i64, max_diff: i64) -> (r: Option<usize>)
    ensures
        r matches Some(i) ==> is_closest(entries@, timestamp_us, i as int)
            && distance(entries@[i as int].0, timestamp_us) < allowance(max_diff),
        r is None ==> forall|j: int| 0 <= j < entries@.len() && (#[trigger] entries@[j]).1
            ==> distance(entries@[j].0, timestamp_us) >= allowance(max_diff),
{
    let mut best: Option<usize> = None;
    let mut best_dist: i128 = 0;
    let mut i: usize = 0;
    while i < entries.len()
        invariant
            i <= entries@.len(),
            best matches Some(b) ==> {
                &&& b < i
                &&& entries@[b as int].1
                &&& best_dist == distance(entries@[b as int].0, timestamp_us)
                &&& forall|j: int| 0 <= j < i && (#[trigger] entries@[j]).1 ==> {
                    &&& best_dist <= distance(entries@[j].0, timestamp_us)
                    &&& distance(entries@[j].0, timestamp_us) == best_dist ==> entries@[j].0 <= entries@[b as int].0
                }
            },
            best is None ==> forall|j: int| 0 <= j < i ==> !(#[trigger] entries@[j]).1,
        decreases entries@.len() - i,
    {
        let (k, wanted) = entries[i];
        if wanted {
            let d: i128 = if k >= timestamp_us { k as i128 - timestamp_us as i128 } else { timestamp_us as i128 - k as i128 };
            let better = match best {
                None => true,
                Some(b) => d < best_dist || (d == best_dist && k >= entries[b].0),
            };
            if better {
                best = Some(i);
                best_dist = d;
            }
        }
        i = i + 1;
    }
    let allowed: i128 = if max_diff > 0 { max_diff as i128 } else { 0 };
    match best {
        Some(b) => if best_dist < allowed {
            Some(b)
        } else {
            None
        },
        None => None,
    }
}

} // verus!
