//! Timing of the image stabilizer samples of Sony clips.
use vstd::prelude::*;

verus! {

/// The samples of one stabilizer (sensor or lens), with the index of the first
/// sample of each frame.
pub struct ISSamples {
    pub per_frame_start_idx: Vec<usize>,
    pub t: Vec<i32>,
    pub x: Vec<i32>,
    pub y: Vec<i32>,
    pub a: Vec<i32>,
}

/// The time from sample `i1` to sample `i2` (in either order, both clamped to the
/// last sample); a difference that is not above zero is a sample that wrapped to
/// the next frame, or a duplicated one, and gets the frame interval added.
pub open spec fn time_diff(t: Seq<i32>, frame_interval: i32, i1: int, i2: int) -> int {
    let last = t.len() - 1;
    let a = if i1 < i2 { i1 } else { i2 };
    let b = if i1 < i2 { i2 } else { i1 };
    let a = if a < last { a } else { last };
    let b = if b < last { b } else { last };
    let dt = t[b] - t[a];
    if dt <= 0 {
        dt + frame_interval
    } else {
        dt
    }
}

/// The time differences up to that of sample `i` stay within `i32`.
pub open spec fn time_diff_fits(t: Seq<i32>, frame_interval: i32, i1: int, i2: int) -> bool {
    let last = t.len() - 1;
    let a = if i1 < i2 { i1 } else { i2 };
    let b = if i1 < i2 { i2 } else { i1 };
    let a = if a < last { a } else { last };
    let b = if b < last { b } else { last };
    &&& i32::MIN <= t[b] - t[a] <= i32::MAX
    &&& i32::MIN <= time_diff(t, frame_interval, i1, i2) <= i32::MAX
}

/// The time from sample `k` to the next one stays within `i32`.
pub open spec fn step_fits(t: Seq<i32>, frame_interval: i32, k: int) -> bool {
    time_diff_fits(t, frame_interval, k, k + 1)
}

/// The time from the first sample to sample `n`, summed sample by sample.
pub open spec fn time_offset(t: Seq<i32>, frame_interval: i32, n: int) -> int
    decreases n,
{
    if n <= 0 {
        0
    } else {
        time_offset(t, frame_interval, n - 1) + time_diff(t, frame_interval, n - 1, n)
    }
}

impl ISSamples {
    /// The time between two samples (see `time_diff`); `None` when there are no samples.
    pub fn calc_time_diff(&self, frame_interval: i32, i1: usize, i2: usize) -> (r: Option<i32>)
        requires
            self.t@.len() > 0 ==> time_diff_fits(self.t@, frame_interval, i1 as int, i2 as int),
        ensures
            self.t@.len() == 0 ==> r is None,
            self.t@.len() > 0 ==> r == Some(time_diff(self.t@, frame_interval, i1 as int, i2 as int) as i32),
    {
        if self.t.len() == 0 {
            return None;
        }
        let last = self.t.len() - 1;
        let lo = if i1 < i2 { i1 } else { i2 };
        let hi = if i1 < i2 { i2 } else { i1 };
        let a = if lo < last { lo } else { last };
        let b = if hi < last { hi } else { last };
        let mut dt = self.t[b] - self.t[a];
        if dt <= 0 {
            dt = dt + frame_interval;
        }
        Some(dt)
    }

    /// The time from the first sample to sample `idx` (see `time_offset`); `None`
    /// when there are no samples and `idx` is not zero.
    pub fn calc_ofs(&self, frame_interval: i32, idx: usize) -> (r: Option<i32>)
        requires
            self.t@.len() > 0 ==> forall|k: int| 0 <= k < idx ==> #[trigger] step_fits(self.t@, frame_interval, k),
            self.t@.len() > 0 ==> forall|k: int| 0 <= k <= idx ==> i32::MIN <= #[trigger] time_offset(self.t@, frame_interval, k) <= i32::MAX,
        ensures
            self.t@.len() == 0 && idx > 0 ==> r is None,
            (self.t@.len() > 0 || idx == 0) ==> r == Some(time_offset(self.t@, frame_interval, idx as int) as i32),
    {
        let mut acc: i32 = 0;
        let mut i: usize = 0;
        while i < idx
            invariant
                i <= idx,
                self.t@.len() > 0 ==> forall|k: int| 0 <= k < idx ==> #[trigger] step_fits(self.t@, frame_interval, k),
                self.t@.len() > 0 ==> forall|k: int| 0 <= k <= idx ==> i32::MIN <= #[trigger] time_offset(self.t@, frame_interval, k) <= i32::MAX,
                acc == time_offset(self.t@, frame_interval, i as int),
                self.t@.len() == 0 ==> i == 0,
            decreases idx - i,
        {
            assert(self.t@.len() > 0 ==> step_fits(self.t@, frame_interval, i as int));
            let d = match self.calc_time_diff(frame_interval, i, i + 1) {
                Some(d) => d,
                None => {
                    return None;
                },
            };
            assert(time_offset(self.t@, frame_interval, i + 1) == acc + d);
            assert(i32::MIN <= time_offset(self.t@, frame_interval, i + 1) <= i32::MAX);
            acc = acc + d;
            i = i + 1;
        }
        Some(acc)
    }
}

} // verus!
