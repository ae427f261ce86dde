//! How what a camera records of a clip changes the reading of its gyro data: the
//! rotation that a Blackmagic camera records sets the direction of the rolling
//! shutter, the orientation of the IMU and the sign of the frame readout time, and a
//! GoPro's frame readout time is not used.
use vstd::prelude::*;
use crate::text::chars_of;

verus! {

/// What a clip's recorded rotation changes in the reading of its gyro data.
pub struct RotationAdjustment {
    /// Whether the rolling shutter runs horizontally.
    pub horizontal_rs: bool,
    /// The IMU orientation to read the gyro data with, where it replaces the one the
    /// metadata gives.
    pub imu_orientation: Option<String>,
    /// Whether the frame readout time changes sign.
    pub negate_readout: bool,
}

pub struct RotationAdjustmentView {
    pub horizontal_rs: bool,
    pub imu_orientation: Option<Seq<char>>,
    pub negate_readout: bool,
}

impl View for RotationAdjustment {
    type V = RotationAdjustmentView;

    open spec fn view(&self) -> RotationAdjustmentView {
        RotationAdjustmentView {
            horizontal_rs: self.horizontal_rs,
            imu_orientation: match self.imu_orientation {
                Some(o) => Some(o@),
                None => None,
            },
            negate_readout: self.negate_readout,
        }
    }
}

/// `s` begins with `p`.
pub open spec fn has_prefix(s: Seq<char>, p: Seq<char>) -> bool {
    p.len() <= s.len() && s.subrange(0, p.len() as int) == p
}

/// Whether the source that the telemetry parser detected is a Blackmagic camera.
pub open spec fn is_blackmagic(source: Option<Seq<char>>) -> bool {
    source matches Some(s) && has_prefix(s, "Blackmagic "@)
}

pub open spec fn unchanged() -> RotationAdjustmentView {
    RotationAdjustmentView { horizontal_rs: false, imu_orientation: None, negate_readout: false }
}

/// A Blackmagic clip turned by 90° reads with a horizontal rolling shutter, the IMU
/// orientation `xYz` and the readout time negated; by 270°, horizontally with `Xyz`;
/// by 180°, with `YXz` and the readout time negated. Anything else changes nothing.
pub open spec fn rotation_adjustment(source: Option<Seq<char>>, rotation: Option<u64>) -> RotationAdjustmentView {
    if !is_blackmagic(source) {
        unchanged()
    } else {
        match rotation {
            Some(90) => RotationAdjustmentView { horizontal_rs: true, imu_orientation: Some("xYz"@), negate_readout: true },
            Some(270) => RotationAdjustmentView { horizontal_rs: true, imu_orientation: Some("Xyz"@), negate_readout: false },
            Some(180) => RotationAdjustmentView { horizontal_rs: false, imu_orientation: Some("YXz"@), negate_readout: true },
            _ => unchanged(),
        }
    }
}

/// Whether `s` begins with `p`.
pub fn starts_with(s: &str, p: &str) -> (r: bool)
    ensures
        r == has_prefix(s@, p@),
{
    let a = chars_of(s);
    let b = chars_of(p);
    if b.len() > a.len() {
        return false;
    }
    let mut i: usize = 0;
    while i < b.len()
        invariant
            i <= b@.len() <= a@.len(),
            a@ == s@,
            b@ == p@,
            forall|j: int| 0 <= j < i ==> a@[j] == b@[j],
        decreases b@.len() - i,
    {
        if a[i] != b[i] {
            assert(a@.subrange(0, b@.len() as int)[i as int] != b@[i as int]);
            return false;
        }
        i = i + 1;
    }
    assert(a@.subrange(0, b@.len() as int) =~= b@);
    true
}

/// What the rotation that a clip records (`rotation` in the telemetry's additional
/// data) changes in the reading of its gyro data, given the source the telemetry
/// parser detected.
pub fn blackmagic_rotation_adjustment(detected_source: Option<&str>, rotation: Option<u64>) -> (r: RotationAdjustment)
    ensures
        r@ == rotation_adjustment(
            match detected_source {
                Some(s) => Some(s@),
                None => None,
            },
            rotation,
        ),
{
    let none = RotationAdjustment { horizontal_rs: false, imu_orientation: None, negate_readout: false };
    let blackmagic = match detected_source {
        Some(s) => starts_with(s, "Blackmagic "),
        None => false,
    };
    if !blackmagic {
        return none;
    }
    match rotation {
        Some(90) => RotationAdjustment { horizontal_rs: true, imu_orientation: Some("xYz".to_string()), negate_readout: true },
        Some(270) => RotationAdjustment { horizontal_rs: true, imu_orientation: Some("Xyz".to_string()), negate_readout: false },
        Some(180) => RotationAdjustment { horizontal_rs: false, imu_orientation: Some("YXz".to_string()), negate_readout: true },
        _ => none,
    }
}

/// Whether the source that the telemetry parser detected is a GoPro camera.
pub open spec fn is_gopro(source: Option<Seq<char>>) -> bool {
    source matches Some(s) && has_prefix(s, "GoPro "@)
}

/// Whether the frame readout time that the telemetry gives is dropped: a GoPro has
/// already corrected the rolling shutter of its video where it reports one.
pub fn drops_frame_readout_time(detected_source: Option<&str>) -> (r: bool)
    ensures
        r == is_gopro(
            match detected_source {
                Some(s) => Some(s@),
                None => None,
            },
        ),
{
    match detected_source {
        Some(s) => starts_with(s, "GoPro "),
        None => false,
    }
}

} // verus!
