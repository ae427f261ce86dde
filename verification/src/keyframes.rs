//! Keyframes: values of stabilization parameters set at points of the video
//! timeline, per parameter, with the easing between them.
use vstd::prelude::*;
use crate::xml_events::same_text;

verus! {

#[derive(Clone, Copy, Debug, PartialEq, Eq, Structural)]
pub enum KeyframeType {
    Fov,
    VideoRotation,
    ZoomingSpeed,
    ZoomingCenterX,
    ZoomingCenterY,
    BackgroundMargin,
    BackgroundFeather,
    LockHorizonAmount,
    LockHorizonRoll,
    LensCorrectionStrength,
    SmoothingParamTimeConstant,
    SmoothingParamTimeConstant2,
    SmoothingParamSmoothness,
    SmoothingParamPitch,
    SmoothingParamRoll,
    SmoothingParamYaw,
    VideoSpeed,
}

/// The number of keyframe types.
pub const KEYFRAME_TYPE_COUNT: usize = 17;

/// The place of each keyframe type in the order of the enum (the order `Ord` gives).
pub open spec fn ordinal(t: KeyframeType) -> int {
    match t {
        KeyframeType::Fov => 0,
        KeyframeType::VideoRotation => 1,
        KeyframeType::ZoomingSpeed => 2,
        KeyframeType::ZoomingCenterX => 3,
        KeyframeType::ZoomingCenterY => 4,
        KeyframeType::BackgroundMargin => 5,
        KeyframeType::BackgroundFeather => 6,
        KeyframeType::LockHorizonAmount => 7,
        KeyframeType::LockHorizonRoll => 8,
        KeyframeType::LensCorrectionStrength => 9,
        KeyframeType::SmoothingParamTimeConstant => 10,
        KeyframeType::SmoothingParamTimeConstant2 => 11,
        KeyframeType::SmoothingParamSmoothness => 12,
        KeyframeType::SmoothingParamPitch => 13,
        KeyframeType::SmoothingParamRoll => 14,
        KeyframeType::SmoothingParamYaw => 15,
        KeyframeType::VideoSpeed => 16,
    }
}

pub open spec fn type_at(i: int) -> KeyframeType {
    if i == 0 { KeyframeType::Fov }
    else if i == 1 { KeyframeType::VideoRotation }
    else if i == 2 { KeyframeType::ZoomingSpeed }
    else if i == 3 { KeyframeType::ZoomingCenterX }
    else if i == 4 { KeyframeType::ZoomingCenterY }
    else if i == 5 { KeyframeType::BackgroundMargin }
    else if i == 6 { KeyframeType::BackgroundFeather }
    else if i == 7 { KeyframeType::LockHorizonAmount }
    else if i == 8 { KeyframeType::LockHorizonRoll }
    else if i == 9 { KeyframeType::LensCorrectionStrength }
    else if i == 10 { KeyframeType::SmoothingParamTimeConstant }
    else if i == 11 { KeyframeType::SmoothingParamTimeConstant2 }
    else if i == 12 { KeyframeType::SmoothingParamSmoothness }
    else if i == 13 { KeyframeType::SmoothingParamPitch }
    else if i == 14 { KeyframeType::SmoothingParamRoll }
    else if i == 15 { KeyframeType::SmoothingParamYaw }
    else { KeyframeType::VideoSpeed }
}

pub proof fn lemma_ordinal(t: KeyframeType)
    ensures
        0 <= ordinal(t) < KEYFRAME_TYPE_COUNT,
        type_at(ordinal(t)) == t,
{
}

pub proof fn lemma_type_at(i: int)
    requires
        0 <= i < KEYFRAME_TYPE_COUNT,
    ensures
        ordinal(type_at(i)) == i,
{
}

impl KeyframeType {
    pub fn index(&self) -> (r: usize)
        ensures
            r == ordinal(*self),
    {
        match self {
            KeyframeType::Fov => 0,
            KeyframeType::VideoRotation => 1,
            KeyframeType::ZoomingSpeed => 2,
            KeyframeType::ZoomingCenterX => 3,
            KeyframeType::ZoomingCenterY => 4,
            KeyframeType::BackgroundMargin => 5,
            KeyframeType::BackgroundFeather => 6,
            KeyframeType::LockHorizonAmount => 7,
            KeyframeType::LockHorizonRoll => 8,
            KeyframeType::LensCorrectionStrength => 9,
            KeyframeType::SmoothingParamTimeConstant => 10,
            KeyframeType::SmoothingParamTimeConstant2 => 11,
            KeyframeType::SmoothingParamSmoothness => 12,
            KeyframeType::SmoothingParamPitch => 13,
            KeyframeType::SmoothingParamRoll => 14,
            KeyframeType::SmoothingParamYaw => 15,
            KeyframeType::VideoSpeed => 16,
        }
    }

    pub fn from_index(i: usize) -> (r: KeyframeType)
        requires
            i < KEYFRAME_TYPE_COUNT,
        ensures
            r == type_at(i as int),
    {
        if i == 0 { KeyframeType::Fov }
        else if i == 1 { KeyframeType::VideoRotation }
        else if i == 2 { KeyframeType::ZoomingSpeed }
        else if i == 3 { KeyframeType::ZoomingCenterX }
        else if i == 4 { KeyframeType::ZoomingCenterY }
        else if i == 5 { KeyframeType::BackgroundMargin }
        else if i == 6 { KeyframeType::BackgroundFeather }
        else if i == 7 { KeyframeType::LockHorizonAmount }
        else if i == 8 { KeyframeType::LockHorizonRoll }
        else if i == 9 { KeyframeType::LensCorrectionStrength }
        else if i == 10 { KeyframeType::SmoothingParamTimeConstant }
        else if i == 11 { KeyframeType::SmoothingParamTimeConstant2 }
        else if i == 12 { KeyframeType::SmoothingParamSmoothness }
        else if i == 13 { KeyframeType::SmoothingParamPitch }
        else if i == 14 { KeyframeType::SmoothingParamRoll }
        else if i == 15 { KeyframeType::SmoothingParamYaw }
        else { KeyframeType::VideoSpeed }
    }

    /// The name of the type, as project files write it (`Debug`, `ToString`).
    pub open spec fn spec_name(self) -> &'static str {
        match self {
            KeyframeType::Fov => "Fov",
            KeyframeType::VideoRotation => "VideoRotation",
            KeyframeType::ZoomingSpeed => "ZoomingSpeed",
            KeyframeType::ZoomingCenterX => "ZoomingCenterX",
            KeyframeType::ZoomingCenterY => "ZoomingCenterY",
            KeyframeType::BackgroundMargin => "BackgroundMargin",
            KeyframeType::BackgroundFeather => "BackgroundFeather",
            KeyframeType::LockHorizonAmount => "LockHorizonAmount",
            KeyframeType::LockHorizonRoll => "LockHorizonRoll",
            KeyframeType::LensCorrectionStrength => "LensCorrectionStrength",
            KeyframeType::SmoothingParamTimeConstant => "SmoothingParamTimeConstant",
            KeyframeType::SmoothingParamTimeConstant2 => "SmoothingParamTimeConstant2",
            KeyframeType::SmoothingParamSmoothness => "SmoothingParamSmoothness",
            KeyframeType::SmoothingParamPitch => "SmoothingParamPitch",
            KeyframeType::SmoothingParamRoll => "SmoothingParamRoll",
            KeyframeType::SmoothingParamYaw => "SmoothingParamYaw",
            KeyframeType::VideoSpeed => "VideoSpeed",
        }
    }

    pub fn name(&self) -> (r: &'static str)
        ensures
            r == self.spec_name(),
    {
        match self {
            KeyframeType::Fov => "Fov",
            KeyframeType::VideoRotation => "VideoRotation",
            KeyframeType::ZoomingSpeed => "ZoomingSpeed",
            KeyframeType::ZoomingCenterX => "ZoomingCenterX",
            KeyframeType::ZoomingCenterY => "ZoomingCenterY",
            KeyframeType::BackgroundMargin => "BackgroundMargin",
            KeyframeType::BackgroundFeather => "BackgroundFeather",
            KeyframeType::LockHorizonAmount => "LockHorizonAmount",
            KeyframeType::LockHorizonRoll => "LockHorizonRoll",
            KeyframeType::LensCorrectionStrength => "LensCorrectionStrength",
            KeyframeType::SmoothingParamTimeConstant => "SmoothingParamTimeConstant",
            KeyframeType::SmoothingParamTimeConstant2 => "SmoothingParamTimeConstant2",
            KeyframeType::SmoothingParamSmoothness => "SmoothingParamSmoothness",
            KeyframeType::SmoothingParamPitch => "SmoothingParamPitch",
            KeyframeType::SmoothingParamRoll => "SmoothingParamRoll",
            KeyframeType::SmoothingParamYaw => "SmoothingParamYaw",
            KeyframeType::VideoSpeed => "VideoSpeed",
        }
    }

    /// The name, as a string (`ToString`).
    pub fn to_string(&self) -> (r: String)
        ensures
            r@ == self.spec_name()@,
    {
        crate::text::string_of(crate::text::chars_of(self.name()).as_slice())
    }

    /// The type of a name; `None` for a name of none.
    pub fn from_name(s: &str) -> (r: Option<KeyframeType>)
        ensures
            r matches Some(t) ==> t.spec_name()@ == s@,
            r is None ==> forall|t: KeyframeType| t.spec_name()@ != s@,
    {
        let mut i: usize = 0;
        while i < KEYFRAME_TYPE_COUNT
            invariant
                i <= KEYFRAME_TYPE_COUNT,
                forall|j: int| 0 <= j < i ==> (#[trigger] type_at(j)).spec_name()@ != s@,
            decreases KEYFRAME_TYPE_COUNT - i,
        {
            let t = KeyframeType::from_index(i);
            if same_text(t.name(), s) {
                return Some(t);
            }
            i = i + 1;
        }
        proof {
            assert forall|t: KeyframeType| t.spec_name()@ != s@ by {
                lemma_ordinal(t);
                assert(type_at(ordinal(t)).spec_name()@ != s@);
            }
        }
        None
    }

    /// The colour of the type's keyframes on the timeline.
    pub open spec fn spec_color(self) -> &'static str {
        match self {
            KeyframeType::Fov => "#8ee6ea",
            KeyframeType::VideoRotation => "#eae38e",
            KeyframeType::ZoomingSpeed => "#32e595",
            KeyframeType::ZoomingCenterX => "#6fefb6",
            KeyframeType::ZoomingCenterY => "#5ddba2",
            KeyframeType::BackgroundMargin => "#6e5ddb",
            KeyframeType::BackgroundFeather => "#9d93e1",
            KeyframeType::LockHorizonAmount => "#ed7789",
            KeyframeType::LockHorizonRoll => "#e86176",
            KeyframeType::LensCorrectionStrength => "#e8ae61",
            KeyframeType::SmoothingParamTimeConstant => "#94ea8e",
            KeyframeType::SmoothingParamTimeConstant2 => "#89df82",
            KeyframeType::SmoothingParamSmoothness => "#7ced74",
            KeyframeType::SmoothingParamPitch => "#59c451",
            KeyframeType::SmoothingParamRoll => "#51c485",
            KeyframeType::SmoothingParamYaw => "#88c451",
            KeyframeType::VideoSpeed => "#f6e926",
        }
    }

    /// The label of the type.
    pub open spec fn spec_text(self) -> &'static str {
        match self {
            KeyframeType::Fov => "FOV",
            KeyframeType::VideoRotation => "Video rotation",
            KeyframeType::ZoomingSpeed => "Zooming speed",
            KeyframeType::ZoomingCenterX => "Zooming center offset X",
            KeyframeType::ZoomingCenterY => "Zooming center offset Y",
            KeyframeType::BackgroundMargin => "Background margin",
            KeyframeType::BackgroundFeather => "Background feather",
            KeyframeType::LockHorizonAmount => "Horizon lock amount",
            KeyframeType::LockHorizonRoll => "Horizon lock roll correction",
            KeyframeType::LensCorrectionStrength => "Lens correction strength",
            KeyframeType::SmoothingParamTimeConstant => "Max smoothness",
            KeyframeType::SmoothingParamTimeConstant2 => "Max smoothness at high velocity",
            KeyframeType::SmoothingParamSmoothness => "Smoothness",
            KeyframeType::SmoothingParamPitch => "Pitch smoothness",
            KeyframeType::SmoothingParamRoll => "Roll smoothness",
            KeyframeType::SmoothingParamYaw => "Yaw smoothness",
            KeyframeType::VideoSpeed => "Video speed",
        }
    }
}

pub fn keyframe_color(kf: &KeyframeType) -> (r: &'static str)
    ensures
        r == kf.spec_color(),
{
    match kf {
        KeyframeType::Fov => "#8ee6ea",
        KeyframeType::VideoRotation => "#eae38e",
        KeyframeType::ZoomingSpeed => "#32e595",
        KeyframeType::ZoomingCenterX => "#6fefb6",
        KeyframeType::ZoomingCenterY => "#5ddba2",
        KeyframeType::BackgroundMargin => "#6e5ddb",
        KeyframeType::BackgroundFeather => "#9d93e1",
        KeyframeType::LockHorizonAmount => "#ed7789",
        KeyframeType::LockHorizonRoll => "#e86176",
        KeyframeType::LensCorrectionStrength => "#e8ae61",
        KeyframeType::SmoothingParamTimeConstant => "#94ea8e",
        KeyframeType::SmoothingParamTimeConstant2 => "#89df82",
        KeyframeType::SmoothingParamSmoothness => "#7ced74",
        KeyframeType::SmoothingParamPitch => "#59c451",
        KeyframeType::SmoothingParamRoll => "#51c485",
        KeyframeType::SmoothingParamYaw => "#88c451",
        KeyframeType::VideoSpeed => "#f6e926",
    }
}

pub fn keyframe_text(kf: &KeyframeType) -> (r: &'static str)
    ensures
        r == kf.spec_text(),
{
    match kf {
        KeyframeType::Fov => "FOV",
        KeyframeType::VideoRotation => "Video rotation",
        KeyframeType::ZoomingSpeed => "Zooming speed",
        KeyframeType::ZoomingCenterX => "Zooming center offset X",
        KeyframeType::ZoomingCenterY => "Zooming center offset Y",
        KeyframeType::BackgroundMargin => "Background margin",
        KeyframeType::BackgroundFeather => "Background feather",
        KeyframeType::LockHorizonAmount => "Horizon lock amount",
        KeyframeType::LockHorizonRoll => "Horizon lock roll correction",
        KeyframeType::LensCorrectionStrength => "Lens correction strength",
        KeyframeType::SmoothingParamTimeConstant => "Max smoothness",
        KeyframeType::SmoothingParamTimeConstant2 => "Max smoothness at high velocity",
        KeyframeType::SmoothingParamSmoothness => "Smoothness",
        KeyframeType::SmoothingParamPitch => "Pitch smoothness",
        KeyframeType::SmoothingParamRoll => "Roll smoothness",
        KeyframeType::SmoothingParamYaw => "Yaw smoothness",
        KeyframeType::VideoSpeed => "Video speed",
    }
}

#[derive(Clone, Copy, Debug, Default, PartialEq, Eq, Structural)]
pub enum Easing {
    #[default]
    NoEasing,
    EaseIn,
    EaseOut,
    EaseInOut,
}

impl Easing {
    /// The easing of the stretch between two keyframes: eased where the first eases
    /// out and where the second eases in.
    pub open spec fn spec_get(a: Easing, b: Easing) -> Easing {
        let a_out = a == Easing::EaseOut || a == Easing::EaseInOut;
        let b_in = b == Easing::EaseIn || b == Easing::EaseInOut;
        if a_out && b_in {
            Easing::EaseInOut
        } else if b_in {
            Easing::EaseOut
        } else if a_out {
            Easing::EaseIn
        } else {
            Easing::NoEasing
        }
    }

    pub fn get(a: &Self, b: &Self) -> (r: Self)
        ensures
            r == Easing::spec_get(*a, *b),
    {
        let a_out = *a == Easing::EaseOut || *a == Easing::EaseInOut;
        let b_in = *b == Easing::EaseIn || *b == Easing::EaseInOut;
        if a_out && b_in {
            return Easing::EaseInOut;
        }
        if b_in {
            return Easing::EaseOut;
        }
        if a_out {
            return Easing::EaseIn;
        }
        Easing::NoEasing
    }

    pub open spec fn spec_name(self) -> &'static str {
        match self {
            Easing::NoEasing => "NoEasing",
            Easing::EaseIn => "EaseIn",
            Easing::EaseOut => "EaseOut",
            Easing::EaseInOut => "EaseInOut",
        }
    }

    pub fn name(&self) -> (r: &'static str)
        ensures
            r == self.spec_name(),
    {
        match self {
            Easing::NoEasing => "NoEasing",
            Easing::EaseIn => "EaseIn",
            Easing::EaseOut => "EaseOut",
            Easing::EaseInOut => "EaseInOut",
        }
    }

    /// The name, as a string (`ToString`).
    pub fn to_string(&self) -> (r: String)
        ensures
            r@ == self.spec_name()@,
    {
        crate::text::string_of(crate::text::chars_of(self.name()).as_slice())
    }

    /// The easing of a name; `None` for a name of none.
    pub fn from_name(s: &str) -> (r: Option<Easing>)
        ensures
            r matches Some(e) ==> e.spec_name()@ == s@,
            r is None ==> forall|e: Easing| e.spec_name()@ != s@,
    {
        if same_text(s, "NoEasing") {
            Some(Easing::NoEasing)
        } else if same_text(s, "EaseIn") {
            Some(Easing::EaseIn)
        } else if same_text(s, "EaseOut") {
            Some(Easing::EaseOut)
        } else if same_text(s, "EaseInOut") {
            Some(Easing::EaseInOut)
        } else {
            None
        }
    }
}

/// A keyframe: a value (the bit pattern of its IEEE-754 binary64 value) and the
/// easing from it to the next keyframe.
#[derive(Clone, Copy, Debug, PartialEq, Eq, Structural)]
pub struct Keyframe {
    pub value: u64,
    pub easing: Easing,
}

/// The keyframes of one type, ordered by timestamp.
pub open spec fn sorted(s: Seq<(i64, Keyframe)>) -> bool {
    forall|i: int, j: int| 0 <= i < j < s.len() ==> (#[trigger] s[i]).0 < (#[trigger] s[j]).0
}

pub open spec fn track_has(s: Seq<(i64, Keyframe)>, k: i64) -> bool {
    exists|i: int| 0 <= i < s.len() && (#[trigger] s[i]).0 == k
}

/// The keyframes of one type by timestamp.
pub open spec fn track_map(s: Seq<(i64, Keyframe)>) -> Map<i64, Keyframe> {
    Map::new(
        |k: i64| track_has(s, k),
        |k: i64| s[choose|i: int| 0 <= i < s.len() && (#[trigger] s[i]).0 == k].1,
    )
}

pub proof fn lemma_track_at(s: Seq<(i64, Keyframe)>, i: int)
    requires
        sorted(s),
        0 <= i < s.len(),
    ensures
        track_map(s).contains_key(s[i].0),
        track_map(s)[s[i].0] == s[i].1,
{
    assert(track_has(s, s[i].0));
    let j = choose|j: int| 0 <= j < s.len() && (#[trigger] s[j]).0 == s[i].0;
    if j < i {
        assert(s[j].0 < s[i].0);
    } else if j > i {
        assert(s[i].0 < s[j].0);
    }
}

pub proof fn lemma_track_absent(s: Seq<(i64, Keyframe)>, k: i64)
    requires
        forall|i: int| 0 <= i < s.len() ==> (#[trigger] s[i]).0 != k,
    ensures
        !track_map(s).contains_key(k),
{
}

/// Every keyframe's entry in the map is the one at its place in the list.
pub proof fn lemma_track_all(s: Seq<(i64, Keyframe)>)
    requires
        sorted(s),
    ensures
        forall|i: int| 0 <= i < s.len() ==> track_map(s).contains_key(#[trigger] s[i].0) && track_map(s)[s[i].0] == s[i].1,
        forall|k: i64| track_map(s).contains_key(k) ==> track_has(s, k),
{
    assert forall|i: int| 0 <= i < s.len() implies track_map(s).contains_key(#[trigger] s[i].0) && track_map(s)[s[i].0] == s[i].1 by {
        lemma_track_at(s, i);
    }
}

/// Where `ts` goes among the keyframes: before every later one.
fn lower_bound(v: &Vec<(i64, Keyframe)>, ts: i64) -> (r: usize)
    requires
        sorted(v@),
    ensures
        r <= v@.len(),
        forall|j: int| 0 <= j < r ==> (#[trigger] v@[j]).0 < ts,
        forall|j: int| r <= j < v@.len() ==> (#[trigger] v@[j]).0 >= ts,
{
    let mut i: usize = 0;
    while i < v.len() && v[i].0 < ts
        invariant
            i <= v@.len(),
            sorted(v@),
            forall|j: int| 0 <= j < i ==> (#[trigger] v@[j]).0 < ts,
        decreases v@.len() - i,
    {
        i = i + 1;
    }
    proof {
        if i < v@.len() {
            assert forall|j: int| i <= j < v@.len() implies (#[trigger] v@[j]).0 >= ts by {
                if j > i {
                    assert(v@[i as int].0 < v@[j].0);
                }
            }
        }
    }
    i
}

/// The keyframe at `ts`, if there is one.
fn track_get(v: &Vec<(i64, Keyframe)>, ts: i64) -> (r: Option<Keyframe>)
    requires
        sorted(v@),
    ensures
        r == track_map(v@).get(ts),
{
    let p = lower_bound(v, ts);
    proof {
        lemma_track_all(v@);
    }
    if p < v.len() && v[p].0 == ts {
        Some(v[p].1)
    } else {
        proof {
            lemma_track_absent(v@, ts);
        }
        None
    }
}


proof fn lemma_update_track(s: Seq<(i64, Keyframe)>, p: int, e: (i64, Keyframe))
    requires
        sorted(s),
        0 <= p < s.len(),
        s[p].0 == e.0,
    ensures
        sorted(s.update(p, e)),
        track_map(s.update(p, e)) =~= track_map(s).insert(e.0, e.1),
{
    let t = s.update(p, e);
    assert(sorted(t)) by {
        assert forall|i: int, j: int| 0 <= i < j < t.len() implies (#[trigger] t[i]).0 < (#[trigger] t[j]).0 by {
            assert(t[i].0 == s[i].0);
            assert(t[j].0 == s[j].0);
        }
    }
    lemma_track_all(s);
    lemma_track_all(t);
    assert forall|k: i64| #[trigger] track_map(t).contains_key(k) == track_map(s).insert(e.0, e.1).contains_key(k) by {
        if track_has(s, k) {
            let i = choose|i: int| 0 <= i < s.len() && (#[trigger] s[i]).0 == k;
            assert(t[i].0 == k);
        }
        if track_has(t, k) {
            let i = choose|i: int| 0 <= i < t.len() && (#[trigger] t[i]).0 == k;
            assert(s[i].0 == k);
        }
    }
    assert forall|k: i64| #[trigger] track_map(t).contains_key(k) implies track_map(t)[k] == track_map(s).insert(e.0, e.1)[k] by {
        let i = choose|i: int| 0 <= i < t.len() && (#[trigger] t[i]).0 == k;
        if i != p {
            assert(t[i] == s[i]);
            lemma_track_at(s, i);
        }
    }
}

proof fn lemma_insert_track(s: Seq<(i64, Keyframe)>, p: int, e: (i64, Keyframe))
    requires
        sorted(s),
        0 <= p <= s.len(),
        forall|j: int| 0 <= j < p ==> (#[trigger] s[j]).0 < e.0,
        forall|j: int| p <= j < s.len() ==> (#[trigger] s[j]).0 > e.0,
    ensures
        sorted(s.insert(p, e)),
        track_map(s.insert(p, e)) =~= track_map(s).insert(e.0, e.1),
{
    let t = s.insert(p, e);
    assert(sorted(t)) by {
        assert forall|i: int, j: int| 0 <= i < j < t.len() implies (#[trigger] t[i]).0 < (#[trigger] t[j]).0 by {
            if i < p && j > p {
                assert(t[j] == s[j - 1]);
            } else if i == p {
                assert(t[j] == s[j - 1]);
            } else if i > p {
                assert(t[i] == s[i - 1]);
                assert(t[j] == s[j - 1]);
            }
        }
    }
    lemma_track_all(s);
    lemma_track_all(t);
    assert forall|k: i64| #[trigger] track_map(t).contains_key(k) == track_map(s).insert(e.0, e.1).contains_key(k) by {
        if k == e.0 {
            assert(t[p].0 == e.0);
        }
        if track_has(s, k) {
            let i = choose|i: int| 0 <= i < s.len() && (#[trigger] s[i]).0 == k;
            if i < p {
                assert(t[i].0 == k);
            } else {
                assert(t[i + 1].0 == k);
            }
        }
        if track_has(t, k) {
            let i = choose|i: int| 0 <= i < t.len() && (#[trigger] t[i]).0 == k;
            if i < p {
                assert(s[i].0 == k);
            } else if i > p {
                assert(s[i - 1].0 == k);
            }
        }
    }
    assert forall|k: i64| #[trigger] track_map(t).contains_key(k) implies track_map(t)[k] == track_map(s).insert(e.0, e.1)[k] by {
        let i = choose|i: int| 0 <= i < t.len() && (#[trigger] t[i]).0 == k;
        if i < p {
            assert(t[i] == s[i]);
            lemma_track_at(s, i);
        } else if i > p {
            assert(t[i] == s[i - 1]);
            lemma_track_at(s, i - 1);
        }
    }
}

proof fn lemma_remove_track(s: Seq<(i64, Keyframe)>, p: int)
    requires
        sorted(s),
        0 <= p < s.len(),
    ensures
        sorted(s.remove(p)),
        track_map(s.remove(p)) =~= track_map(s).remove(s[p].0),
{
    let t = s.remove(p);
    let ts = s[p].0;
    assert(sorted(t)) by {
        assert forall|i: int, j: int| 0 <= i < j < t.len() implies (#[trigger] t[i]).0 < (#[trigger] t[j]).0 by {
            if i < p && j >= p {
                assert(t[j] == s[j + 1]);
            } else if i >= p {
                assert(t[i] == s[i + 1]);
                assert(t[j] == s[j + 1]);
            }
        }
    }
    lemma_track_all(s);
    lemma_track_all(t);
    assert forall|k: i64| #[trigger] track_map(t).contains_key(k) == track_map(s).remove(ts).contains_key(k) by {
        if track_has(s, k) && k != ts {
            let i = choose|i: int| 0 <= i < s.len() && (#[trigger] s[i]).0 == k;
            if i < p {
                assert(t[i].0 == k);
            } else {
                assert(t[i - 1].0 == k);
            }
        }
        if track_has(t, k) {
            let i = choose|i: int| 0 <= i < t.len() && (#[trigger] t[i]).0 == k;
            if i < p {
                assert(s[i].0 == k);
                assert(s[i].0 < s[p].0);
            } else {
                assert(s[i + 1].0 == k);
                assert(s[p].0 < s[i + 1].0);
            }
        }
    }
    assert forall|k: i64| #[trigger] track_map(t).contains_key(k) implies track_map(t)[k] == track_map(s).remove(ts)[k] by {
        let i = choose|i: int| 0 <= i < t.len() && (#[trigger] t[i]).0 == k;
        if i < p {
            assert(t[i] == s[i]);
            lemma_track_at(s, i);
        } else {
            assert(t[i] == s[i + 1]);
            lemma_track_at(s, i + 1);
        }
    }
}

/// Sets the keyframe at `ts` to `kf`.
fn track_put(v: &mut Vec<(i64, Keyframe)>, ts: i64, kf: Keyframe)
    requires
        sorted(old(v)@),
    ensures
        sorted(final(v)@),
        track_map(final(v)@) == track_map(old(v)@).insert(ts, kf),
{
    let p = lower_bound(v, ts);
    let ghost s = v@;
    if p < v.len() && v[p].0 == ts {
        proof {
            lemma_update_track(s, p as int, (ts, kf));
        }
        v.set(p, (ts, kf));
    } else {
        proof {
            lemma_insert_track(s, p as int, (ts, kf));
        }
        v.insert(p, (ts, kf));
    }
}

/// Removes the keyframe at `ts`, if there is one.
fn track_remove(v: &mut Vec<(i64, Keyframe)>, ts: i64)
    requires
        sorted(old(v)@),
    ensures
        sorted(final(v)@),
        track_map(final(v)@) == track_map(old(v)@).remove(ts),
{
    let p = lower_bound(v, ts);
    let ghost s = v@;
    if p < v.len() && v[p].0 == ts {
        proof {
            lemma_remove_track(s, p as int);
        }
        v.remove(p);
    } else {
        proof {
            lemma_track_absent(s, ts);
            assert(track_map(s) =~= track_map(s).remove(ts));
        }
    }
}

/// `n` is the first keyframe after `ts`.
pub open spec fn is_next(m: Map<i64, Keyframe>, ts: i64, n: i64) -> bool {
    &&& m.contains_key(n)
    &&& n > ts
    &&& forall|k: i64| #[trigger] m.contains_key(k) && k > ts ==> n <= k
}

/// `p` is the last keyframe before `ts`.
pub open spec fn is_prev(m: Map<i64, Keyframe>, ts: i64, p: i64) -> bool {
    &&& m.contains_key(p)
    &&& p < ts
    &&& forall|k: i64| #[trigger] m.contains_key(k) && k < ts ==> k <= p
}

pub open spec fn has_after(m: Map<i64, Keyframe>, ts: i64) -> bool {
    exists|k: i64| #[trigger] m.contains_key(k) && k > ts
}

pub open spec fn has_before(m: Map<i64, Keyframe>, ts: i64) -> bool {
    exists|k: i64| #[trigger] m.contains_key(k) && k < ts
}

/// The first keyframe after `ts`.
fn track_next(v: &Vec<(i64, Keyframe)>, ts: i64) -> (r: Option<(i64, Keyframe)>)
    requires
        sorted(v@),
    ensures
        r matches Some(e) ==> is_next(track_map(v@), ts, e.0) && track_map(v@)[e.0] == e.1,
        r is None ==> !has_after(track_map(v@), ts),
{
    let mut i: usize = 0;
    while i < v.len() && v[i].0 <= ts
        invariant
            i <= v@.len(),
            sorted(v@),
            forall|j: int| 0 <= j < i ==> (#[trigger] v@[j]).0 <= ts,
        decreases v@.len() - i,
    {
        i = i + 1;
    }
    proof {
        lemma_track_all(v@);
    }
    if i < v.len() {
        proof {
            assert forall|k: i64| #[trigger] track_map(v@).contains_key(k) && k > ts implies v@[i as int].0 <= k by {
                let j = choose|j: int| 0 <= j < v@.len() && (#[trigger] v@[j]).0 == k;
                if j > i {
                    assert(v@[i as int].0 < v@[j].0);
                }
            }
        }
        Some(v[i])
    } else {
        proof {
            assert forall|k: i64| #[trigger] track_map(v@).contains_key(k) implies k <= ts by {
                let j = choose|j: int| 0 <= j < v@.len() && (#[trigger] v@[j]).0 == k;
            }
        }
        None
    }
}

/// The last keyframe before `ts`.
fn track_prev(v: &Vec<(i64, Keyframe)>, ts: i64) -> (r: Option<(i64, Keyframe)>)
    requires
        sorted(v@),
    ensures
        r matches Some(e) ==> is_prev(track_map(v@), ts, e.0) && track_map(v@)[e.0] == e.1,
        r is None ==> !has_before(track_map(v@), ts),
{
    let p = lower_bound(v, ts);
    proof {
        lemma_track_all(v@);
    }
    if p > 0 {
        proof {
            assert forall|k: i64| #[trigger] track_map(v@).contains_key(k) && k < ts implies k <= v@[p - 1].0 by {
                let j = choose|j: int| 0 <= j < v@.len() && (#[trigger] v@[j]).0 == k;
                if j < p - 1 {
                    assert(v@[j].0 < v@[p - 1].0);
                }
            }
        }
        Some(v[p - 1])
    } else {
        proof {
            assert forall|k: i64| #[trigger] track_map(v@).contains_key(k) implies k >= ts by {
                let j = choose|j: int| 0 <= j < v@.len() && (#[trigger] v@[j]).0 == k;
            }
        }
        None
    }
}

/// The stretch of keyframes a timestamp falls in: on a keyframe, or between two
/// neighbouring ones.
#[derive(Clone, Copy, Debug, PartialEq, Eq, Structural)]
pub enum KeyframeSpan {
    At(Keyframe),
    Between { before_ts: i64, before: Keyframe, after_ts: i64, after: Keyframe },
}

pub open spec fn is_first(m: Map<i64, Keyframe>, k: i64) -> bool {
    m.contains_key(k) && forall|j: i64| #[trigger] m.contains_key(j) ==> k <= j
}

pub open spec fn is_last(m: Map<i64, Keyframe>, k: i64) -> bool {
    m.contains_key(k) && forall|j: i64| #[trigger] m.contains_key(j) ==> j <= k
}

/// `ts` held to the range `lo..=hi`.
pub open spec fn clamp(ts: i64, lo: i64, hi: i64) -> i64 {
    if ts > hi {
        if hi < lo { lo } else { hi }
    } else if ts < lo {
        lo
    } else {
        ts
    }
}

/// What `value_span` gives for a type's keyframes: nothing without keyframes; else
/// the timestamp is held to the range of the keyframes, and the result is the
/// keyframe there, or the two neighbouring keyframes around it.
pub open spec fn span_of(m: Map<i64, Keyframe>, ts: i64, r: Option<KeyframeSpan>) -> bool {
    match r {
        None => forall|k: i64| !m.contains_key(k),
        Some(KeyframeSpan::At(kf)) => exists|lo: i64, hi: i64| {
            &&& #[trigger] is_first(m, lo)
            &&& #[trigger] is_last(m, hi)
            &&& m.contains_key(clamp(ts, lo, hi))
            &&& m[clamp(ts, lo, hi)] == kf
        },
        Some(KeyframeSpan::Between { before_ts, before, after_ts, after }) => exists|lo: i64, hi: i64| {
            &&& #[trigger] is_first(m, lo)
            &&& #[trigger] is_last(m, hi)
            &&& before_ts < clamp(ts, lo, hi) < after_ts
            &&& m.contains_key(before_ts) && m[before_ts] == before
            &&& m.contains_key(after_ts) && m[after_ts] == after
            &&& forall|k: i64| #[trigger] m.contains_key(k) ==> !(before_ts < k < after_ts)
        },
    }
}

fn track_span(v: &Vec<(i64, Keyframe)>, ts: i64) -> (r: Option<KeyframeSpan>)
    requires
        sorted(v@),
    ensures
        span_of(track_map(v@), ts, r),
{
    proof {
        lemma_track_all(v@);
    }
    let n = v.len();
    if n == 0 {
        return None;
    }
    let first = v[0].0;
    let last = v[n - 1].0;
    proof {
        assert forall|j: i64| #[trigger] track_map(v@).contains_key(j) implies first <= j && j <= last by {
            let i = choose|i: int| 0 <= i < v@.len() && (#[trigger] v@[i]).0 == j;
            if i > 0 {
                assert(v@[0].0 < v@[i].0);
            }
            if i < n - 1 {
                assert(v@[i].0 < v@[n - 1].0);
            }
        }
        assert(is_first(track_map(v@), first));
        assert(is_last(track_map(v@), last));
        if n > 1 {
            assert(first < last);
        }
    }
    let lookup = if ts > last { last } else if ts < first { first } else { ts };
    let ghost m = track_map(v@);
    assert(lookup == clamp(ts, first, last));
    let p = lower_bound(v, lookup);
    assert(v@[n - 1].0 >= lookup);
    if v[p].0 == lookup {
        let r = Some(KeyframeSpan::At(v[p].1));
        assert(span_of(m, ts, r));
        r
    } else {
        assert(p > 0) by {
            if p == 0 {
                assert(v@[0].0 >= lookup);
            }
        }
        let a = v[p - 1];
        let b = v[p];
        proof {
            assert forall|k: i64| #[trigger] m.contains_key(k) implies !(a.0 < k < b.0) by {
                let i = choose|i: int| 0 <= i < v@.len() && (#[trigger] v@[i]).0 == k;
                if i < p - 1 {
                    assert(v@[i].0 < v@[p - 1].0);
                } else if i > p {
                    assert(v@[p as int].0 < v@[i].0);
                }
            }
        }
        let r = Some(KeyframeSpan::Between { before_ts: a.0, before: a.1, after_ts: b.0, after: b.1 });
        assert(span_of(m, ts, r));
        r
    }
}

/// The keyframes of every type, by type and timestamp.
pub open spec fn slots_view(s: Seq<Option<Vec<(i64, Keyframe)>>>) -> Map<KeyframeType, Map<i64, Keyframe>> {
    Map::new(
        |t: KeyframeType| s[ordinal(t)] is Some,
        |t: KeyframeType| track_map(s[ordinal(t)]->0@),
    )
}

proof fn lemma_slots_update(s: Seq<Option<Vec<(i64, Keyframe)>>>, i: int, x: Option<Vec<(i64, Keyframe)>>)
    requires
        s.len() == KEYFRAME_TYPE_COUNT,
        0 <= i < KEYFRAME_TYPE_COUNT,
    ensures
        slots_view(s.update(i, x)) =~= match x {
            Some(v) => slots_view(s).insert(type_at(i), track_map(v@)),
            None => slots_view(s).remove(type_at(i)),
        },
{
    lemma_type_at(i);
    assert forall|t: KeyframeType| (ordinal(t) == i) == (t == type_at(i)) by {
        lemma_ordinal(t);
    }
}


pub open spec fn slot_ok(x: Option<Vec<(i64, Keyframe)>>) -> bool {
    match x {
        Some(v) => sorted(v@),
        None => true,
    }
}

/// The keyframes of a type after `set(typ, ts, value)`, from those before (if the
/// type had any): the value at `ts` is `value`; a keyframe that was there keeps its
/// easing, a new one eases in and out.
pub open spec fn spec_set_track(m: Option<Map<i64, Keyframe>>, ts: i64, value: u64) -> Map<i64, Keyframe> {
    match m {
        Some(m) => m.insert(
            ts,
            if m.contains_key(ts) {
                Keyframe { value, easing: m[ts].easing }
            } else {
                Keyframe { value, easing: Easing::EaseInOut }
            },
        ),
        None => Map::empty().insert(ts, Keyframe { value, easing: Easing::EaseInOut }),
    }
}

/// The keyframes of every type after `set(typ, ts, value)`.
pub open spec fn spec_set(
    m: Map<KeyframeType, Map<i64, Keyframe>>,
    typ: KeyframeType,
    ts: i64,
    value: u64,
) -> Map<KeyframeType, Map<i64, Keyframe>> {
    m.insert(typ, spec_set_track(m.get(typ), ts, value))
}

/// The keyframes of every type after `set_easing(typ, ts, easing)`: only a keyframe
/// that exists changes.
pub open spec fn spec_set_easing(
    m: Map<KeyframeType, Map<i64, Keyframe>>,
    typ: KeyframeType,
    ts: i64,
    easing: Easing,
) -> Map<KeyframeType, Map<i64, Keyframe>> {
    if m.contains_key(typ) && m[typ].contains_key(ts) {
        m.insert(typ, m[typ].insert(ts, Keyframe { value: m[typ][ts].value, easing }))
    } else {
        m
    }
}

/// The keyframes of every type after `remove(typ, ts)`: the type stays, without
/// a keyframe at `ts`.
pub open spec fn spec_remove(
    m: Map<KeyframeType, Map<i64, Keyframe>>,
    typ: KeyframeType,
    ts: i64,
) -> Map<KeyframeType, Map<i64, Keyframe>> {
    if m.contains_key(typ) {
        m.insert(typ, m[typ].remove(ts))
    } else {
        m
    }
}

/// The easing of the keyframe at `ts`, if there is one.
pub open spec fn spec_easing(m: Map<KeyframeType, Map<i64, Keyframe>>, typ: KeyframeType, ts: i64) -> Option<Easing> {
    if m.contains_key(typ) && m[typ].contains_key(ts) {
        Some(m[typ][ts].easing)
    } else {
        None
    }
}

/// Whether a type has any keyframe.
pub open spec fn spec_keyframed(m: Map<KeyframeType, Map<i64, Keyframe>>, typ: KeyframeType) -> bool {
    m.contains_key(typ) && exists|k: i64| #[trigger] m[typ].contains_key(k)
}

/// `(t, n, kf)` is the keyframe nearest after `ts` over all types; of types whose
/// nearest is equally near, the first in the order of the enum.
pub open spec fn is_next_of_all(m: Map<KeyframeType, Map<i64, Keyframe>>, ts: i64, t: KeyframeType, n: i64, kf: Keyframe) -> bool {
    &&& m.contains_key(t)
    &&& is_next(m[t], ts, n)
    &&& m[t][n] == kf
    &&& forall|u: KeyframeType, k: i64| #[trigger] m.contains_key(u) && #[trigger] m[u].contains_key(k) && k > ts ==> n <= k && (k == n ==> ordinal(t) <= ordinal(u))
}

/// `(t, p, kf)` is the keyframe nearest before `ts` over all types; of types whose
/// nearest is equally near, the first in the order of the enum.
pub open spec fn is_prev_of_all(m: Map<KeyframeType, Map<i64, Keyframe>>, ts: i64, t: KeyframeType, p: i64, kf: Keyframe) -> bool {
    &&& m.contains_key(t)
    &&& is_prev(m[t], ts, p)
    &&& m[t][p] == kf
    &&& forall|u: KeyframeType, k: i64| #[trigger] m.contains_key(u) && #[trigger] m[u].contains_key(k) && k < ts ==> k <= p && (k == p ==> ordinal(t) <= ordinal(u))
}

/// The keyframes of a project: per keyframe type, the keyframes by timestamp (in
/// microseconds), and the scale of the timeline.
///
/// The keyframes of a type are kept as a list sorted by timestamp, one list per type
/// in the order of the enum. The lookups of the nearest keyframe before and after a
/// timestamp walk a range of timestamps in order (`BTreeMap::range`), for which vstd's
/// specification of `BTreeMap` gives no contract; on the sorted list they are a
/// search whose result is proved. The types are ordered by their place in the enum,
/// which needs no `Ord` that `derive` wrote.
pub struct KeyframeManager {
    slots: Vec<Option<Vec<(i64, Keyframe)>>>,
    timestamp_scale: Option<u64>,
}

impl View for KeyframeManager {
    type V = Map<KeyframeType, Map<i64, Keyframe>>;

    closed spec fn view(&self) -> Map<KeyframeType, Map<i64, Keyframe>> {
        slots_view(self.slots@)
    }
}

fn empty_slots() -> (r: Vec<Option<Vec<(i64, Keyframe)>>>)
    ensures
        r@.len() == KEYFRAME_TYPE_COUNT,
        forall|i: int| 0 <= i < r@.len() ==> (#[trigger] r@[i]) is None,
        slots_view(r@) == Map::<KeyframeType, Map<i64, Keyframe>>::empty(),
{
    let mut r: Vec<Option<Vec<(i64, Keyframe)>>> = Vec::new();
    let mut i: usize = 0;
    while i < KEYFRAME_TYPE_COUNT
        invariant
            i <= KEYFRAME_TYPE_COUNT,
            r@.len() == i,
            forall|j: int| 0 <= j < r@.len() ==> (#[trigger] r@[j]) is None,
        decreases KEYFRAME_TYPE_COUNT - i,
    {
        r.push(None);
        i = i + 1;
    }
    proof {
        assert forall|t: KeyframeType| !slots_view(r@).contains_key(t) by {
            lemma_ordinal(t);
        }
        assert(slots_view(r@) =~= Map::<KeyframeType, Map<i64, Keyframe>>::empty());
    }
    r
}

/// A copy of a list of keyframes.
fn copy_track(v: &Vec<(i64, Keyframe)>) -> (r: Vec<(i64, Keyframe)>)
    ensures
        r@ == v@,
{
    let mut r: Vec<(i64, Keyframe)> = Vec::new();
    let mut i: usize = 0;
    while i < v.len()
        invariant
            i <= v@.len(),
            r@ == v@.take(i as int),
        decreases v@.len() - i,
    {
        r.push(v[i]);
        i = i + 1;
        assert(r@ =~= v@.take(i as int));
    }
    assert(v@.take(v@.len() as int) =~= v@);
    r
}

proof fn lemma_empty_track()
    ensures
        track_map(Seq::<(i64, Keyframe)>::empty()) == Map::<i64, Keyframe>::empty(),
{
    assert(track_map(Seq::<(i64, Keyframe)>::empty()) =~= Map::<i64, Keyframe>::empty());
}

impl KeyframeManager {
    #[verifier::type_invariant]
    spec fn wf(self) -> bool {
        &&& self.slots@.len() == KEYFRAME_TYPE_COUNT
        &&& forall|i: int| 0 <= i < self.slots@.len() ==> slot_ok(#[trigger] self.slots@[i])
    }

    /// The scale of the timeline, as the bit pattern of its binary64 value.
    pub closed spec fn spec_timestamp_scale(&self) -> Option<u64> {
        self.timestamp_scale
    }

    /// No keyframes, and no timeline scale.
    pub fn new() -> (r: Self)
        ensures
            r@ == Map::<KeyframeType, Map<i64, Keyframe>>::empty(),
            r.spec_timestamp_scale() is None,
    {
        KeyframeManager { slots: empty_slots(), timestamp_scale: None }
    }

    /// What slot `i` of the manager holds, as a map.
    proof fn lemma_slot(&self, t: KeyframeType)
        requires
            self.wf(),
        ensures
            0 <= ordinal(t) < KEYFRAME_TYPE_COUNT,
            self@.contains_key(t) == (self.slots@[ordinal(t)] is Some),
            self@.contains_key(t) ==> self@[t] == track_map(self.slots@[ordinal(t)]->0@)
                && sorted(self.slots@[ordinal(t)]->0@),
            slot_ok(self.slots@[ordinal(t)]),
    {
        lemma_ordinal(t);
    }

    /// Puts `x` in the slot of `typ`.
    fn put_slot(&mut self, typ: &KeyframeType, x: Option<Vec<(i64, Keyframe)>>)
        requires
            slot_ok(x),
        ensures
            final(self).spec_timestamp_scale() == old(self).spec_timestamp_scale(),
            final(self)@ == match x {
                Some(v) => old(self)@.insert(*typ, track_map(v@)),
                None => old(self)@.remove(*typ),
            },
    {
        proof {
            use_type_invariant(&*self);
        }
        let i = typ.index();
        let ghost old_slots = self.slots@;
        let mut slots = empty_slots();
        std::mem::swap(&mut slots, &mut self.slots);
        slots.set(i, x);
        proof {
            lemma_ordinal(*typ);
            lemma_slots_update(old_slots, i as int, x);
            assert(slots@ == old_slots.update(i as int, x));
            assert forall|j: int| 0 <= j < slots@.len() implies slot_ok(#[trigger] slots@[j]) by {
                if j != i {
                    assert(slots@[j] == old_slots[j]);
                }
            }
        }
        std::mem::swap(&mut slots, &mut self.slots);
    }

    /// The keyframes of `typ`, ordered by timestamp.
    fn slot(&self, typ: &KeyframeType) -> (r: Option<&Vec<(i64, Keyframe)>>)
        ensures
            r matches Some(v) ==> self@.contains_key(*typ) && sorted(v@) && track_map(v@) == self@[*typ],
            r is None ==> !self@.contains_key(*typ),
    {
        proof {
            use_type_invariant(self);
            self.lemma_slot(*typ);
        }
        let i = typ.index();
        match &self.slots[i] {
            Some(v) => Some(v),
            None => None,
        }
    }

    /// Sets the value of the keyframe of `typ` at `timestamp_us`, making it if
    /// there is none.
    pub fn set(&mut self, typ: &KeyframeType, timestamp_us: i64, value: u64)
        ensures
            final(self)@ == spec_set(old(self)@, *typ, timestamp_us, value),
            final(self).spec_timestamp_scale() == old(self).spec_timestamp_scale(),
    {
        let mut v: Vec<(i64, Keyframe)> = match self.slot(typ) {
            Some(v) => copy_track(v),
            None => Vec::new(),
        };
        proof {
            lemma_empty_track();
        }
        let kf = match track_get(&v, timestamp_us) {
            Some(k) => Keyframe { value, easing: k.easing },
            None => Keyframe { value, easing: Easing::EaseInOut },
        };
        track_put(&mut v, timestamp_us, kf);
        self.put_slot(typ, Some(v));
    }

    /// Sets the easing of the keyframe of `typ` at `timestamp_us`, if there is one.
    pub fn set_easing(&mut self, typ: &KeyframeType, timestamp_us: i64, easing: Easing)
        ensures
            final(self)@ == spec_set_easing(old(self)@, *typ, timestamp_us, easing),
            final(self).spec_timestamp_scale() == old(self).spec_timestamp_scale(),
    {
        let mut v: Vec<(i64, Keyframe)> = match self.slot(typ) {
            Some(v) => copy_track(v),
            None => {
                return;
            },
        };
        match track_get(&v, timestamp_us) {
            Some(k) => {
                track_put(&mut v, timestamp_us, Keyframe { value: k.value, easing });
                self.put_slot(typ, Some(v));
            },
            None => {},
        }
    }

    /// The easing of the keyframe of `typ` at `timestamp_us`, if there is one.
    pub fn easing(&self, typ: &KeyframeType, timestamp_us: i64) -> (r: Option<Easing>)
        ensures
            r == spec_easing(self@, *typ, timestamp_us),
    {
        match self.slot(typ) {
            Some(v) => match track_get(v, timestamp_us) {
                Some(k) => Some(k.easing),
                None => None,
            },
            None => None,
        }
    }

    /// Removes the keyframe of `typ` at `timestamp_us`, if there is one.
    pub fn remove(&mut self, typ: &KeyframeType, timestamp_us: i64)
        ensures
            final(self)@ == spec_remove(old(self)@, *typ, timestamp_us),
            final(self).spec_timestamp_scale() == old(self).spec_timestamp_scale(),
    {
        let mut v: Vec<(i64, Keyframe)> = match self.slot(typ) {
            Some(v) => copy_track(v),
            None => {
                return;
            },
        };
        track_remove(&mut v, timestamp_us);
        self.put_slot(typ, Some(v));
    }

    /// Whether `typ` has any keyframe (of its own, whatever else supplies values).
    pub fn is_keyframed_internally(&self, typ: &KeyframeType) -> (r: bool)
        ensures
            r == spec_keyframed(self@, *typ),
    {
        match self.slot(typ) {
            Some(v) => {
                proof {
                    lemma_track_all(v@);
                    if v@.len() > 0 {
                        assert(self@[*typ].contains_key(v@[0].0));
                    }
                }
                v.len() > 0
            },
            None => false,
        }
    }

    /// The keyframes of `typ`, ordered by timestamp; `None` where the type has never
    /// had one (or was cleared).
    pub fn get_keyframes(&self, typ: &KeyframeType) -> (r: Option<&Vec<(i64, Keyframe)>>)
        ensures
            r matches Some(v) ==> self@.contains_key(*typ) && sorted(v@) && track_map(v@) == self@[*typ],
            r is None ==> !self@.contains_key(*typ),
    {
        self.slot(typ)
    }

    /// The types that have keyframes, in the order of the enum.
    pub fn get_all_keys(&self) -> (r: Vec<KeyframeType>)
        ensures
            forall|i: int, j: int| 0 <= i < j < r@.len() ==> ordinal(#[trigger] r@[i]) < ordinal(#[trigger] r@[j]),
            forall|t: KeyframeType| r@.contains(t) <==> spec_keyframed(self@, t),
    {
        let mut r: Vec<KeyframeType> = Vec::new();
        let mut i: usize = 0;
        while i < KEYFRAME_TYPE_COUNT
            invariant
                i <= KEYFRAME_TYPE_COUNT,
                forall|a: int, b: int| 0 <= a < b < r@.len() ==> ordinal(#[trigger] r@[a]) < ordinal(#[trigger] r@[b]),
                forall|a: int| 0 <= a < r@.len() ==> ordinal(#[trigger] r@[a]) < i,
                forall|t: KeyframeType| ordinal(t) < i ==> (r@.contains(t) <==> spec_keyframed(self@, t)),
            decreases KEYFRAME_TYPE_COUNT - i,
        {
            let t = KeyframeType::from_index(i);
            proof {
                lemma_type_at(i as int);
            }
            let ghost before = r@;
            if self.is_keyframed_internally(&t) {
                r.push(t);
                proof {
                    assert forall|u: KeyframeType| ordinal(u) < i + 1 implies (r@.contains(u) <==> spec_keyframed(self@, u)) by {
                        lemma_ordinal(u);
                        if u == t {
                            assert(r@[r@.len() - 1] == t);
                        } else {
                            assert(ordinal(u) < i);
                            if r@.contains(u) {
                                let k = choose|k: int| 0 <= k < r@.len() && r@[k] == u;
                                assert(before[k] == u);
                            }
                            if before.contains(u) {
                                let k = choose|k: int| 0 <= k < before.len() && before[k] == u;
                                assert(r@[k] == u);
                            }
                        }
                    }
                }
            } else {
                proof {
                    assert forall|u: KeyframeType| ordinal(u) < i + 1 implies (r@.contains(u) <==> spec_keyframed(self@, u)) by {
                        lemma_ordinal(u);
                        if u == t {
                            if r@.contains(u) {
                                let k = choose|k: int| 0 <= k < r@.len() && r@[k] == u;
                                assert(ordinal(r@[k]) < i);
                            }
                        }
                    }
                }
            }
            i = i + 1;
        }
        proof {
            assert forall|t: KeyframeType| r@.contains(t) <==> spec_keyframed(self@, t) by {
                lemma_ordinal(t);
            }
        }
        r
    }

    /// Removes every keyframe and the timeline scale.
    pub fn clear(&mut self)
        ensures
            final(self)@ == Map::<KeyframeType, Map<i64, Keyframe>>::empty(),
            final(self).spec_timestamp_scale() is None,
    {
        *self = KeyframeManager::new();
    }

    /// Removes the keyframes of `key`.
    pub fn clear_type(&mut self, key: &KeyframeType)
        ensures
            final(self)@ == old(self)@.remove(*key),
            final(self).spec_timestamp_scale() == old(self).spec_timestamp_scale(),
    {
        self.put_slot(key, None);
    }

    /// The scale of the timeline, if one is set, as the bit pattern of its binary64
    /// value (`f64::to_bits`), so that any scale the engine sets, such as 1.001, comes
    /// back exactly as it was set.
    pub fn timestamp_scale(&self) -> (r: Option<u64>)
        ensures
            r == self.spec_timestamp_scale(),
    {
        self.timestamp_scale
    }

    /// Sets the scale of the timeline, given as the bit pattern of its binary64 value
    /// (`f64::to_bits`).
    pub fn set_timestamp_scale(&mut self, scale: Option<u64>)
        ensures
            final(self)@ == old(self)@,
            final(self).spec_timestamp_scale() == scale,
    {
        proof {
            use_type_invariant(&*self);
        }
        self.timestamp_scale = scale;
    }

    /// The first keyframe of `t` after `ts`.
    fn next_of_type(&self, ts: i64, t: &KeyframeType) -> (r: Option<(i64, Keyframe)>)
        ensures
            r matches Some(e) ==> self@.contains_key(*t) && is_next(self@[*t], ts, e.0) && self@[*t][e.0] == e.1,
            r is None ==> !(self@.contains_key(*t) && has_after(self@[*t], ts)),
    {
        match self.slot(t) {
            Some(v) => track_next(v, ts),
            None => None,
        }
    }

    /// The last keyframe of `t` before `ts`.
    fn prev_of_type(&self, ts: i64, t: &KeyframeType) -> (r: Option<(i64, Keyframe)>)
        ensures
            r matches Some(e) ==> self@.contains_key(*t) && is_prev(self@[*t], ts, e.0) && self@[*t][e.0] == e.1,
            r is None ==> !(self@.contains_key(*t) && has_before(self@[*t], ts)),
    {
        match self.slot(t) {
            Some(v) => track_prev(v, ts),
            None => None,
        }
    }

    /// The next keyframe after `ts`: of `typ`, or, where `typ` is `None`, the
    /// nearest of every type (the first type in the order of the enum where two
    /// are equally near).
    pub fn next_keyframe(&self, ts: i64, typ: Option<KeyframeType>) -> (r: Option<(KeyframeType, i64, Keyframe)>)
        ensures
            match typ {
                Some(t) => match r {
                    Some((rt, n, kf)) => rt == t && self@.contains_key(t) && is_next(self@[t], ts, n) && self@[t][n] == kf,
                    None => !(self@.contains_key(t) && has_after(self@[t], ts)),
                },
                None => match r {
                    Some((rt, n, kf)) => is_next_of_all(self@, ts, rt, n, kf),
                    None => forall|u: KeyframeType| #[trigger] self@.contains_key(u) ==> !has_after(self@[u], ts),
                },
            },
    {
        match typ {
            Some(t) => match self.next_of_type(ts, &t) {
                Some((n, kf)) => Some((t, n, kf)),
                None => None,
            },
            None => {
                let mut best: Option<(KeyframeType, i64, Keyframe)> = None;
                let mut i: usize = 0;
                while i < KEYFRAME_TYPE_COUNT
                    invariant
                        i <= KEYFRAME_TYPE_COUNT,
                        best matches Some((bt, bn, bkf)) ==> {
                            &&& ordinal(bt) < i
                            &&& self@.contains_key(bt)
                            &&& is_next(self@[bt], ts, bn)
                            &&& self@[bt][bn] == bkf
                            &&& forall|u: KeyframeType, k: i64| ordinal(u) < i && #[trigger] self@.contains_key(u) && #[trigger] self@[u].contains_key(k) && k > ts
                                ==> bn <= k && (k == bn ==> ordinal(bt) <= ordinal(u))
                        },
                        best is None ==> forall|u: KeyframeType| ordinal(u) < i && #[trigger] self@.contains_key(u) ==> !has_after(self@[u], ts),
                    decreases KEYFRAME_TYPE_COUNT - i,
                {
                    let t = KeyframeType::from_index(i);
                    proof {
                        lemma_type_at(i as int);
                    }
                    match self.next_of_type(ts, &t) {
                        Some((n, kf)) => {
                            let better = match best {
                                Some((_, bn, _)) => n < bn,
                                None => true,
                            };
                            if better {
                                best = Some((t, n, kf));
                            }
                        },
                        None => {},
                    }
                    i = i + 1;
                }
                proof {
                    assert forall|u: KeyframeType| ordinal(u) < KEYFRAME_TYPE_COUNT by {
                        lemma_ordinal(u);
                    }
                }
                best
            },
        }
    }

    /// The previous keyframe before `ts`: of `typ`, or, where `typ` is `None`, the
    /// nearest of every type (the first type in the order of the enum where two
    /// are equally near).
    pub fn prev_keyframe(&self, ts: i64, typ: Option<KeyframeType>) -> (r: Option<(KeyframeType, i64, Keyframe)>)
        ensures
            match typ {
                Some(t) => match r {
                    Some((rt, p, kf)) => rt == t && self@.contains_key(t) && is_prev(self@[t], ts, p) && self@[t][p] == kf,
                    None => !(self@.contains_key(t) && has_before(self@[t], ts)),
                },
                None => match r {
                    Some((rt, p, kf)) => is_prev_of_all(self@, ts, rt, p, kf),
                    None => forall|u: KeyframeType| #[trigger] self@.contains_key(u) ==> !has_before(self@[u], ts),
                },
            },
    {
        match typ {
            Some(t) => match self.prev_of_type(ts, &t) {
                Some((p, kf)) => Some((t, p, kf)),
                None => None,
            },
            None => {
                let mut best: Option<(KeyframeType, i64, Keyframe)> = None;
                let mut i: usize = 0;
                while i < KEYFRAME_TYPE_COUNT
                    invariant
                        i <= KEYFRAME_TYPE_COUNT,
                        best matches Some((bt, bp, bkf)) ==> {
                            &&& ordinal(bt) < i
                            &&& self@.contains_key(bt)
                            &&& is_prev(self@[bt], ts, bp)
                            &&& self@[bt][bp] == bkf
                            &&& forall|u: KeyframeType, k: i64| ordinal(u) < i && #[trigger] self@.contains_key(u) && #[trigger] self@[u].contains_key(k) && k < ts
                                ==> k <= bp && (k == bp ==> ordinal(bt) <= ordinal(u))
                        },
                        best is None ==> forall|u: KeyframeType| ordinal(u) < i && #[trigger] self@.contains_key(u) ==> !has_before(self@[u], ts),
                    decreases KEYFRAME_TYPE_COUNT - i,
                {
                    let t = KeyframeType::from_index(i);
                    proof {
                        lemma_type_at(i as int);
                    }
                    match self.prev_of_type(ts, &t) {
                        Some((p, kf)) => {
                            let better = match best {
                                Some((_, bp, _)) => p > bp,
                                None => true,
                            };
                            if better {
                                best = Some((t, p, kf));
                            }
                        },
                        None => {},
                    }
                    i = i + 1;
                }
                proof {
                    assert forall|u: KeyframeType| ordinal(u) < KEYFRAME_TYPE_COUNT by {
                        lemma_ordinal(u);
                    }
                }
                best
            },
        }
    }

    /// Where `ts` falls among the keyframes of `typ` (see `span_of`); `None`
    /// where the type has none.
    pub fn value_span(&self, typ: &KeyframeType, ts: i64) -> (r: Option<KeyframeSpan>)
        ensures
            !self@.contains_key(*typ) ==> r is None,
            self@.contains_key(*typ) ==> span_of(self@[*typ], ts, r),
    {
        match self.slot(typ) {
            Some(v) => track_span(v, ts),
            None => None,
        }
    }
}


/// A value set at a timestamp is what the keyframe there holds afterwards; the
/// other keyframes of the type, and every other type, stay as they were.
pub proof fn law_set_then_read(m: Map<KeyframeType, Map<i64, Keyframe>>, typ: KeyframeType, ts: i64, value: u64, other_ts: i64, other_typ: KeyframeType)
    requires
        other_ts != ts,
        other_typ != typ,
    ensures
        spec_set(m, typ, ts, value).contains_key(typ),
        spec_set(m, typ, ts, value)[typ].contains_key(ts),
        spec_set(m, typ, ts, value)[typ][ts].value == value,
        m.contains_key(typ) ==> spec_set(m, typ, ts, value)[typ].get(other_ts) == m[typ].get(other_ts),
        spec_set(m, typ, ts, value).get(other_typ) == m.get(other_typ),
{
}

/// Setting the value of an existing keyframe keeps its easing; a new keyframe
/// eases in and out.
pub proof fn law_set_keeps_easing(m: Map<KeyframeType, Map<i64, Keyframe>>, typ: KeyframeType, ts: i64, value: u64)
    ensures
        spec_easing(spec_set(m, typ, ts, value), typ, ts) == match spec_easing(m, typ, ts) {
            Some(e) => Some(e),
            None => Some(Easing::EaseInOut),
        },
{
}

/// Setting the easing of a keyframe keeps its value, and reads back.
pub proof fn law_set_easing_then_read(m: Map<KeyframeType, Map<i64, Keyframe>>, typ: KeyframeType, ts: i64, easing: Easing)
    requires
        m.contains_key(typ),
        m[typ].contains_key(ts),
    ensures
        spec_easing(spec_set_easing(m, typ, ts, easing), typ, ts) == Some(easing),
        spec_set_easing(m, typ, ts, easing)[typ][ts].value == m[typ][ts].value,
{
}

/// Removing the keyframe just set at a timestamp where the type had none gives the
/// keyframes of the type back as they were.
pub proof fn law_remove_undoes_set(m: Map<KeyframeType, Map<i64, Keyframe>>, typ: KeyframeType, ts: i64, value: u64)
    requires
        m.contains_key(typ),
        !m[typ].contains_key(ts),
    ensures
        spec_remove(spec_set(m, typ, ts, value), typ, ts) == m,
{
    assert(spec_set(m, typ, ts, value)[typ].remove(ts) =~= m[typ]);
    assert(spec_remove(spec_set(m, typ, ts, value), typ, ts) =~= m);
}

/// After a keyframe is removed, the type has no keyframe at that timestamp, and
/// no easing is read there.
pub proof fn law_removed_is_gone(m: Map<KeyframeType, Map<i64, Keyframe>>, typ: KeyframeType, ts: i64)
    ensures
        !(spec_remove(m, typ, ts).contains_key(typ) && spec_remove(m, typ, ts)[typ].contains_key(ts)),
        spec_easing(spec_remove(m, typ, ts), typ, ts) is None,
{
}

/// The easing between two keyframes is `EaseOut` or `EaseInOut` exactly where the
/// second keyframe eases in, and `EaseIn` or `EaseInOut` exactly where the first
/// eases out.
pub proof fn law_easing_between(a: Easing, b: Easing)
    ensures
        (Easing::spec_get(a, b) == Easing::EaseOut || Easing::spec_get(a, b) == Easing::EaseInOut)
            <==> (b == Easing::EaseIn || b == Easing::EaseInOut),
        (Easing::spec_get(a, b) == Easing::EaseIn || Easing::spec_get(a, b) == Easing::EaseInOut)
            <==> (a == Easing::EaseOut || a == Easing::EaseInOut),
{
}

} // verus!
