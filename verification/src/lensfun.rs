//! Parsing of the lensfun XML database (https://github.com/lensfun/lensfun/tree/master/data/db):
//! its cameras and lenses, with the distortion calibrations of each lens.
//!
//! The document is read event by event with `quick-xml`; what the parser does with each
//! event is the state machine of `LensfunXmlReader`, stated by `step`.
use vstd::prelude::*;
use vstd::string::StringSliceAdditionalSpecFns;
use crate::decimal::{Decimal, NumberForm, decimal_of, parse_decimal};
use crate::text::{string_of, trim, trim_chars, chars_of};
use crate::xml_events::{XmlAttribute, XmlAttributeView, XmlEvent, XmlEventView, XmlError, attributes_view, same_text};
use crate::xml_readers::{next_quick_xml_event, quick_xml_reader, quick_xml_trim_text, quick_xml_full_event_at, quick_xml_stop, quick_xml_stops_at, quick_xml_events, event_budget, event_budget_of, lemma_quick_xml_stop_skips, lemma_quick_xml_events_push};

verus! {

/// Name of the directory inside the lens profiles directory that contains the lensfun XML files.
pub const LENSFUN_DIR_NAME: &'static str = "lensfun";

pub open spec fn zero() -> Decimal {
    Decimal { negative: false, digits: 0, exponent: 0, form: NumberForm::Finite }
}

/// 1.0, the crop factor a calibration set gets when neither it nor its lens gives one.
pub open spec fn one() -> Decimal {
    Decimal { negative: false, digits: 1, exponent: 0, form: NumberForm::Finite }
}

/// 1.5 (3:2), the aspect ratio a calibration set gets when neither it nor its lens gives one.
pub open spec fn three_halves() -> Decimal {
    Decimal { negative: false, digits: 15, exponent: -1i32, form: NumberForm::Finite }
}

/// A number of the database, or zero where the text is not one (`parse().unwrap_or(0.0)`).
pub open spec fn decimal_or_zero(t: Seq<char>) -> Decimal {
    match decimal_of(t) {
        Some(d) => d,
        None => zero(),
    }
}

#[derive(Debug)]
pub struct LensfunCamera {
    pub maker: String,
    pub model: String,
    pub mounts: Vec<String>,
    pub crop_factor: Decimal,
}

#[derive(Debug)]
pub struct LensfunDistortion {
    /// "ptlens", "poly3" or "poly5"
    pub model: String,
    pub focal: Decimal,
    pub real_focal: Option<Decimal>,
    /// raw hugin terms: [a, b, c] / [k1] / [k1, k2]
    pub terms: Vec<Decimal>,
}

#[derive(Debug)]
pub struct LensfunCalibSet {
    pub crop_factor: Decimal,
    pub aspect_ratio: Decimal,
    pub distortions: Vec<LensfunDistortion>,
}

#[derive(Debug)]
pub struct LensfunLens {
    pub maker: String,
    pub model: String,
    pub mounts: Vec<String>,
    pub crop_factor: Decimal,
    pub aspect_ratio: Decimal,
    pub calibrations: Vec<LensfunCalibSet>,
}

#[derive(Debug)]
pub struct LensfunDatabase {
    pub cameras: Vec<LensfunCamera>,
    pub lenses: Vec<LensfunLens>,
}

pub struct CameraView {
    pub maker: Seq<char>,
    pub model: Seq<char>,
    pub mounts: Seq<Seq<char>>,
    pub crop_factor: Decimal,
}

pub struct DistortionView {
    pub model: Seq<char>,
    pub focal: Decimal,
    pub real_focal: Option<Decimal>,
    pub terms: Seq<Decimal>,
}

pub struct CalibSetView {
    pub crop_factor: Decimal,
    pub aspect_ratio: Decimal,
    pub distortions: Seq<DistortionView>,
}

pub struct LensView {
    pub maker: Seq<char>,
    pub model: Seq<char>,
    pub mounts: Seq<Seq<char>>,
    pub crop_factor: Decimal,
    pub aspect_ratio: Decimal,
    pub calibrations: Seq<CalibSetView>,
}

pub struct DatabaseView {
    pub cameras: Seq<CameraView>,
    pub lenses: Seq<LensView>,
}

pub open spec fn strings_view(v: Seq<String>) -> Seq<Seq<char>> {
    v.map_values(|s: String| s@)
}

impl View for LensfunCamera {
    type V = CameraView;

    open spec fn view(&self) -> CameraView {
        CameraView {
            maker: self.maker@,
            model: self.model@,
            mounts: strings_view(self.mounts@),
            crop_factor: self.crop_factor,
        }
    }
}

impl View for LensfunDistortion {
    type V = DistortionView;

    open spec fn view(&self) -> DistortionView {
        DistortionView {
            model: self.model@,
            focal: self.focal,
            real_focal: self.real_focal,
            terms: self.terms@,
        }
    }
}

impl View for LensfunCalibSet {
    type V = CalibSetView;

    open spec fn view(&self) -> CalibSetView {
        CalibSetView {
            crop_factor: self.crop_factor,
            aspect_ratio: self.aspect_ratio,
            distortions: self.distortions@.map_values(|d: LensfunDistortion| d@),
        }
    }
}

impl View for LensfunLens {
    type V = LensView;

    open spec fn view(&self) -> LensView {
        LensView {
            maker: self.maker@,
            model: self.model@,
            mounts: strings_view(self.mounts@),
            crop_factor: self.crop_factor,
            aspect_ratio: self.aspect_ratio,
            calibrations: self.calibrations@.map_values(|c: LensfunCalibSet| c@),
        }
    }
}

impl View for LensfunDatabase {
    type V = DatabaseView;

    open spec fn view(&self) -> DatabaseView {
        DatabaseView {
            cameras: self.cameras@.map_values(|c: LensfunCamera| c@),
            lenses: self.lenses@.map_values(|l: LensfunLens| l@),
        }
    }
}

/// The element whose character data is being collected.
#[derive(Clone, Copy, Debug, PartialEq, Eq, Structural)]
pub enum Tag {
    Other,
    Maker,
    Model,
    Mount,
    CropFactor,
    AspectRatio,
}

/// What the parser holds between two events.
pub struct ParseState {
    pub camera: Option<CameraView>,
    pub lens: Option<LensView>,
    pub in_calibration: bool,
    pub new_calib_set: bool,
    pub calib_crop: Option<Decimal>,
    pub calib_aspect: Option<Decimal>,
    pub text: Seq<char>,
    pub tag: Tag,
    pub db: DatabaseView,
    /// The end of the document has been reached.
    pub done: bool,
}

pub open spec fn empty_camera() -> CameraView {
    CameraView { maker: Seq::empty(), model: Seq::empty(), mounts: Seq::empty(), crop_factor: zero() }
}

pub open spec fn empty_lens() -> LensView {
    LensView {
        maker: Seq::empty(),
        model: Seq::empty(),
        mounts: Seq::empty(),
        crop_factor: zero(),
        aspect_ratio: zero(),
        calibrations: Seq::empty(),
    }
}

pub open spec fn initial_state() -> ParseState {
    ParseState {
        camera: None,
        lens: None,
        in_calibration: false,
        new_calib_set: false,
        calib_crop: None,
        calib_aspect: None,
        text: Seq::empty(),
        tag: Tag::Other,
        db: DatabaseView { cameras: Seq::empty(), lenses: Seq::empty() },
        done: false,
    }
}

/// `s` without any number of trailing "mm" (`str::trim_end_matches("mm")`).
pub open spec fn strip_mm(s: Seq<char>) -> Seq<char>
    decreases s.len(),
{
    if s.len() >= 2 && s[s.len() - 1] == 'm' && s[s.len() - 2] == 'm' {
        strip_mm(s.take(s.len() - 2))
    } else {
        s
    }
}

/// The attributes of a `<distortion>` element that the parser reads; a later
/// attribute of the same name wins.
pub struct DistortionAttrs {
    pub model: Seq<char>,
    pub focal: Decimal,
    pub real_focal: Option<Decimal>,
    pub a: Decimal,
    pub b: Decimal,
    pub c: Decimal,
    pub k1: Decimal,
    pub k2: Decimal,
}

pub open spec fn no_distortion_attrs() -> DistortionAttrs {
    DistortionAttrs {
        model: Seq::empty(),
        focal: zero(),
        real_focal: None,
        a: zero(),
        b: zero(),
        c: zero(),
        k1: zero(),
        k2: zero(),
    }
}

pub open spec fn attribute_value(a: XmlAttributeView) -> Seq<char> {
    match a.value {
        Some(v) => v,
        None => Seq::empty(),
    }
}

pub open spec fn apply_distortion_attr(acc: DistortionAttrs, a: Option<XmlAttributeView>) -> DistortionAttrs {
    match a {
        None => acc,
        Some(at) => {
            let val = attribute_value(at);
            if at.key == "model"@ {
                DistortionAttrs { model: val, ..acc }
            } else if at.key == "focal"@ {
                DistortionAttrs { focal: decimal_or_zero(trim(strip_mm(val))), ..acc }
            } else if at.key == "real-focal"@ {
                DistortionAttrs { real_focal: decimal_of(trim(strip_mm(val))), ..acc }
            } else if at.key == "a"@ {
                DistortionAttrs { a: decimal_or_zero(val), ..acc }
            } else if at.key == "b"@ {
                DistortionAttrs { b: decimal_or_zero(val), ..acc }
            } else if at.key == "c"@ {
                DistortionAttrs { c: decimal_or_zero(val), ..acc }
            } else if at.key == "k1"@ {
                DistortionAttrs { k1: decimal_or_zero(val), ..acc }
            } else if at.key == "k2"@ {
                DistortionAttrs { k2: decimal_or_zero(val), ..acc }
            } else {
                acc
            }
        },
    }
}

pub open spec fn distortion_attrs(attrs: Seq<Option<XmlAttributeView>>) -> DistortionAttrs
    decreases attrs.len(),
{
    if attrs.len() == 0 {
        no_distortion_attrs()
    } else {
        apply_distortion_attr(distortion_attrs(attrs.drop_last()), attrs.last())
    }
}

/// The distortion calibration that a `<distortion>` element gives: `None` where its
/// focal length is not above zero or its model is not ptlens, poly3 or poly5.
pub open spec fn distortion_of(attrs: Seq<Option<XmlAttributeView>>) -> Option<DistortionView> {
    let acc = distortion_attrs(attrs);
    if !acc.focal.spec_is_positive() {
        None
    } else if acc.model == "ptlens"@ {
        Some(DistortionView { model: acc.model, focal: acc.focal, real_focal: acc.real_focal, terms: seq![acc.a, acc.b, acc.c] })
    } else if acc.model == "poly3"@ {
        Some(DistortionView { model: acc.model, focal: acc.focal, real_focal: acc.real_focal, terms: seq![acc.k1] })
    } else if acc.model == "poly5"@ {
        Some(DistortionView { model: acc.model, focal: acc.focal, real_focal: acc.real_focal, terms: seq![acc.k1, acc.k2] })
    } else {
        None
    }
}

/// The text of the last attribute named `key`, where there is one (a value whose
/// references cannot be resolved reading as empty).
pub open spec fn last_attr(attrs: Seq<Option<XmlAttributeView>>, key: Seq<char>) -> Option<Seq<char>>
    decreases attrs.len(),
{
    if attrs.len() == 0 {
        None
    } else if attrs.last() matches Some(at) && at.key == key {
        Some(attribute_value(attrs.last()->0))
    } else {
        last_attr(attrs.drop_last(), key)
    }
}

/// The number that the attribute `key` gives; a missing one, or one that does not
/// read as a number, gives zero.
pub open spec fn number_attr(attrs: Seq<Option<XmlAttributeView>>, key: Seq<char>) -> Decimal {
    match last_attr(attrs, key) {
        Some(v) => decimal_or_zero(v),
        None => zero(),
    }
}

/// The focal length that the `focal` attribute gives, with any trailing "mm" taken off.
pub open spec fn focal_attr(attrs: Seq<Option<XmlAttributeView>>) -> Decimal {
    match last_attr(attrs, "focal"@) {
        Some(v) => decimal_or_zero(trim(strip_mm(v))),
        None => zero(),
    }
}

proof fn lemma_attr_keys_apart()
    ensures
        "model"@ != "focal"@, "model"@ != "real-focal"@, "model"@ != "a"@, "model"@ != "b"@,
        "model"@ != "c"@, "model"@ != "k1"@, "model"@ != "k2"@,
        "focal"@ != "real-focal"@, "focal"@ != "a"@, "focal"@ != "b"@, "focal"@ != "c"@,
        "focal"@ != "k1"@, "focal"@ != "k2"@,
        "real-focal"@ != "a"@, "real-focal"@ != "b"@, "real-focal"@ != "c"@,
        "real-focal"@ != "k1"@, "real-focal"@ != "k2"@,
        "a"@ != "b"@, "a"@ != "c"@, "a"@ != "k1"@, "a"@ != "k2"@,
        "b"@ != "c"@, "b"@ != "k1"@, "b"@ != "k2"@,
        "c"@ != "k1"@, "c"@ != "k2"@,
        "k1"@ != "k2"@,
{
    reveal_strlit("model");
    reveal_strlit("focal");
    reveal_strlit("real-focal");
    reveal_strlit("a");
    reveal_strlit("b");
    reveal_strlit("c");
    reveal_strlit("k1");
    reveal_strlit("k2");
    assert("model"@[0] != "focal"@[0]);
    assert("a"@[0] != "b"@[0] && "a"@[0] != "c"@[0] && "b"@[0] != "c"@[0]);
    assert("k1"@[1] != "k2"@[1]);
}

/// What the attributes read so far hold is what their last attribute of each name gives.
proof fn lemma_distortion_attrs_fields(attrs: Seq<Option<XmlAttributeView>>)
    ensures
        distortion_attrs(attrs).model == (match last_attr(attrs, "model"@) {
            Some(v) => v,
            None => Seq::empty(),
        }),
        distortion_attrs(attrs).focal == focal_attr(attrs),
        distortion_attrs(attrs).a == number_attr(attrs, "a"@),
        distortion_attrs(attrs).b == number_attr(attrs, "b"@),
        distortion_attrs(attrs).c == number_attr(attrs, "c"@),
        distortion_attrs(attrs).k1 == number_attr(attrs, "k1"@),
        distortion_attrs(attrs).k2 == number_attr(attrs, "k2"@),
    decreases attrs.len(),
{
    lemma_attr_keys_apart();
    if attrs.len() > 0 {
        lemma_distortion_attrs_fields(attrs.drop_last());
    }
}

/// A distortion entry's terms are its attributes in the order of the model: `a`, `b`,
/// `c` for ptlens, `k1` for poly3, `k1`, `k2` for poly5, each the number its last
/// attribute of that name gives (zero where missing); its model and focal length are
/// those its attributes give. An entry of one of these models with a focal length
/// above zero is read.
pub proof fn law_distortion_terms_follow_attributes(attrs: Seq<Option<XmlAttributeView>>)
    ensures
        distortion_of(attrs) matches Some(d) ==> {
            &&& last_attr(attrs, "model"@) == Some(d.model)
            &&& d.focal == focal_attr(attrs)
            &&& d.model == "ptlens"@ ==> d.terms == seq![number_attr(attrs, "a"@), number_attr(attrs, "b"@), number_attr(attrs, "c"@)]
            &&& d.model == "poly3"@ ==> d.terms == seq![number_attr(attrs, "k1"@)]
            &&& d.model == "poly5"@ ==> d.terms == seq![number_attr(attrs, "k1"@), number_attr(attrs, "k2"@)]
        },
        focal_attr(attrs).spec_is_positive() && (last_attr(attrs, "model"@) == Some("ptlens"@)
            || last_attr(attrs, "model"@) == Some("poly3"@) || last_attr(attrs, "model"@) == Some("poly5"@))
            ==> distortion_of(attrs) is Some,
{
    lemma_distortion_attrs_fields(attrs);
    reveal_strlit("ptlens");
    reveal_strlit("poly3");
    reveal_strlit("poly5");
    reveal_strlit("model");
    assert("poly5"@[1] != "ptlens"@[1] && "poly3"@[1] != "ptlens"@[1] && "poly5"@[4] != "poly3"@[4]);
    if distortion_of(attrs) is Some {
        assert(distortion_attrs(attrs).model.len() > 0);
    }
}

/// A distortion entry goes into the current calibration set of the current lens,
/// opening a new set first where the lens has none or a new `<calibration>` began.
pub open spec fn push_distortion(s: ParseState, d: DistortionView) -> ParseState {
    match s.lens {
        None => s,
        Some(lens) => {
            let opens = lens.calibrations.len() == 0 || s.new_calib_set;
            let cals = if opens {
                lens.calibrations.push(CalibSetView {
                    crop_factor: if lens.crop_factor.spec_is_positive() { lens.crop_factor } else { one() },
                    aspect_ratio: if lens.aspect_ratio.spec_is_positive() { lens.aspect_ratio } else { three_halves() },
                    distortions: Seq::empty(),
                })
            } else {
                lens.calibrations
            };
            let last = cals.last();
            let last2 = CalibSetView {
                crop_factor: match s.calib_crop { Some(c) => c, None => last.crop_factor },
                aspect_ratio: match s.calib_aspect { Some(a) => a, None => last.aspect_ratio },
                distortions: last.distortions.push(d),
            };
            ParseState {
                lens: Some(LensView { calibrations: cals.update(cals.len() - 1, last2), ..lens }),
                new_calib_set: if opens { false } else { s.new_calib_set },
                ..s
            }
        },
    }
}

pub open spec fn camera_text(cam: CameraView, tag: Tag, t: Seq<char>) -> CameraView {
    match tag {
        Tag::Maker => if cam.maker.len() == 0 { CameraView { maker: t, ..cam } } else { cam },
        Tag::Model => if cam.model.len() == 0 { CameraView { model: t, ..cam } } else { cam },
        Tag::Mount => CameraView { mounts: cam.mounts.push(t), ..cam },
        Tag::CropFactor => CameraView { crop_factor: decimal_or_zero(t), ..cam },
        _ => cam,
    }
}

pub open spec fn lens_text(s: ParseState, lens: LensView, t: Seq<char>) -> ParseState {
    match s.tag {
        Tag::Maker => ParseState {
            lens: Some(if lens.maker.len() == 0 { LensView { maker: t, ..lens } } else { lens }),
            ..s
        },
        Tag::Model => ParseState {
            lens: Some(if lens.model.len() == 0 { LensView { model: t, ..lens } } else { lens }),
            ..s
        },
        Tag::Mount => ParseState { lens: Some(LensView { mounts: lens.mounts.push(t), ..lens }), ..s },
        Tag::CropFactor => if s.in_calibration {
            ParseState { calib_crop: decimal_of(t), ..s }
        } else {
            ParseState { lens: Some(LensView { crop_factor: decimal_or_zero(t), ..lens }), ..s }
        },
        Tag::AspectRatio => if s.in_calibration {
            ParseState { calib_aspect: decimal_of(t), ..s }
        } else {
            ParseState { lens: Some(LensView { aspect_ratio: decimal_or_zero(t), ..lens }), ..s }
        },
        Tag::Other => s,
    }
}

/// The collected character data, trimmed, goes to the field of the element it belongs to.
pub open spec fn flush(s: ParseState) -> ParseState {
    let t = trim(s.text);
    let s0 = ParseState { text: Seq::empty(), ..s };
    if t.len() == 0 {
        s0
    } else {
        match s0.camera {
            Some(cam) => ParseState { camera: Some(camera_text(cam, s0.tag, t)), ..s0 },
            None => match s0.lens {
                Some(lens) => lens_text(s0, lens, t),
                None => s0,
            },
        }
    }
}

pub open spec fn on_start(s: ParseState, name: Seq<char>, attrs: Seq<Option<XmlAttributeView>>) -> ParseState {
    let s1 = if name == "camera"@ {
        ParseState { camera: Some(empty_camera()), ..s }
    } else if name == "lens"@ {
        ParseState { lens: Some(empty_lens()), ..s }
    } else if name == "calibration"@ {
        ParseState { in_calibration: true, new_calib_set: true, calib_crop: None, calib_aspect: None, ..s }
    } else if name == "distortion"@ {
        if s.in_calibration {
            match distortion_of(attrs) {
                Some(d) => push_distortion(s, d),
                None => s,
            }
        } else {
            s
        }
    } else if name == "maker"@ {
        ParseState { tag: Tag::Maker, ..s }
    } else if name == "model"@ {
        ParseState { tag: Tag::Model, ..s }
    } else if name == "mount"@ {
        ParseState { tag: Tag::Mount, ..s }
    } else if name == "cropfactor"@ {
        ParseState { tag: Tag::CropFactor, ..s }
    } else if name == "aspect-ratio"@ {
        ParseState { tag: Tag::AspectRatio, ..s }
    } else {
        s
    };
    ParseState { text: Seq::empty(), ..s1 }
}

pub open spec fn on_empty(s: ParseState, name: Seq<char>, attrs: Seq<Option<XmlAttributeView>>) -> ParseState {
    if s.in_calibration && name == "distortion"@ {
        match distortion_of(attrs) {
            Some(d) => push_distortion(s, d),
            None => s,
        }
    } else {
        s
    }
}

pub open spec fn on_reference(s: ParseState, name: Seq<char>, character: Option<char>) -> ParseState {
    if name == "amp"@ {
        ParseState { text: s.text.push('&'), ..s }
    } else if name == "lt"@ {
        ParseState { text: s.text.push('<'), ..s }
    } else if name == "gt"@ {
        ParseState { text: s.text.push('>'), ..s }
    } else if name == "quot"@ {
        ParseState { text: s.text.push('"'), ..s }
    } else if name == "apos"@ {
        ParseState { text: s.text.push('\''), ..s }
    } else {
        match character {
            Some(c) => ParseState { text: s.text.push(c), ..s },
            None => s,
        }
    }
}

/// At the end of a `<calibration>`, its crop factor and aspect ratio (which may come
/// after its distortion entries) go to the set it filled.
pub open spec fn close_calibration(lens: LensView, crop: Option<Decimal>, aspect: Option<Decimal>) -> LensView {
    if lens.calibrations.len() > 0 {
        let last = lens.calibrations.last();
        let last2 = CalibSetView {
            crop_factor: match crop { Some(c) => c, None => last.crop_factor },
            aspect_ratio: match aspect { Some(a) => a, None => last.aspect_ratio },
            distortions: last.distortions,
        };
        LensView { calibrations: lens.calibrations.update(lens.calibrations.len() - 1, last2), ..lens }
    } else {
        lens
    }
}

pub open spec fn on_end(s: ParseState, name: Seq<char>) -> ParseState {
    let s1 = if name == "camera"@ {
        match s.camera {
            Some(cam) => ParseState {
                camera: None,
                db: if cam.model.len() > 0 { DatabaseView { cameras: s.db.cameras.push(cam), ..s.db } } else { s.db },
                ..s
            },
            None => s,
        }
    } else if name == "lens"@ {
        match s.lens {
            Some(lens) => ParseState {
                lens: None,
                db: if lens.model.len() > 0 && lens.calibrations.len() > 0 {
                    DatabaseView { lenses: s.db.lenses.push(lens), ..s.db }
                } else {
                    s.db
                },
                ..s
            },
            None => s,
        }
    } else if name == "calibration"@ {
        ParseState {
            in_calibration: false,
            lens: match s.lens {
                Some(lens) => Some(close_calibration(lens, s.calib_crop, s.calib_aspect)),
                None => None,
            },
            ..s
        }
    } else {
        s
    };
    ParseState { tag: Tag::Other, ..flush(s1) }
}

/// What the parser does with one event.
pub open spec fn step(s: ParseState, ev: XmlEventView) -> ParseState {
    if s.done {
        s
    } else {
        match ev {
            XmlEventView::Start { name, attributes } => on_start(s, name, attributes),
            XmlEventView::Empty { name, attributes } => on_empty(s, name, attributes),
            XmlEventView::Text { text } => ParseState { text: s.text + text, ..s },
            XmlEventView::Reference { name, character } => on_reference(s, name, character),
            XmlEventView::End { name } => on_end(s, name),
            XmlEventView::Eof => ParseState { done: true, ..s },
            _ => s,
        }
    }
}

/// The parser's state after a sequence of events.
pub open spec fn run(evs: Seq<XmlEventView>) -> ParseState
    decreases evs.len(),
{
    if evs.len() == 0 {
        initial_state()
    } else {
        step(run(evs.drop_last()), evs.last())
    }
}

/// A `<distortion>` calibration entry, from the attributes of its element.
pub open spec fn opt_distortion_view(d: Option<LensfunDistortion>) -> Option<DistortionView> {
    match d {
        Some(x) => Some(x@),
        None => None,
    }
}

fn decimal_or_zero_of(t: &[char]) -> (r: Decimal)
    ensures
        r == decimal_or_zero(t@),
{
    match parse_decimal(t) {
        Some(d) => d,
        None => Decimal { negative: false, digits: 0, exponent: 0, form: NumberForm::Finite },
    }
}

fn strip_mm_chars(s: &[char]) -> (r: Vec<char>)
    ensures
        r@ == strip_mm(s@),
{
    let mut n = s.len();
    assert(s@.take(n as int) =~= s@);
    while n >= 2 && s[n - 1] == 'm' && s[n - 2] == 'm'
        invariant
            n <= s@.len(),
            strip_mm(s@) == strip_mm(s@.take(n as int)),
        decreases n,
    {
        assert(s@.take(n as int).take(n - 2) =~= s@.take(n - 2));
        n = n - 2;
    }
    crate::text::slice_of(s, 0, n)
}

struct AttrAcc {
    model: Vec<char>,
    focal: Decimal,
    real_focal: Option<Decimal>,
    a: Decimal,
    b: Decimal,
    c: Decimal,
    k1: Decimal,
    k2: Decimal,
}

impl AttrAcc {
    spec fn view(&self) -> DistortionAttrs {
        DistortionAttrs {
            model: self.model@,
            focal: self.focal,
            real_focal: self.real_focal,
            a: self.a,
            b: self.b,
            c: self.c,
            k1: self.k1,
            k2: self.k2,
        }
    }
}

fn apply_attr(acc: &mut AttrAcc, a: &Option<XmlAttribute>)
    ensures
        final(acc).view() == apply_distortion_attr(old(acc).view(), match a { Some(x) => Some(x@), None => None }),
{
    match a {
        None => {},
        Some(at) => {
            let val = match &at.value {
                Some(v) => chars_of(v.as_str()),
                None => Vec::new(),
            };
            let key = at.key.as_str();
            if same_text(key, "model") {
                acc.model = val;
            } else if same_text(key, "focal") {
                let t = trim_chars(strip_mm_chars(val.as_slice()).as_slice());
                acc.focal = decimal_or_zero_of(t.as_slice());
            } else if same_text(key, "real-focal") {
                let t = trim_chars(strip_mm_chars(val.as_slice()).as_slice());
                acc.real_focal = parse_decimal(t.as_slice());
            } else if same_text(key, "a") {
                acc.a = decimal_or_zero_of(val.as_slice());
            } else if same_text(key, "b") {
                acc.b = decimal_or_zero_of(val.as_slice());
            } else if same_text(key, "c") {
                acc.c = decimal_or_zero_of(val.as_slice());
            } else if same_text(key, "k1") {
                acc.k1 = decimal_or_zero_of(val.as_slice());
            } else if same_text(key, "k2") {
                acc.k2 = decimal_or_zero_of(val.as_slice());
            }
        },
    }
}

/// The distortion calibration that a `<distortion>` element gives (see `distortion_of`).
pub fn parse_distortion(attrs: &Vec<Option<XmlAttribute>>) -> (r: Option<LensfunDistortion>)
    ensures
        opt_distortion_view(r) == distortion_of(attributes_view(attrs@)),
{
    let z = Decimal { negative: false, digits: 0, exponent: 0, form: NumberForm::Finite };
    let mut acc = AttrAcc { model: Vec::new(), focal: z, real_focal: None, a: z, b: z, c: z, k1: z, k2: z };
    let ghost av = attributes_view(attrs@);
    let mut i: usize = 0;
    while i < attrs.len()
        invariant
            i <= attrs@.len(),
            av == attributes_view(attrs@),
            acc.view() == distortion_attrs(av.take(i as int)),
        decreases attrs@.len() - i,
    {
        assert(av.take(i + 1).drop_last() =~= av.take(i as int));
        apply_attr(&mut acc, &attrs[i]);
        i = i + 1;
    }
    assert(av.take(attrs@.len() as int) =~= av);
    if !acc.focal.is_positive() {
        return None;
    }
    let model = string_of(acc.model.as_slice());
    let ms = model.as_str();
    let terms = if same_text(ms, "ptlens") {
        let t = vec![acc.a, acc.b, acc.c];
        assert(t@ =~= seq![acc.a, acc.b, acc.c]);
        t
    } else if same_text(ms, "poly3") {
        let t = vec![acc.k1];
        assert(t@ =~= seq![acc.k1]);
        t
    } else if same_text(ms, "poly5") {
        let t = vec![acc.k1, acc.k2];
        assert(t@ =~= seq![acc.k1, acc.k2]);
        t
    } else {
        return None;
    };
    Some(LensfunDistortion { model, focal: acc.focal, real_focal: acc.real_focal, terms })
}

/// The lensfun XML parser between two events of the document.
pub struct LensfunXmlReader {
    camera: Option<LensfunCamera>,
    lens: Option<LensfunLens>,
    in_calibration: bool,
    new_calib_set: bool,
    calib_crop: Option<Decimal>,
    calib_aspect: Option<Decimal>,
    text: Vec<char>,
    tag: Tag,
    db: LensfunDatabase,
    done: bool,
}

impl View for LensfunXmlReader {
    type V = ParseState;

    closed spec fn view(&self) -> ParseState {
        ParseState {
            camera: match self.camera { Some(c) => Some(c@), None => None },
            lens: match self.lens { Some(l) => Some(l@), None => None },
            in_calibration: self.in_calibration,
            new_calib_set: self.new_calib_set,
            calib_crop: self.calib_crop,
            calib_aspect: self.calib_aspect,
            text: self.text@,
            tag: self.tag,
            db: self.db@,
            done: self.done,
        }
    }
}

fn new_camera() -> (r: LensfunCamera)
    ensures
        r@ == empty_camera(),
{
    let r = LensfunCamera {
        maker: String::new(),
        model: String::new(),
        mounts: Vec::new(),
        crop_factor: Decimal { negative: false, digits: 0, exponent: 0, form: NumberForm::Finite },
    };
    assert(r@.mounts =~= Seq::<Seq<char>>::empty());
    r
}

fn new_lens() -> (r: LensfunLens)
    ensures
        r@ == empty_lens(),
{
    let r = LensfunLens {
        maker: String::new(),
        model: String::new(),
        mounts: Vec::new(),
        crop_factor: Decimal { negative: false, digits: 0, exponent: 0, form: NumberForm::Finite },
        aspect_ratio: Decimal { negative: false, digits: 0, exponent: 0, form: NumberForm::Finite },
        calibrations: Vec::new(),
    };
    assert(r@.mounts =~= Seq::<Seq<char>>::empty());
    assert(r@.calibrations =~= Seq::<CalibSetView>::empty());
    r
}

fn push_string(v: &mut Vec<String>, t: &[char])
    ensures
        strings_view(final(v)@) == strings_view(old(v)@).push(t@),
{
    v.push(string_of(t));
    assert(strings_view(v@) =~= strings_view(old(v)@).push(t@));
}

impl LensfunXmlReader {
    /// A parser at the start of a document.
    pub fn new() -> (r: Self)
        ensures
            r@ == initial_state(),
    {
        let r = LensfunXmlReader {
            camera: None,
            lens: None,
            in_calibration: false,
            new_calib_set: false,
            calib_crop: None,
            calib_aspect: None,
            text: Vec::new(),
            tag: Tag::Other,
            db: LensfunDatabase { cameras: Vec::new(), lenses: Vec::new() },
            done: false,
        };
        assert(r@.db.cameras =~= Seq::<CameraView>::empty());
        assert(r@.db.lenses =~= Seq::<LensView>::empty());
        assert(r@.text =~= Seq::<char>::empty());
        r
    }

    fn push_distortion(&mut self, d: LensfunDistortion)
        ensures
            final(self)@ == push_distortion(old(self)@, d@),
    {
        match self.lens.take() {
            None => {},
            Some(lens0) => {
                let mut lens = lens0;
                let ghost lv = lens@;
                let opens = lens.calibrations.len() == 0 || self.new_calib_set;
                if opens {
                    let cf = if lens.crop_factor.is_positive() {
                        lens.crop_factor
                    } else {
                        Decimal { negative: false, digits: 1, exponent: 0, form: NumberForm::Finite }
                    };
                    let ar = if lens.aspect_ratio.is_positive() {
                        lens.aspect_ratio
                    } else {
                        Decimal { negative: false, digits: 15, exponent: -1, form: NumberForm::Finite }
                    };
                    let set = LensfunCalibSet { crop_factor: cf, aspect_ratio: ar, distortions: Vec::new() };
                    assert(set@.distortions =~= Seq::<DistortionView>::empty());
                    let ghost sv = set@;
                    lens.calibrations.push(set);
                    assert(lens@.calibrations =~= lv.calibrations.push(sv));
                    self.new_calib_set = false;
                }
                let ghost cals = lens@.calibrations;
                let mut last = lens.calibrations.pop().unwrap();
                assert(last@ == cals.last());
                assert(lens@.calibrations =~= cals.drop_last());
                if let Some(c) = self.calib_crop {
                    last.crop_factor = c;
                }
                if let Some(a) = self.calib_aspect {
                    last.aspect_ratio = a;
                }
                let ghost dv = d@;
                let ghost old_ds = last@.distortions;
                last.distortions.push(d);
                assert(last@.distortions =~= old_ds.push(dv));
                lens.calibrations.push(last);
                assert(lens@.calibrations =~= cals.update(cals.len() - 1, last@));
                self.lens = Some(lens);
                assert(self@ == push_distortion(old(self)@, dv));
            },
        }
    }

    /// The collected character data goes to the field of the element it belongs to.
    fn flush(&mut self)
        ensures
            final(self)@ == flush(old(self)@),
    {
        let t = trim_chars(self.text.as_slice());
        self.text = Vec::new();
        assert(self@.text =~= Seq::<char>::empty());
        if t.len() == 0 {
            return;
        }
        match self.camera.take() {
            Some(cam0) => {
                let mut cam = cam0;
                match self.tag {
                    Tag::Maker => if cam.maker.as_str().is_empty() {
                        cam.maker = string_of(t.as_slice());
                    },
                    Tag::Model => if cam.model.as_str().is_empty() {
                        cam.model = string_of(t.as_slice());
                    },
                    Tag::Mount => push_string(&mut cam.mounts, t.as_slice()),
                    Tag::CropFactor => cam.crop_factor = decimal_or_zero_of(t.as_slice()),
                    _ => {},
                }
                self.camera = Some(cam);
            },
            None => {
                match self.lens.take() {
                    Some(lens0) => {
                        let mut lens = lens0;
                        match self.tag {
                            Tag::Maker => if lens.maker.as_str().is_empty() {
                                lens.maker = string_of(t.as_slice());
                            },
                            Tag::Model => if lens.model.as_str().is_empty() {
                                lens.model = string_of(t.as_slice());
                            },
                            Tag::Mount => push_string(&mut lens.mounts, t.as_slice()),
                            Tag::CropFactor => if self.in_calibration {
                                self.calib_crop = parse_decimal(t.as_slice());
                            } else {
                                lens.crop_factor = decimal_or_zero_of(t.as_slice());
                            },
                            Tag::AspectRatio => if self.in_calibration {
                                self.calib_aspect = parse_decimal(t.as_slice());
                            } else {
                                lens.aspect_ratio = decimal_or_zero_of(t.as_slice());
                            },
                            Tag::Other => {},
                        }
                        self.lens = Some(lens);
                    },
                    None => {},
                }
            },
        }
    }
}

fn close_calibration_exec(lens0: LensfunLens, crop: Option<Decimal>, aspect: Option<Decimal>) -> (r: LensfunLens)
    ensures
        r@ == close_calibration(lens0@, crop, aspect),
{
    let mut lens = lens0;
    if lens.calibrations.len() > 0 {
        let ghost cals = lens@.calibrations;
        let mut last = lens.calibrations.pop().unwrap();
        assert(last@ == cals.last());
        assert(lens@.calibrations =~= cals.drop_last());
        if let Some(c) = crop {
            last.crop_factor = c;
        }
        if let Some(a) = aspect {
            last.aspect_ratio = a;
        }
        lens.calibrations.push(last);
        assert(lens@.calibrations =~= cals.update(cals.len() - 1, last@));
    }
    lens
}

impl LensfunXmlReader {
    fn on_start(&mut self, name: &String, attrs: &Vec<Option<XmlAttribute>>)
        ensures
            final(self)@ == on_start(old(self)@, name@, attributes_view(attrs@)),
    {
        let n = name.as_str();
        if same_text(n, "camera") {
            self.camera = Some(new_camera());
        } else if same_text(n, "lens") {
            self.lens = Some(new_lens());
        } else if same_text(n, "calibration") {
            self.in_calibration = true;
            self.new_calib_set = true;
            self.calib_crop = None;
            self.calib_aspect = None;
        } else if same_text(n, "distortion") {
            if self.in_calibration {
                match parse_distortion(attrs) {
                    Some(d) => self.push_distortion(d),
                    None => {},
                }
            }
        } else if same_text(n, "maker") {
            self.tag = Tag::Maker;
        } else if same_text(n, "model") {
            self.tag = Tag::Model;
        } else if same_text(n, "mount") {
            self.tag = Tag::Mount;
        } else if same_text(n, "cropfactor") {
            self.tag = Tag::CropFactor;
        } else if same_text(n, "aspect-ratio") {
            self.tag = Tag::AspectRatio;
        }
        self.text = Vec::new();
        assert(self@.text =~= Seq::<char>::empty());
    }

    fn on_empty(&mut self, name: &String, attrs: &Vec<Option<XmlAttribute>>)
        ensures
            final(self)@ == on_empty(old(self)@, name@, attributes_view(attrs@)),
    {
        if self.in_calibration && same_text(name.as_str(), "distortion") {
            match parse_distortion(attrs) {
                Some(d) => self.push_distortion(d),
                None => {},
            }
        }
    }

    fn on_reference(&mut self, name: &String, character: Option<char>)
        ensures
            final(self)@ == on_reference(old(self)@, name@, character),
    {
        let n = name.as_str();
        if same_text(n, "amp") {
            self.text.push('&');
        } else if same_text(n, "lt") {
            self.text.push('<');
        } else if same_text(n, "gt") {
            self.text.push('>');
        } else if same_text(n, "quot") {
            self.text.push('"');
        } else if same_text(n, "apos") {
            self.text.push('\'');
        } else {
            match character {
                Some(c) => self.text.push(c),
                None => {},
            }
        }
    }

    fn on_end(&mut self, name: &String)
        ensures
            final(self)@ == on_end(old(self)@, name@),
    {
        let n = name.as_str();
        if same_text(n, "camera") {
            match self.camera.take() {
                Some(cam) => {
                    if !cam.model.as_str().is_empty() {
                        let ghost old_cams = self@.db.cameras;
                        let ghost cv = cam@;
                        self.db.cameras.push(cam);
                        assert(self@.db.cameras =~= old_cams.push(cv));
                    }
                },
                None => {},
            }
        } else if same_text(n, "lens") {
            match self.lens.take() {
                Some(lens) => {
                    if !lens.model.as_str().is_empty() && lens.calibrations.len() > 0 {
                        let ghost old_lenses = self@.db.lenses;
                        let ghost lv = lens@;
                        self.db.lenses.push(lens);
                        assert(self@.db.lenses =~= old_lenses.push(lv));
                    }
                },
                None => {},
            }
        } else if same_text(n, "calibration") {
            self.in_calibration = false;
            match self.lens.take() {
                Some(lens) => {
                    self.lens = Some(close_calibration_exec(lens, self.calib_crop, self.calib_aspect));
                },
                None => {},
            }
        }
        self.flush();
        self.tag = Tag::Other;
    }

    /// Takes in one event of the document (see `step`).
    pub fn feed(&mut self, ev: &XmlEvent)
        ensures
            final(self)@ == step(old(self)@, ev@),
    {
        if self.done {
            return;
        }
        match ev {
            XmlEvent::Start { name, attributes } => {
                assert(ev@ == XmlEventView::Start { name: name@, attributes: attributes_view(attributes@) });
                self.on_start(name, attributes);
            },
            XmlEvent::Empty { name, attributes } => {
                self.on_empty(name, attributes);
                assert(self@ == step(old(self)@, ev@));
            },
            XmlEvent::Text { text } => {
                crate::text::push_chars(&mut self.text, text.as_str());
                assert(self@ == step(old(self)@, ev@));
            },
            XmlEvent::Reference { name, character } => {
                self.on_reference(name, *character);
                assert(self@ == step(old(self)@, ev@));
            },
            XmlEvent::End { name } => {
                self.on_end(name);
                assert(self@ == step(old(self)@, ev@));
            },
            XmlEvent::Eof => {
                self.done = true;
                assert(self@ == step(old(self)@, ev@));
            },
            _ => {
                assert(self@ == step(old(self)@, ev@));
            },
        }
    }

    /// Whether the end of the document has been taken in.
    pub fn is_done(&self) -> (r: bool)
        ensures
            r == self@.done,
    {
        self.done
    }

    /// The cameras and lenses read so far.
    pub fn into_database(self) -> (r: LensfunDatabase)
        ensures
            r@ == self@.db,
    {
        self.db
    }
}

pub open spec fn events_view(evs: Seq<XmlEvent>) -> Seq<XmlEventView> {
    evs.map_values(|e: XmlEvent| e@)
}

/// The cameras and lenses that a sequence of events describes, up to its first `Eof`.
pub open spec fn database_of(evs: Seq<XmlEventView>) -> DatabaseView {
    run(evs).db
}

/// The database that a sequence of events describes (see `step`).
pub fn from_events(evs: &Vec<XmlEvent>) -> (r: LensfunDatabase)
    ensures
        r@ == database_of(events_view(evs@)),
{
    let mut st = LensfunXmlReader::new();
    let ghost ev = events_view(evs@);
    let mut i: usize = 0;
    while i < evs.len()
        invariant
            i <= evs@.len(),
            ev == events_view(evs@),
            st@ == run(ev.take(i as int)),
        decreases evs@.len() - i,
    {
        assert(ev.take(i + 1).drop_last() =~= ev.take(i as int));
        st.feed(&evs[i]);
        i = i + 1;
    }
    assert(ev.take(evs@.len() as int) =~= ev);
    st.into_database()
}

/// The number of events of a document that `quick-xml`, trimming character data,
/// hands out before the reading stops, at an error or at the end of the document,
/// within the event budget of its length in bytes.
pub open spec fn document_read_length(xml: &str) -> int {
    quick_xml_stop(xml@, true, 0, event_budget(xml.spec_bytes().len() as int))
}

/// Whether `quick-xml` reads the document to its end, without an error, within the
/// event budget.
pub open spec fn document_reads_to_end(xml: &str) -> bool {
    &&& document_read_length(xml) < event_budget(xml.spec_bytes().len() as int)
    &&& quick_xml_full_event_at(xml@, true, document_read_length(xml)) == Some(XmlEventView::Eof)
}

/// The database that a document describes: what its events, up to and with the end of
/// the document, give (see `step`).
pub open spec fn document_database(xml: &str) -> DatabaseView {
    database_of(quick_xml_events(xml@, true, document_read_length(xml) + 1))
}

impl LensfunDatabase {
    /// Parses a lensfun XML document. The document is read with `quick-xml`, trimming
    /// character data, which reports one event for each tag, each piece of character
    /// data and each reference it reads, and the end of the document once it has read
    /// it; the cameras and lenses are those the events describe (see `step`), up to
    /// the end of the document. A document that `quick-xml` cannot read gives its
    /// error, and so does one that gives more events than `event_budget` allows for
    /// its length.
    #[verifier::rlimit(40)]
    pub fn from_xml(xml: &str) -> (r: Result<LensfunDatabase, XmlError>)
        ensures
            r is Ok <==> document_reads_to_end(xml),
            r matches Ok(db) ==> db@ == document_database(xml),
            r matches Ok(db) ==> database_complete(db@),
    {
        let ghost doc = xml@;
        let mut events = quick_xml_reader(xml);
        quick_xml_trim_text(&mut events, true);
        let mut st = LensfunXmlReader::new();
        let ghost bound = event_budget(xml.spec_bytes().len() as int);
        let bytes = xml.as_bytes();
        let mut budget: usize = event_budget_of(bytes.len());
        let mut n: usize = 0;
        loop
            invariant
                doc == xml@,
                bound == event_budget(xml.spec_bytes().len() as int),
                events@ == (doc, true, n as int),
                n + budget == bound,
                st@ == run(quick_xml_events(doc, true, n as int)),
                !st@.done,
                forall|j: int| 0 <= j < n ==> !#[trigger] quick_xml_stops_at(doc, true, j),
            decreases budget,
        {
            proof {
                lemma_quick_xml_stop_skips(doc, true, 0, n as int, bound);
            }
            if budget == 0 {
                let mut m: Vec<char> = Vec::new();
                crate::text::push_chars(&mut m, "the reader gave more events than the document has bytes for");
                return Err(XmlError { message: string_of(m.as_slice()) });
            }
            let ev = next_quick_xml_event(&mut events)?;
            proof {
                lemma_quick_xml_events_push(doc, true, n as int, ev@);
                assert(quick_xml_events(doc, true, n as int).push(ev@).drop_last() =~= quick_xml_events(doc, true, n as int));
            }
            st.feed(&ev);
            if st.is_done() {
                assert(ev@ is Eof);
                assert(quick_xml_stops_at(doc, true, n as int));
                proof {
                    lemma_run_complete(quick_xml_events(doc, true, n as int + 1));
                }
                let db = st.into_database();
                return Ok(db);
            }
            budget = budget - 1;
            n = n + 1;
        }
    }
}

/// A distortion entry with a positive focal length and the terms of its model.
pub open spec fn distortion_complete(d: DistortionView) -> bool {
    &&& d.focal.spec_is_positive()
    &&& ((d.model == "ptlens"@ && d.terms.len() == 3) || (d.model == "poly3"@ && d.terms.len() == 1)
        || (d.model == "poly5"@ && d.terms.len() == 2))
}

pub open spec fn calibration_complete(c: CalibSetView) -> bool {
    &&& c.distortions.len() > 0
    &&& forall|i: int| 0 <= i < c.distortions.len() ==> distortion_complete(#[trigger] c.distortions[i])
}

pub open spec fn calibrations_complete(l: LensView) -> bool {
    forall|i: int| 0 <= i < l.calibrations.len() ==> calibration_complete(#[trigger] l.calibrations[i])
}

/// Every camera kept has a model; every lens kept has a model and at least one
/// calibration set, each with at least one complete distortion entry.
pub open spec fn database_complete(db: DatabaseView) -> bool {
    &&& forall|i: int| 0 <= i < db.cameras.len() ==> (#[trigger] db.cameras[i]).model.len() > 0
    &&& forall|i: int| 0 <= i < db.lenses.len() ==> {
        &&& (#[trigger] db.lenses[i]).model.len() > 0
        &&& db.lenses[i].calibrations.len() > 0
        &&& calibrations_complete(db.lenses[i])
    }
}

pub open spec fn state_complete(s: ParseState) -> bool {
    &&& database_complete(s.db)
    &&& (s.lens matches Some(l) ==> calibrations_complete(l))
}

proof fn lemma_distortion_of_complete(attrs: Seq<Option<XmlAttributeView>>)
    ensures
        distortion_of(attrs) matches Some(d) ==> distortion_complete(d),
{
}

proof fn lemma_push_distortion_complete(s: ParseState, d: DistortionView)
    requires
        state_complete(s),
        distortion_complete(d),
    ensures
        state_complete(push_distortion(s, d)),
{
    match s.lens {
        None => {},
        Some(lens) => {
            let s2 = push_distortion(s, d);
            let l2 = s2.lens.unwrap();
            assert forall|i: int| 0 <= i < l2.calibrations.len() implies calibration_complete(
                #[trigger] l2.calibrations[i],
            ) by {
                if i < lens.calibrations.len() && i != l2.calibrations.len() - 1 {
                    assert(l2.calibrations[i] == lens.calibrations[i]);
                } else {
                    let c = l2.calibrations[i];
                    assert forall|j: int| 0 <= j < c.distortions.len() implies distortion_complete(
                        #[trigger] c.distortions[j],
                    ) by {
                        if j < c.distortions.len() - 1 {
                            if i < lens.calibrations.len() {
                                assert(calibration_complete(lens.calibrations[i]));
                            }
                        }
                    }
                }
            }
        },
    }
}

proof fn lemma_flush_complete(s: ParseState)
    requires
        state_complete(s),
    ensures
        state_complete(flush(s)),
{
}

/// Every event keeps the database and the lens being read complete.
pub proof fn lemma_step_complete(s: ParseState, ev: XmlEventView)
    requires
        state_complete(s),
    ensures
        state_complete(step(s, ev)),
{
    if !s.done {
        match ev {
            XmlEventView::Start { name, attributes } => {
                lemma_distortion_of_complete(attributes);
                if s.in_calibration {
                    if let Some(d) = distortion_of(attributes) {
                        lemma_push_distortion_complete(s, d);
                    }
                }
                assert(calibrations_complete(empty_lens()));
            },
            XmlEventView::Empty { name, attributes } => {
                lemma_distortion_of_complete(attributes);
                if let Some(d) = distortion_of(attributes) {
                    lemma_push_distortion_complete(s, d);
                }
            },
            XmlEventView::End { name } => {
                let s1 = if name == "camera"@ {
                    match s.camera {
                        Some(cam) => ParseState {
                            camera: None,
                            db: if cam.model.len() > 0 { DatabaseView { cameras: s.db.cameras.push(cam), ..s.db } } else { s.db },
                            ..s
                        },
                        None => s,
                    }
                } else if name == "lens"@ {
                    match s.lens {
                        Some(lens) => ParseState {
                            lens: None,
                            db: if lens.model.len() > 0 && lens.calibrations.len() > 0 {
                                DatabaseView { lenses: s.db.lenses.push(lens), ..s.db }
                            } else {
                                s.db
                            },
                            ..s
                        },
                        None => s,
                    }
                } else if name == "calibration"@ {
                    ParseState {
                        in_calibration: false,
                        lens: match s.lens {
                            Some(lens) => Some(close_calibration(lens, s.calib_crop, s.calib_aspect)),
                            None => None,
                        },
                        ..s
                    }
                } else {
                    s
                };
                if name == "calibration"@ {
                    if let Some(lens) = s.lens {
                        let l2 = close_calibration(lens, s.calib_crop, s.calib_aspect);
                        assert forall|i: int| 0 <= i < l2.calibrations.len() implies calibration_complete(
                            #[trigger] l2.calibrations[i],
                        ) by {
                            assert(calibration_complete(lens.calibrations[i]));
                        }
                    }
                }
                assert(state_complete(s1));
                lemma_flush_complete(s1);
                assert(on_end(s, name) == ParseState { tag: Tag::Other, ..flush(s1) });
            },
            _ => {},
        }
    }
}

/// The parser's state is complete after any sequence of events.
pub proof fn lemma_run_complete(evs: Seq<XmlEventView>)
    ensures
        state_complete(run(evs)),
    decreases evs.len(),
{
    if evs.len() > 0 {
        lemma_run_complete(evs.drop_last());
        lemma_step_complete(run(evs.drop_last()), evs.last());
    }
}

/// Whatever the events of a document, the database read from them is complete:
/// no camera without a model, no lens without a model or a calibration, no
/// calibration set without a distortion entry, and every entry has a focal length
/// above zero and the terms of its model.
pub proof fn parsed_database_is_complete(evs: Seq<XmlEventView>)
    ensures
        database_complete(database_of(evs)),
{
    lemma_run_complete(evs);
}

proof fn lemma_element_names_apart()
    ensures
        "maker"@ != "camera"@ && "maker"@ != "lens"@ && "maker"@ != "calibration"@ && "maker"@ != "distortion"@,
        "model"@ != "camera"@ && "model"@ != "lens"@ && "model"@ != "calibration"@ && "model"@ != "distortion"@,
        "mount"@ != "camera"@ && "mount"@ != "lens"@ && "mount"@ != "calibration"@ && "mount"@ != "distortion"@,
        "cropfactor"@ != "camera"@ && "cropfactor"@ != "lens"@ && "cropfactor"@ != "calibration"@,
        "cropfactor"@ != "distortion"@,
        "maker"@ != "model"@ && "maker"@ != "mount"@ && "model"@ != "mount"@,
        "cropfactor"@ != "maker"@ && "cropfactor"@ != "model"@ && "cropfactor"@ != "mount"@,
{
    reveal_strlit("camera");
    reveal_strlit("lens");
    reveal_strlit("calibration");
    reveal_strlit("distortion");
    reveal_strlit("maker");
    reveal_strlit("model");
    reveal_strlit("mount");
    reveal_strlit("cropfactor");
    assert("camera"@.len() == 6 && "lens"@.len() == 4 && "calibration"@.len() == 11);
    assert("distortion"@.len() == 10 && "cropfactor"@.len() == 10);
    assert("maker"@.len() == 5 && "model"@.len() == 5 && "mount"@.len() == 5);
    assert("maker"@[1] != "model"@[1] && "maker"@[1] != "mount"@[1] && "model"@[2] != "mount"@[2]);
    assert("cropfactor"@[0] != "distortion"@[0]);
}

/// The state after an element with the given attributes and text, from its opening
/// tag to its closing tag.
pub open spec fn after_element(s: ParseState, name: Seq<char>, attrs: Seq<Option<XmlAttributeView>>, t: Seq<char>) -> ParseState {
    step(step(step(s, XmlEventView::Start { name, attributes: attrs }), XmlEventView::Text { text: t }), XmlEventView::End { name })
}

/// Inside a lens, where no camera is open, a property element gives its trimmed text
/// to that property: each `mount` adds it after the mounts read before, the first
/// `maker` and the first `model` take it, and a `cropfactor` outside the calibrations
/// sets the lens's crop factor to the number it reads as (zero where it reads as
/// none), inside them the crop factor of the calibration set.
proof fn lemma_lens_mount_element(s: ParseState, attrs: Seq<Option<XmlAttributeView>>, t: Seq<char>)
    requires
        s.camera is None,
        s.lens is Some,
        !s.done,
        trim(t).len() > 0,
    ensures
        ({
            let l = s.lens->0;
            let n = after_element(s, "mount"@, attrs, t);
            &&& n.lens is Some && n.lens->0.mounts == l.mounts.push(trim(t))
            &&& n.lens->0.maker == l.maker && n.lens->0.model == l.model
            &&& n.lens->0.crop_factor == l.crop_factor && n.lens->0.calibrations == l.calibrations
            &&& n.db == s.db
        }),
{
    lemma_element_names_apart();
}

proof fn lemma_lens_maker_element(s: ParseState, attrs: Seq<Option<XmlAttributeView>>, t: Seq<char>)
    requires
        s.camera is None,
        s.lens is Some,
        !s.done,
        trim(t).len() > 0,
    ensures
        ({
            let l = s.lens->0;
            let n = after_element(s, "maker"@, attrs, t);
            &&& n.lens is Some && n.lens->0.maker == (if l.maker.len() == 0 { trim(t) } else { l.maker })
            &&& n.lens->0.model == l.model && n.lens->0.mounts == l.mounts
        }),
{
    lemma_element_names_apart();
}

proof fn lemma_lens_model_element(s: ParseState, attrs: Seq<Option<XmlAttributeView>>, t: Seq<char>)
    requires
        s.camera is None,
        s.lens is Some,
        !s.done,
        trim(t).len() > 0,
    ensures
        ({
            let l = s.lens->0;
            let n = after_element(s, "model"@, attrs, t);
            &&& n.lens is Some && n.lens->0.model == (if l.model.len() == 0 { trim(t) } else { l.model })
            &&& n.lens->0.maker == l.maker && n.lens->0.mounts == l.mounts
        }),
{
    lemma_element_names_apart();
}

proof fn lemma_lens_cropfactor_element(s: ParseState, attrs: Seq<Option<XmlAttributeView>>, t: Seq<char>)
    requires
        s.camera is None,
        s.lens is Some,
        !s.done,
        trim(t).len() > 0,
    ensures
        ({
            let l = s.lens->0;
            let n = after_element(s, "cropfactor"@, attrs, t);
            &&& !s.in_calibration ==> n.lens is Some && n.lens->0.crop_factor == decimal_or_zero(trim(t))
                && n.lens->0.mounts == l.mounts && n.lens->0.calibrations == l.calibrations
            &&& s.in_calibration ==> n.calib_crop == decimal_of(trim(t)) && n.lens == s.lens
        }),
{
    lemma_element_names_apart();
}

pub proof fn law_lens_property_elements(s: ParseState, attrs: Seq<Option<XmlAttributeView>>, t: Seq<char>)
    requires
        s.camera is None,
        s.lens is Some,
        !s.done,
        trim(t).len() > 0,
    ensures
        ({
            let l = s.lens->0;
            let n = after_element(s, "mount"@, attrs, t);
            &&& n.lens is Some && n.lens->0.mounts == l.mounts.push(trim(t))
            &&& n.lens->0.maker == l.maker && n.lens->0.model == l.model
            &&& n.lens->0.crop_factor == l.crop_factor && n.lens->0.calibrations == l.calibrations
            &&& n.db == s.db
        }),
        ({
            let l = s.lens->0;
            let n = after_element(s, "maker"@, attrs, t);
            &&& n.lens is Some && n.lens->0.maker == (if l.maker.len() == 0 { trim(t) } else { l.maker })
            &&& n.lens->0.model == l.model && n.lens->0.mounts == l.mounts
        }),
        ({
            let l = s.lens->0;
            let n = after_element(s, "model"@, attrs, t);
            &&& n.lens is Some && n.lens->0.model == (if l.model.len() == 0 { trim(t) } else { l.model })
            &&& n.lens->0.maker == l.maker && n.lens->0.mounts == l.mounts
        }),
        ({
            let l = s.lens->0;
            let n = after_element(s, "cropfactor"@, attrs, t);
            &&& !s.in_calibration ==> n.lens is Some && n.lens->0.crop_factor == decimal_or_zero(trim(t))
                && n.lens->0.mounts == l.mounts && n.lens->0.calibrations == l.calibrations
            &&& s.in_calibration ==> n.calib_crop == decimal_of(trim(t)) && n.lens == s.lens
        }),
{
    lemma_lens_mount_element(s, attrs, t);
    lemma_lens_maker_element(s, attrs, t);
    lemma_lens_model_element(s, attrs, t);
    lemma_lens_cropfactor_element(s, attrs, t);
}

/// Inside a camera, a property element gives its trimmed text to that property:
/// each `mount` adds it after the mounts read before, the first `maker` and the first
/// `model` take it, and `cropfactor` sets the crop factor to the number it reads as
/// (zero where it reads as none).
proof fn lemma_camera_mount_element(s: ParseState, attrs: Seq<Option<XmlAttributeView>>, t: Seq<char>)
    requires
        s.camera is Some,
        !s.done,
        trim(t).len() > 0,
    ensures
        ({
            let c = s.camera->0;
            let n = after_element(s, "mount"@, attrs, t);
            &&& n.camera is Some && n.camera->0.mounts == c.mounts.push(trim(t))
            &&& n.camera->0.maker == c.maker && n.camera->0.model == c.model && n.camera->0.crop_factor == c.crop_factor
        }),
{
    lemma_element_names_apart();
}

proof fn lemma_camera_maker_element(s: ParseState, attrs: Seq<Option<XmlAttributeView>>, t: Seq<char>)
    requires
        s.camera is Some,
        !s.done,
        trim(t).len() > 0,
    ensures
        ({
            let c = s.camera->0;
            let n = after_element(s, "maker"@, attrs, t);
            &&& n.camera is Some && n.camera->0.maker == (if c.maker.len() == 0 { trim(t) } else { c.maker })
        }),
{
    lemma_element_names_apart();
}

proof fn lemma_camera_model_element(s: ParseState, attrs: Seq<Option<XmlAttributeView>>, t: Seq<char>)
    requires
        s.camera is Some,
        !s.done,
        trim(t).len() > 0,
    ensures
        ({
            let c = s.camera->0;
            let n = after_element(s, "model"@, attrs, t);
            &&& n.camera is Some && n.camera->0.model == (if c.model.len() == 0 { trim(t) } else { c.model })
        }),
{
    lemma_element_names_apart();
}

proof fn lemma_camera_cropfactor_element(s: ParseState, attrs: Seq<Option<XmlAttributeView>>, t: Seq<char>)
    requires
        s.camera is Some,
        !s.done,
        trim(t).len() > 0,
    ensures
        ({
            let c = s.camera->0;
            let n = after_element(s, "cropfactor"@, attrs, t);
            &&& n.camera is Some && n.camera->0.crop_factor == decimal_or_zero(trim(t))
            &&& n.camera->0.mounts == c.mounts
        }),
{
    lemma_element_names_apart();
}

pub proof fn law_camera_property_elements(s: ParseState, attrs: Seq<Option<XmlAttributeView>>, t: Seq<char>)
    requires
        s.camera is Some,
        !s.done,
        trim(t).len() > 0,
    ensures
        ({
            let c = s.camera->0;
            let n = after_element(s, "mount"@, attrs, t);
            &&& n.camera is Some && n.camera->0.mounts == c.mounts.push(trim(t))
            &&& n.camera->0.maker == c.maker && n.camera->0.model == c.model && n.camera->0.crop_factor == c.crop_factor
        }),
        ({
            let c = s.camera->0;
            let n = after_element(s, "maker"@, attrs, t);
            &&& n.camera is Some && n.camera->0.maker == (if c.maker.len() == 0 { trim(t) } else { c.maker })
        }),
        ({
            let c = s.camera->0;
            let n = after_element(s, "model"@, attrs, t);
            &&& n.camera is Some && n.camera->0.model == (if c.model.len() == 0 { trim(t) } else { c.model })
        }),
        ({
            let c = s.camera->0;
            let n = after_element(s, "cropfactor"@, attrs, t);
            &&& n.camera is Some && n.camera->0.crop_factor == decimal_or_zero(trim(t))
            &&& n.camera->0.mounts == c.mounts
        }),
{
    lemma_camera_mount_element(s, attrs, t);
    lemma_camera_maker_element(s, attrs, t);
    lemma_camera_model_element(s, attrs, t);
    lemma_camera_cropfactor_element(s, attrs, t);
}

} // verus!
