//! The lensfun database in its XML form, read with `xml-rs`: cameras, and lenses
//! with the distortion entries of their calibrations.
use vstd::prelude::*;
use vstd::string::StringSliceAdditionalSpecFns;
use crate::decimal::{Decimal, decimal_of, parse_decimal_str};
use crate::text::{trim, trim_chars, chars_of, push_seq, string_of, eq_ignore_ascii_case};
use crate::xml_events::{XmlAttribute, XmlAttributeView, XmlEvent, XmlEventView, XmlError, attributes_view, same_text};
use crate::xml_readers::{xml_rs_reader, read_xml_rs_event, xml_rs_error_text, xml_rs_event_at, xml_rs_read_length, xml_rs_stops_at, xml_rs_events, event_budget, event_budget_of, lemma_xml_rs_stop_skips, lemma_xml_rs_events_push};

verus! {

pub struct LensfunCamera {
    pub maker: String,
    pub model: String,
    pub mount: String,
    pub cropfactor: Option<Decimal>,
}

#[verifier::ext_equal]
pub struct CameraView {
    pub maker: Seq<char>,
    pub model: Seq<char>,
    pub mount: Seq<char>,
    pub cropfactor: Option<Decimal>,
}

impl View for LensfunCamera {
    type V = CameraView;

    open spec fn view(&self) -> CameraView {
        CameraView { maker: self.maker@, model: self.model@, mount: self.mount@, cropfactor: self.cropfactor }
    }
}

/// A distortion entry of a calibration: the focal length it was measured at, the
/// model, and the model's terms.
pub struct LensfunDistortion {
    pub focal: Decimal,
    pub model: String,
    pub coefficients: Vec<Decimal>,
}

#[verifier::ext_equal]
pub struct DistortionView {
    pub focal: Decimal,
    pub model: Seq<char>,
    pub coefficients: Seq<Decimal>,
}

impl View for LensfunDistortion {
    type V = DistortionView;

    open spec fn view(&self) -> DistortionView {
        DistortionView { focal: self.focal, model: self.model@, coefficients: self.coefficients@ }
    }
}

pub struct LensfunLens {
    pub maker: String,
    pub model: String,
    pub mounts: Vec<String>,
    pub cropfactor: Option<Decimal>,
    pub distortions: Vec<LensfunDistortion>,
}

#[verifier::ext_equal]
pub struct LensView {
    pub maker: Seq<char>,
    pub model: Seq<char>,
    pub mounts: Seq<Seq<char>>,
    pub cropfactor: Option<Decimal>,
    pub distortions: Seq<DistortionView>,
}

pub open spec fn strings_view(s: Seq<String>) -> Seq<Seq<char>> {
    s.map_values(|x: String| x@)
}

pub open spec fn distortions_view(s: Seq<LensfunDistortion>) -> Seq<DistortionView> {
    s.map_values(|d: LensfunDistortion| d@)
}

impl View for LensfunLens {
    type V = LensView;

    open spec fn view(&self) -> LensView {
        LensView {
            maker: self.maker@,
            model: self.model@,
            mounts: strings_view(self.mounts@),
            cropfactor: self.cropfactor,
            distortions: distortions_view(self.distortions@),
        }
    }
}

/// The cameras and lenses of a database, in the order of the file.
pub struct LensfunDatabase {
    pub cameras: Vec<LensfunCamera>,
    pub lenses: Vec<LensfunLens>,
}

#[verifier::ext_equal]
pub struct DatabaseView {
    pub cameras: Seq<CameraView>,
    pub lenses: Seq<LensView>,
}

pub open spec fn cameras_view(s: Seq<LensfunCamera>) -> Seq<CameraView> {
    s.map_values(|c: LensfunCamera| c@)
}

pub open spec fn lenses_view(s: Seq<LensfunLens>) -> Seq<LensView> {
    s.map_values(|l: LensfunLens| l@)
}

impl View for LensfunDatabase {
    type V = DatabaseView;

    open spec fn view(&self) -> DatabaseView {
        DatabaseView { cameras: cameras_view(self.cameras@), lenses: lenses_view(self.lenses@) }
    }
}

pub open spec fn empty_camera() -> CameraView {
    CameraView { maker: Seq::empty(), model: Seq::empty(), mount: Seq::empty(), cropfactor: None }
}

pub open spec fn empty_lens() -> LensView {
    LensView { maker: Seq::empty(), model: Seq::empty(), mounts: Seq::empty(), cropfactor: None, distortions: Seq::empty() }
}

/// The value of the last attribute named `key` (a later attribute of the same name
/// wins).
pub open spec fn attr_value(attrs: Seq<Option<XmlAttributeView>>, key: Seq<char>) -> Option<Seq<char>>
    decreases attrs.len(),
{
    if attrs.len() == 0 {
        None
    } else if attrs.last() is Some && attrs.last()->0.key == key {
        attrs.last()->0.value
    } else {
        attr_value(attrs.drop_last(), key)
    }
}

/// The number that the attribute `key` gives, read as `default` where there is no
/// such attribute.
pub open spec fn number_or(attrs: Seq<Option<XmlAttributeView>>, key: Seq<char>, default: Seq<char>) -> Option<Decimal> {
    decimal_of(
        match attr_value(attrs, key) {
            Some(v) => v,
            None => default,
        },
    )
}

/// The distortion entry that a `distortion` element's attributes describe: a model,
/// a focal length, and the terms of the model (a missing term reads as zero); `None`
/// for a model that is not `poly3`, `poly5`, `ptlens` or `none`, and where a number
/// does not read.
pub open spec fn distortion_of_attrs(attrs: Seq<Option<XmlAttributeView>>) -> Option<DistortionView> {
    match attr_value(attrs, "model"@) {
        None => None,
        Some(model) => match number_or(attrs, "focal"@, Seq::empty()) {
            None => None,
            Some(focal) => {
                let k1 = number_or(attrs, "k1"@, "0"@);
                let k2 = number_or(attrs, "k2"@, "0"@);
                let a = number_or(attrs, "a"@, "0"@);
                let b = number_or(attrs, "b"@, "0"@);
                let c = number_or(attrs, "c"@, "0"@);
                if model == "poly3"@ {
                    if k1 is Some {
                        Some(DistortionView { focal, model, coefficients: seq![k1->0] })
                    } else {
                        None
                    }
                } else if model == "poly5"@ {
                    if k1 is Some && k2 is Some {
                        Some(DistortionView { focal, model, coefficients: seq![k1->0, k2->0] })
                    } else {
                        None
                    }
                } else if model == "ptlens"@ {
                    if a is Some && b is Some && c is Some {
                        Some(DistortionView { focal, model, coefficients: seq![a->0, b->0, c->0] })
                    } else {
                        None
                    }
                } else if model == "none"@ {
                    Some(DistortionView { focal, model, coefficients: Seq::empty() })
                } else {
                    None
                }
            },
        },
    }
}

/// The elements open around the current one include a lens and a calibration.
pub open spec fn in_calibration(stack: Seq<Seq<char>>) -> bool {
    stack.contains("lens"@) && stack.contains("calibration"@)
}

/// What the reader has gathered after some events of a document.
#[verifier::ext_equal]
pub struct DbReadState {
    pub db: DatabaseView,
    pub stack: Seq<Seq<char>>,
    pub text: Seq<char>,
    pub camera: Option<CameraView>,
    pub lens: Option<LensView>,
    pub done: bool,
}

pub open spec fn db_read_start() -> DbReadState {
    DbReadState {
        db: DatabaseView { cameras: Seq::empty(), lenses: Seq::empty() },
        stack: Seq::empty(),
        text: Seq::empty(),
        camera: None,
        lens: None,
        done: false,
    }
}

/// An opening tag: a camera or a lens begins, or a distortion entry inside a lens's
/// calibration is added to the lens.
pub open spec fn db_on_start(st: DbReadState, name: Seq<char>, attrs: Seq<Option<XmlAttributeView>>) -> DbReadState {
    let camera = if name == "camera"@ { Some(empty_camera()) } else { st.camera };
    let lens = if name == "lens"@ {
        Some(empty_lens())
    } else if name == "distortion"@ && in_calibration(st.stack) && distortion_of_attrs(attrs) is Some && st.lens is Some {
        Some(LensView { distortions: st.lens->0.distortions.push(distortion_of_attrs(attrs)->0), ..st.lens->0 })
    } else {
        st.lens
    };
    DbReadState { text: Seq::empty(), camera, lens, stack: st.stack.push(name), ..st }
}

/// A closing tag of a lens's property sets it from the element's trimmed text.
pub open spec fn lens_with(l: LensView, tag: Seq<char>, value: Seq<char>) -> LensView {
    if tag == "maker"@ {
        LensView { maker: value, ..l }
    } else if tag == "model"@ {
        LensView { model: value, ..l }
    } else if tag == "mount"@ && value.len() > 0 {
        LensView { mounts: l.mounts.push(value), ..l }
    } else if tag == "cropfactor"@ {
        LensView { cropfactor: decimal_of(value), ..l }
    } else {
        l
    }
}

/// A closing tag of a camera's property sets it from the element's trimmed text.
pub open spec fn camera_with(c: CameraView, tag: Seq<char>, value: Seq<char>) -> CameraView {
    if tag == "maker"@ {
        CameraView { maker: value, ..c }
    } else if tag == "model"@ {
        CameraView { model: value, ..c }
    } else if tag == "mount"@ {
        CameraView { mount: value, ..c }
    } else if tag == "cropfactor"@ {
        CameraView { cropfactor: decimal_of(value), ..c }
    } else {
        c
    }
}

/// A closing tag: a property of the lens (or, where no lens is open, of the camera)
/// is set; a camera or a lens that ends is kept where it has a model.
pub open spec fn db_on_end(st: DbReadState, name: Seq<char>) -> DbReadState {
    let value = trim(st.text);
    let lens1 = if st.lens is Some { Some(lens_with(st.lens->0, name, value)) } else { st.lens };
    let camera1 = if st.lens is None && st.camera is Some { Some(camera_with(st.camera->0, name, value)) } else { st.camera };
    let cameras = if name == "camera"@ && camera1 is Some && camera1->0.model.len() > 0 {
        st.db.cameras.push(camera1->0)
    } else {
        st.db.cameras
    };
    let lenses = if name == "lens"@ && lens1 is Some && lens1->0.model.len() > 0 {
        st.db.lenses.push(lens1->0)
    } else {
        st.db.lenses
    };
    DbReadState {
        db: DatabaseView { cameras, lenses },
        stack: if st.stack.len() > 0 { st.stack.drop_last() } else { st.stack },
        text: Seq::empty(),
        camera: if name == "camera"@ { None } else { camera1 },
        lens: if name == "lens"@ { None } else { lens1 },
        done: st.done,
    }
}

/// The effect of one event of the document.
pub open spec fn db_step(st: DbReadState, ev: XmlEventView) -> DbReadState {
    match ev {
        XmlEventView::Start { name, attributes } => db_on_start(st, name, attributes),
        XmlEventView::End { name } => db_on_end(st, name),
        XmlEventView::Text { text } => DbReadState { text: st.text + text, ..st },
        XmlEventView::CData { text } => DbReadState { text: st.text + text, ..st },
        XmlEventView::Eof => DbReadState { done: true, ..st },
        _ => st,
    }
}

/// The effect of a sequence of events, from the start.
pub open spec fn db_run(evs: Seq<XmlEventView>) -> DbReadState
    decreases evs.len(),
{
    if evs.len() == 0 {
        db_read_start()
    } else {
        db_step(db_run(evs.drop_last()), evs.last())
    }
}


/// The value of the last attribute named `key`.
fn attr_lookup<'a>(attrs: &'a Vec<Option<XmlAttribute>>, key: &str) -> (r: Option<&'a String>)
    ensures
        match attr_value(attributes_view(attrs@), key@) {
            Some(v) => r matches Some(s) && s@ == v,
            None => r is None,
        },
{
    let mut i = attrs.len();
    assert(attrs@.take(i as int) =~= attrs@);
    while i > 0
        invariant
            i <= attrs@.len(),
            attr_value(attributes_view(attrs@), key@) == attr_value(attributes_view(attrs@.take(i as int)), key@),
        decreases i,
    {
        let ghost t = attributes_view(attrs@.take(i as int));
        assert(t.drop_last() =~= attributes_view(attrs@.take(i - 1)));
        assert(t.last() == match attrs@[i - 1] { Some(a) => Some(a@), None => None });
        match &attrs[i - 1] {
            Some(a) => {
                if same_text(a.key.as_str(), key) {
                    return match &a.value {
                        Some(v) => Some(v),
                        None => None,
                    };
                }
            },
            None => {},
        }
        i = i - 1;
    }
    None
}

/// The number that the attribute `key` gives, read as `default` where it is missing.
fn attr_number(attrs: &Vec<Option<XmlAttribute>>, key: &str, default: &str) -> (r: Option<Decimal>)
    ensures
        r == number_or(attributes_view(attrs@), key@, default@),
{
    match attr_lookup(attrs, key) {
        Some(v) => parse_decimal_str(v.as_str()),
        None => parse_decimal_str(default),
    }
}

/// A term of a distortion model; a missing one reads as zero.
fn parse_attr(attrs: &Vec<Option<XmlAttribute>>, key: &str) -> (r: Option<Decimal>)
    ensures
        r == number_or(attributes_view(attrs@), key@, "0"@),
{
    attr_number(attrs, key, "0")
}

/// A number as the database writes it.
fn parse_f64(value: &str) -> (r: Option<Decimal>)
    ensures
        r == decimal_of(value@),
{
    parse_decimal_str(value)
}

impl LensfunDistortion {
    /// The distortion entry that a `distortion` element's attributes describe.
    pub fn from_attributes(attributes: &Vec<Option<XmlAttribute>>) -> (r: Option<LensfunDistortion>)
        ensures
            match distortion_of_attrs(attributes_view(attributes@)) {
                Some(d) => r matches Some(x) && x@ == d,
                None => r is None,
            },
    {
        let model = match attr_lookup(attributes, "model") {
            Some(m) => m.clone(),
            None => {
                return None;
            },
        };
        proof {
            reveal_strlit("");
            assert(""@ =~= Seq::<char>::empty());
        }
        let focal = match attr_number(attributes, "focal", "") {
            Some(f) => f,
            None => {
                return None;
            },
        };
        let ghost attrs = attributes_view(attributes@);
        let mut coefficients: Vec<Decimal> = Vec::new();
        if same_text(model.as_str(), "poly3") {
            match parse_attr(attributes, "k1") {
                Some(k1) => {
                    coefficients.push(k1);
                    assert(coefficients@ =~= seq![k1]);
                },
                None => {
                    return None;
                },
            }
        } else if same_text(model.as_str(), "poly5") {
            match (parse_attr(attributes, "k1"), parse_attr(attributes, "k2")) {
                (Some(k1), Some(k2)) => {
                    coefficients.push(k1);
                    coefficients.push(k2);
                    assert(coefficients@ =~= seq![k1, k2]);
                },
                _ => {
                    return None;
                },
            }
        } else if same_text(model.as_str(), "ptlens") {
            match (parse_attr(attributes, "a"), parse_attr(attributes, "b"), parse_attr(attributes, "c")) {
                (Some(a), Some(b), Some(c)) => {
                    coefficients.push(a);
                    coefficients.push(b);
                    coefficients.push(c);
                    assert(coefficients@ =~= seq![a, b, c]);
                },
                _ => {
                    return None;
                },
            }
        } else if !same_text(model.as_str(), "none") {
            return None;
        }
        Some(LensfunDistortion { focal, model, coefficients })
    }

    pub open spec fn spec_is_supported(&self) -> bool {
        self.model@ == "poly3"@ || self.model@ == "poly5"@ || self.model@ == "ptlens"@
    }

    /// Whether the model is one the engine corrects (`poly3`, `poly5` or `ptlens`).
    pub fn is_supported(&self) -> (r: bool)
        ensures
            r == self.spec_is_supported(),
    {
        same_text(self.model.as_str(), "poly3") || same_text(self.model.as_str(), "poly5")
            || same_text(self.model.as_str(), "ptlens")
    }
}

/// Whether the elements open around the current one include a lens and a calibration.
pub fn in_lens_calibration(stack: &[String]) -> (r: bool)
    ensures
        r == in_calibration(strings_view(stack@)),
{
    let mut has_lens = false;
    let mut has_calibration = false;
    let mut i: usize = 0;
    while i < stack.len()
        invariant
            i <= stack@.len(),
            has_lens == strings_view(stack@.take(i as int)).contains("lens"@),
            has_calibration == strings_view(stack@.take(i as int)).contains("calibration"@),
        decreases stack@.len() - i,
    {
        let ghost before = strings_view(stack@.take(i as int));
        let ghost after = strings_view(stack@.take(i + 1));
        assert(after =~= before.push(stack@[i as int]@));
        if same_text(stack[i].as_str(), "lens") {
            has_lens = true;
            assert(after[i as int] == "lens"@);
        }
        if same_text(stack[i].as_str(), "calibration") {
            has_calibration = true;
            assert(after[i as int] == "calibration"@);
        }
        proof {
            if before.contains("lens"@) {
                let k = choose|k: int| 0 <= k < before.len() && before[k] == "lens"@;
                assert(after[k] == "lens"@);
            }
            if after.contains("lens"@) && !before.contains("lens"@) {
                let k = choose|k: int| 0 <= k < after.len() && after[k] == "lens"@;
                if k < i {
                    assert(before[k] == "lens"@);
                }
            }
            if before.contains("calibration"@) {
                let k = choose|k: int| 0 <= k < before.len() && before[k] == "calibration"@;
                assert(after[k] == "calibration"@);
            }
            if after.contains("calibration"@) && !before.contains("calibration"@) {
                let k = choose|k: int| 0 <= k < after.len() && after[k] == "calibration"@;
                if k < i {
                    assert(before[k] == "calibration"@);
                }
            }
        }
        i = i + 1;
    }
    assert(stack@.take(stack@.len() as int) =~= stack@);
    has_lens && has_calibration
}


impl LensfunCamera {
    /// A camera with nothing set.
    pub fn new() -> (r: LensfunCamera)
        ensures
            r@ == empty_camera(),
    {
        LensfunCamera { maker: String::new(), model: String::new(), mount: String::new(), cropfactor: None }
    }

    /// Sets the property that a closing tag names from the element's trimmed text.
    fn set_property(&mut self, tag: &String, value: &String)
        ensures
            final(self)@ == camera_with(old(self)@, tag@, value@),
    {
        if same_text(tag.as_str(), "maker") {
            self.maker = value.clone();
        } else if same_text(tag.as_str(), "model") {
            self.model = value.clone();
        } else if same_text(tag.as_str(), "mount") {
            self.mount = value.clone();
        } else if same_text(tag.as_str(), "cropfactor") {
            self.cropfactor = parse_f64(value.as_str());
        }
    }
}

impl LensfunLens {
    /// A lens with nothing set.
    pub fn new() -> (r: LensfunLens)
        ensures
            r@ == empty_lens(),
    {
        let r = LensfunLens {
            maker: String::new(),
            model: String::new(),
            mounts: Vec::new(),
            cropfactor: None,
            distortions: Vec::new(),
        };
        assert(r@.mounts =~= Seq::<Seq<char>>::empty());
        assert(r@.distortions =~= Seq::<DistortionView>::empty());
        r
    }

    /// Sets the property that a closing tag names from the element's trimmed text.
    fn set_property(&mut self, tag: &String, value: &String)
        ensures
            final(self)@ == lens_with(old(self)@, tag@, value@),
    {
        if same_text(tag.as_str(), "maker") {
            self.maker = value.clone();
        } else if same_text(tag.as_str(), "model") {
            self.model = value.clone();
        } else if same_text(tag.as_str(), "mount") && !value.as_str().is_empty() {
            let ghost before = self.mounts@;
            self.mounts.push(value.clone());
            assert(strings_view(self.mounts@) =~= strings_view(before).push(value@));
        } else if same_text(tag.as_str(), "cropfactor") {
            self.cropfactor = parse_f64(value.as_str());
        }
    }

    /// Adds a distortion entry.
    fn add_distortion(&mut self, d: LensfunDistortion)
        ensures
            final(self)@ == (LensView { distortions: old(self)@.distortions.push(d@), ..old(self)@ }),
    {
        let ghost before = self.distortions@;
        self.distortions.push(d);
        assert(distortions_view(self.distortions@) =~= distortions_view(before).push(d@));
    }
}

/// The names of the elements the reader looks for are all different.
proof fn lemma_tag_names()
    ensures
        "camera"@ != "lens"@,
        "camera"@ != "distortion"@,
        "lens"@ != "distortion"@,
        "maker"@ != "model"@,
        "maker"@ != "mount"@,
        "maker"@ != "cropfactor"@,
        "model"@ != "mount"@,
        "model"@ != "cropfactor"@,
        "mount"@ != "cropfactor"@,
        "camera"@ != "maker"@ && "camera"@ != "model"@ && "camera"@ != "mount"@ && "camera"@ != "cropfactor"@,
        "lens"@ != "maker"@ && "lens"@ != "model"@ && "lens"@ != "mount"@ && "lens"@ != "cropfactor"@,
{
    reveal_strlit("camera");
    reveal_strlit("lens");
    reveal_strlit("distortion");
    reveal_strlit("maker");
    reveal_strlit("model");
    reveal_strlit("mount");
    reveal_strlit("cropfactor");
    assert("camera"@.len() == 6);
    assert("lens"@.len() == 4);
    assert("distortion"@.len() == 10);
    assert("cropfactor"@.len() == 10);
    assert("maker"@.len() == 5);
    assert("model"@.len() == 5);
    assert("mount"@.len() == 5);
    assert("maker"@[1] != "model"@[1]);
    assert("maker"@[1] != "mount"@[1]);
    assert("model"@[2] != "mount"@[2]);
}

pub open spec fn opt_camera_view(c: Option<LensfunCamera>) -> Option<CameraView> {
    match c {
        Some(c) => Some(c@),
        None => None,
    }
}

pub open spec fn opt_lens_view(l: Option<LensfunLens>) -> Option<LensView> {
    match l {
        Some(l) => Some(l@),
        None => None,
    }
}

/// Reads a lensfun document event by event (see `db_step`).
pub struct LensfunDbReader {
    db: LensfunDatabase,
    stack: Vec<String>,
    text: Vec<char>,
    camera: Option<LensfunCamera>,
    lens: Option<LensfunLens>,
    done: bool,
}

impl View for LensfunDbReader {
    type V = DbReadState;

    closed spec fn view(&self) -> DbReadState {
        DbReadState {
            db: self.db@,
            stack: strings_view(self.stack@),
            text: self.text@,
            camera: opt_camera_view(self.camera),
            lens: opt_lens_view(self.lens),
            done: self.done,
        }
    }
}

impl LensfunDbReader {
    /// A reader that has seen no event.
    pub fn new() -> (r: LensfunDbReader)
        ensures
            r@ == db_read_start(),
    {
        let r = LensfunDbReader {
            db: LensfunDatabase { cameras: Vec::new(), lenses: Vec::new() },
            stack: Vec::new(),
            text: Vec::new(),
            camera: None,
            lens: None,
            done: false,
        };
        assert(r@.db.cameras =~= Seq::<CameraView>::empty());
        assert(r@.db.lenses =~= Seq::<LensView>::empty());
        assert(r@.stack =~= Seq::<Seq<char>>::empty());
        r
    }

    fn on_start(&mut self, name: &String, attributes: &Vec<Option<XmlAttribute>>)
        ensures
            final(self)@ == db_on_start(old(self)@, name@, attributes_view(attributes@)),
    {
        proof {
            lemma_tag_names();
        }
        self.text = Vec::new();
        if same_text(name.as_str(), "camera") {
            self.camera = Some(LensfunCamera::new());
        } else if same_text(name.as_str(), "lens") {
            self.lens = Some(LensfunLens::new());
        } else if same_text(name.as_str(), "distortion") {
            if in_lens_calibration(self.stack.as_slice()) {
                match LensfunDistortion::from_attributes(attributes) {
                    Some(d) => {
                        match self.lens.take() {
                            Some(mut l) => {
                                l.add_distortion(d);
                                self.lens = Some(l);
                            },
                            None => {},
                        }
                    },
                    None => {},
                }
            }
        }
        let ghost before = self.stack@;
        self.stack.push(name.clone());
        assert(strings_view(self.stack@) =~= strings_view(before).push(name@));
    }

    fn on_end(&mut self, name: &String)
        ensures
            final(self)@ == db_on_end(old(self)@, name@),
    {
        proof {
            lemma_tag_names();
        }
        let value = string_of(trim_chars(self.text.as_slice()).as_slice());
        match self.lens.take() {
            Some(mut l) => {
                l.set_property(name, &value);
                self.lens = Some(l);
            },
            None => match self.camera.take() {
                Some(mut c) => {
                    c.set_property(name, &value);
                    self.camera = Some(c);
                },
                None => {},
            },
        }
        if same_text(name.as_str(), "camera") {
            match self.camera.take() {
                Some(c) => {
                    if !c.model.as_str().is_empty() {
                        let ghost before = self.db.cameras@;
                        self.db.cameras.push(c);
                        assert(cameras_view(self.db.cameras@) =~= cameras_view(before).push(c@));
                    }
                },
                None => {},
            }
        } else if same_text(name.as_str(), "lens") {
            match self.lens.take() {
                Some(l) => {
                    if !l.model.as_str().is_empty() {
                        let ghost before = self.db.lenses@;
                        self.db.lenses.push(l);
                        assert(lenses_view(self.db.lenses@) =~= lenses_view(before).push(l@));
                    }
                },
                None => {},
            }
        }
        let ghost before = self.stack@;
        let _ = self.stack.pop();
        assert(strings_view(self.stack@) =~= if before.len() > 0 {
            strings_view(before).drop_last()
        } else {
            strings_view(before)
        });
        self.text = Vec::new();
    }

    /// Takes in the next event of the document.
    pub fn feed(&mut self, ev: &XmlEvent)
        ensures
            final(self)@ == db_step(old(self)@, ev@),
    {
        match ev {
            XmlEvent::Start { name, attributes } => self.on_start(name, attributes),
            XmlEvent::End { name } => self.on_end(name),
            XmlEvent::Text { text } => crate::text::push_chars(&mut self.text, text.as_str()),
            XmlEvent::CData { text } => crate::text::push_chars(&mut self.text, text.as_str()),
            XmlEvent::Eof => {
                self.done = true;
            },
            _ => {},
        }
    }

    /// Whether the end of the document has been seen.
    pub fn is_done(&self) -> (r: bool)
        ensures
            r == self@.done,
    {
        self.done
    }

    /// The cameras and lenses read.
    pub fn into_database(self) -> (r: LensfunDatabase)
        ensures
            r@ == self@.db,
    {
        self.db
    }
}

/// Whether `xml-rs` reads the document to its end, without an error, within the
/// event budget.
pub open spec fn reads_to_end(doc: Seq<u8>) -> bool {
    &&& xml_rs_read_length(doc) < event_budget(doc.len() as int)
    &&& xml_rs_event_at(doc, xml_rs_read_length(doc)) == Some(XmlEventView::Eof)
}

/// The database that a document describes: what its events, up to and with the end
/// of the document, give (see `db_step`).
pub open spec fn database_read(doc: Seq<u8>) -> DatabaseView {
    db_run(xml_rs_events(doc, xml_rs_read_length(doc) + 1)).db
}

impl LensfunDatabase {
    /// Reads a lensfun database from the bytes of its XML document. The document is
    /// read with `xml-rs`, which reports one event for each opening and closing tag,
    /// each piece of character data and each CDATA section, and the end of the
    /// document; the cameras and lenses are those the events describe (see
    /// `db_step`). A document that `xml-rs` cannot read gives its error, and so does
    /// one that gives more events than `event_budget` allows for its length.
    pub fn from_reader(reader: &[u8]) -> (r: Result<LensfunDatabase, XmlError>)
        ensures
            r is Ok <==> reads_to_end(reader@),
            r matches Ok(db) ==> db@ == database_read(reader@),
            r matches Ok(db) ==> database_well_formed(db@),
    {
        let ghost doc = reader@;
        let mut events = xml_rs_reader(reader);
        let mut st = LensfunDbReader::new();
        let ghost bound = event_budget(doc.len() as int);
        let mut budget: usize = event_budget_of(reader.len());
        let mut n: usize = 0;
        loop
            invariant
                doc == reader@,
                bound == event_budget(doc.len() as int),
                events@ == (doc, n as int),
                n + budget == bound,
                st@ == db_run(xml_rs_events(doc, n as int)),
                !st@.done,
                forall|j: int| 0 <= j < n ==> !#[trigger] xml_rs_stops_at(doc, j),
            decreases budget,
        {
            proof {
                lemma_xml_rs_stop_skips(doc, 0, n as int, bound);
            }
            if budget == 0 {
                let mut m: Vec<char> = Vec::new();
                crate::text::push_chars(&mut m, "the reader gave more events than the document has bytes for");
                return Err(XmlError { message: string_of(m.as_slice()) });
            }
            let ev = match read_xml_rs_event(&mut events) {
                Ok(ev) => ev,
                Err(e) => {
                    return Err(XmlError { message: xml_rs_error_text(&e) });
                },
            };
            proof {
                lemma_xml_rs_events_push(doc, n as int, ev@);
                assert(xml_rs_events(doc, n as int).push(ev@).drop_last() =~= xml_rs_events(doc, n as int));
            }
            st.feed(&ev);
            if st.is_done() {
                assert(ev@ is Eof);
                assert(xml_rs_stops_at(doc, n as int));
                proof {
                    law_read_database_well_formed(xml_rs_events(doc, n as int + 1));
                }
                let db = st.into_database();
                return Ok(db);
            }
            assert(!(ev@ is Eof));
            budget = budget - 1;
            n = n + 1;
        }
    }

    /// Reads a lensfun database from the text of its XML document.
    pub fn from_xml_str(xml: &str) -> (r: Result<LensfunDatabase, XmlError>)
        ensures
            r is Ok <==> reads_to_end(xml.spec_bytes()),
            r matches Ok(db) ==> db@ == database_read(xml.spec_bytes()),
            r matches Ok(db) ==> database_well_formed(db@),
    {
        LensfunDatabase::from_reader(xml.as_bytes())
    }
}


/// What the selectors show of a lens.
pub struct LensfunLensMetadata {
    pub maker: String,
    pub model: String,
    pub mounts: Vec<String>,
    pub cropfactor: Option<Decimal>,
    pub focal_lengths: Vec<Decimal>,
    pub distortion_models: Vec<String>,
}

#[verifier::ext_equal]
pub struct MetadataView {
    pub maker: Seq<char>,
    pub model: Seq<char>,
    pub mounts: Seq<Seq<char>>,
    pub cropfactor: Option<Decimal>,
    pub focal_lengths: Seq<Decimal>,
    pub distortion_models: Seq<Seq<char>>,
}

impl View for LensfunLensMetadata {
    type V = MetadataView;

    open spec fn view(&self) -> MetadataView {
        MetadataView {
            maker: self.maker@,
            model: self.model@,
            mounts: strings_view(self.mounts@),
            cropfactor: self.cropfactor,
            focal_lengths: self.focal_lengths@,
            distortion_models: strings_view(self.distortion_models@),
        }
    }
}

/// The metadata of a lens: its names, mounts and crop factor, and the focal length
/// and model of each distortion entry, in order.
pub open spec fn metadata_of(l: LensView) -> MetadataView {
    MetadataView {
        maker: l.maker,
        model: l.model,
        mounts: l.mounts,
        cropfactor: l.cropfactor,
        focal_lengths: l.distortions.map_values(|d: DistortionView| d.focal),
        distortion_models: l.distortions.map_values(|d: DistortionView| d.model),
    }
}

pub open spec fn supports(l: LensView, mount: Seq<char>) -> bool {
    exists|i: int| 0 <= i < l.mounts.len() && crate::text::same_ascii_case_blind(#[trigger] l.mounts[i], mount)
}

/// The lenses of `s` that fit `mount`, in order.
pub open spec fn lenses_on(s: Seq<LensView>, mount: Seq<char>) -> Seq<LensView>
    decreases s.len(),
{
    if s.len() == 0 {
        Seq::empty()
    } else if supports(s.last(), mount) {
        lenses_on(s.drop_last(), mount).push(s.last())
    } else {
        lenses_on(s.drop_last(), mount)
    }
}

pub open spec fn distortion_supported(d: DistortionView) -> bool {
    d.model == "poly3"@ || d.model == "poly5"@ || d.model == "ptlens"@
}

/// The focal lengths of the entries of `s` whose model the engine corrects, in order.
pub open spec fn supported_focals(s: Seq<DistortionView>) -> Seq<Decimal>
    decreases s.len(),
{
    if s.len() == 0 {
        Seq::empty()
    } else if distortion_supported(s.last()) {
        supported_focals(s.drop_last()).push(s.last().focal)
    } else {
        supported_focals(s.drop_last())
    }
}

/// The name shown for a lens: maker and model, trimmed, with a space between where
/// both are there.
pub open spec fn display_name_of(maker: Seq<char>, model: Seq<char>) -> Seq<char> {
    let a = trim(maker);
    let b = trim(model);
    if a.len() > 0 && b.len() > 0 {
        a + " "@ + b
    } else if a.len() > 0 {
        a
    } else {
        b
    }
}

fn clone_strings(v: &Vec<String>) -> (r: Vec<String>)
    ensures
        strings_view(r@) == strings_view(v@),
{
    let mut r: Vec<String> = Vec::new();
    let mut i: usize = 0;
    while i < v.len()
        invariant
            i <= v@.len(),
            strings_view(r@) == strings_view(v@.take(i as int)),
        decreases v@.len() - i,
    {
        let ghost before = r@;
        r.push(v[i].clone());
        assert(strings_view(r@) =~= strings_view(before).push(v@[i as int]@));
        assert(strings_view(v@.take(i + 1)) =~= strings_view(v@.take(i as int)).push(v@[i as int]@));
        i = i + 1;
    }
    assert(v@.take(v@.len() as int) =~= v@);
    r
}

impl LensfunLens {
    /// Whether one of the lens's mounts is `mount`, up to ASCII case.
    pub fn supports_mount(&self, mount: &str) -> (r: bool)
        ensures
            r == supports(self@, mount@),
    {
        let mut i: usize = 0;
        while i < self.mounts.len()
            invariant
                i <= self.mounts@.len(),
                forall|j: int| 0 <= j < i ==> !crate::text::same_ascii_case_blind(#[trigger] strings_view(self.mounts@)[j], mount@),
            decreases self.mounts@.len() - i,
        {
            if eq_ignore_ascii_case(self.mounts[i].as_str(), mount) {
                assert(strings_view(self.mounts@)[i as int] == self.mounts@[i as int]@);
                assert(crate::text::same_ascii_case_blind(self@.mounts[i as int], mount@));
                return true;
            }
            i = i + 1;
        }
        false
    }

    /// Maker and model, trimmed, joined by a space where both are there.
    pub fn display_name(&self) -> (r: String)
        ensures
            r@ == display_name_of(self.maker@, self.model@),
    {
        let a = trim_chars(chars_of(self.maker.as_str()).as_slice());
        let b = trim_chars(chars_of(self.model.as_str()).as_slice());
        let mut v: Vec<char> = Vec::new();
        if a.len() > 0 && b.len() > 0 {
            push_seq(&mut v, a.as_slice());
            crate::text::push_chars(&mut v, " ");
            push_seq(&mut v, b.as_slice());
        } else if a.len() > 0 {
            push_seq(&mut v, a.as_slice());
        } else {
            push_seq(&mut v, b.as_slice());
        }
        string_of(v.as_slice())
    }

    /// The focal lengths of the distortion entries whose model the engine corrects.
    pub fn supported_focal_lengths(&self) -> (r: Vec<Decimal>)
        ensures
            r@ == supported_focals(self@.distortions),
    {
        let mut r: Vec<Decimal> = Vec::new();
        let mut i: usize = 0;
        while i < self.distortions.len()
            invariant
                i <= self.distortions@.len(),
                r@ == supported_focals(distortions_view(self.distortions@.take(i as int))),
            decreases self.distortions@.len() - i,
        {
            let ghost t = distortions_view(self.distortions@.take(i + 1));
            assert(t.drop_last() =~= distortions_view(self.distortions@.take(i as int)));
            assert(t.last() == self.distortions@[i as int]@);
            if self.distortions[i].is_supported() {
                r.push(self.distortions[i].focal);
            }
            i = i + 1;
        }
        assert(self.distortions@.take(self.distortions@.len() as int) =~= self.distortions@);
        r
    }
}

impl LensfunDatabase {
    /// The metadata of each lens, in order.
    pub fn lens_metadata(&self) -> (r: Vec<LensfunLensMetadata>)
        ensures
            r@.len() == self@.lenses.len(),
            forall|i: int| 0 <= i < r@.len() ==> (#[trigger] r@[i])@ == metadata_of(self@.lenses[i]),
    {
        let mut r: Vec<LensfunLensMetadata> = Vec::new();
        let mut i: usize = 0;
        while i < self.lenses.len()
            invariant
                i <= self.lenses@.len(),
                r@.len() == i,
                forall|j: int| 0 <= j < i ==> (#[trigger] r@[j])@ == metadata_of(self@.lenses[j]),
            decreases self.lenses@.len() - i,
        {
            let lens = &self.lenses[i];
            let mut focal_lengths: Vec<Decimal> = Vec::new();
            let mut distortion_models: Vec<String> = Vec::new();
            let mut k: usize = 0;
            while k < lens.distortions.len()
                invariant
                    k <= lens.distortions@.len(),
                    focal_lengths@ == distortions_view(lens.distortions@).take(k as int).map_values(|d: DistortionView| d.focal),
                    strings_view(distortion_models@) == distortions_view(lens.distortions@).take(k as int).map_values(|d: DistortionView| d.model),
                decreases lens.distortions@.len() - k,
            {
                let ghost dv = distortions_view(lens.distortions@);
                let ghost fb = focal_lengths@;
                let ghost mb = distortion_models@;
                focal_lengths.push(lens.distortions[k].focal);
                distortion_models.push(lens.distortions[k].model.clone());
                assert(dv.take(k + 1) =~= dv.take(k as int).push(dv[k as int]));
                assert(focal_lengths@ =~= dv.take(k + 1).map_values(|d: DistortionView| d.focal));
                assert(strings_view(distortion_models@) =~= strings_view(mb).push(lens.distortions@[k as int].model@));
                assert(strings_view(distortion_models@) =~= dv.take(k + 1).map_values(|d: DistortionView| d.model));
                k = k + 1;
            }
            assert(distortions_view(lens.distortions@).take(lens.distortions@.len() as int) =~= distortions_view(lens.distortions@));
            let m = LensfunLensMetadata {
                maker: lens.maker.clone(),
                model: lens.model.clone(),
                mounts: clone_strings(&lens.mounts),
                cropfactor: lens.cropfactor,
                focal_lengths,
                distortion_models,
            };
            assert(m@ =~= metadata_of(self@.lenses[i as int]));
            r.push(m);
            i = i + 1;
        }
        r
    }

    /// Adds the cameras and lenses of `other` after those of this database.
    pub fn extend(&mut self, other: LensfunDatabase)
        ensures
            final(self)@.cameras == old(self)@.cameras + other@.cameras,
            final(self)@.lenses == old(self)@.lenses + other@.lenses,
    {
        let mut other = other;
        let ghost c0 = self.cameras@;
        let ghost l0 = self.lenses@;
        let ghost oc = other.cameras@;
        let ghost ol = other.lenses@;
        self.cameras.append(&mut other.cameras);
        self.lenses.append(&mut other.lenses);
        assert(cameras_view(self.cameras@) =~= cameras_view(c0) + cameras_view(oc));
        assert(lenses_view(self.lenses@) =~= lenses_view(l0) + lenses_view(ol));
    }

    /// The lenses that fit `mount` (up to ASCII case), in order.
    pub fn lenses_for_mount<'a>(&'a self, mount: &str) -> (r: Vec<&'a LensfunLens>)
        ensures
            r@.map_values(|l: &LensfunLens| l@) == lenses_on(self@.lenses, mount@),
    {
        let mut r: Vec<&'a LensfunLens> = Vec::new();
        let mut i: usize = 0;
        while i < self.lenses.len()
            invariant
                i <= self.lenses@.len(),
                r@.map_values(|l: &LensfunLens| l@) == lenses_on(lenses_view(self.lenses@.take(i as int)), mount@),
            decreases self.lenses@.len() - i,
        {
            let ghost t = lenses_view(self.lenses@.take(i + 1));
            let ghost before = r@;
            assert(t.drop_last() =~= lenses_view(self.lenses@.take(i as int)));
            assert(t.last() == self.lenses@[i as int]@);
            let lens = &self.lenses[i];
            if lens.supports_mount(mount) {
                r.push(lens);
                assert(r@.map_values(|l: &LensfunLens| l@) =~= before.map_values(|l: &LensfunLens| l@).push(lens@));
            }
            i = i + 1;
        }
        assert(self.lenses@.take(self.lenses@.len() as int) =~= self.lenses@);
        r
    }
}


/// A distortion entry has one of the models the reader knows, with as many terms as
/// the model takes.
pub open spec fn distortion_well_formed(d: DistortionView) -> bool {
    ||| (d.model == "poly3"@ && d.coefficients.len() == 1)
    ||| (d.model == "poly5"@ && d.coefficients.len() == 2)
    ||| (d.model == "ptlens"@ && d.coefficients.len() == 3)
    ||| (d.model == "none"@ && d.coefficients.len() == 0)
}

pub open spec fn lens_well_formed(l: LensView) -> bool {
    forall|i: int| 0 <= i < l.distortions.len() ==> distortion_well_formed(#[trigger] l.distortions[i])
}

/// Every camera and lens kept has a model, and every distortion entry of a lens is
/// well formed.
pub open spec fn database_well_formed(db: DatabaseView) -> bool {
    &&& forall|i: int| 0 <= i < db.cameras.len() ==> (#[trigger] db.cameras[i]).model.len() > 0
    &&& forall|i: int| 0 <= i < db.lenses.len() ==> (#[trigger] db.lenses[i]).model.len() > 0 && lens_well_formed(db.lenses[i])
}

pub open spec fn read_state_well_formed(st: DbReadState) -> bool {
    &&& database_well_formed(st.db)
    &&& st.lens matches Some(l) ==> lens_well_formed(l)
}

#[verifier::spinoff_prover]
#[verifier::rlimit(40)]
proof fn lemma_distortion_of_attrs_well_formed(attrs: Seq<Option<XmlAttributeView>>)
    ensures
        distortion_of_attrs(attrs) matches Some(d) ==> distortion_well_formed(d),
{
}

proof fn lemma_step_well_formed(st: DbReadState, ev: XmlEventView)
    requires
        read_state_well_formed(st),
    ensures
        read_state_well_formed(db_step(st, ev)),
{
    lemma_tag_names();
    match ev {
        XmlEventView::Start { name, attributes } => {
            lemma_distortion_of_attrs_well_formed(attributes);
            let next = db_step(st, ev);
            if next.lens is Some && name == "distortion"@ && in_calibration(st.stack) && distortion_of_attrs(attributes) is Some && st.lens is Some {
                let l = next.lens->0;
                assert forall|i: int| 0 <= i < l.distortions.len() implies distortion_well_formed(#[trigger] l.distortions[i]) by {
                    if i < st.lens->0.distortions.len() {
                        assert(l.distortions[i] == st.lens->0.distortions[i]);
                    }
                }
            }
        },
        XmlEventView::End { name } => {
            let value = trim(st.text);
            if st.lens is Some {
                let l1 = lens_with(st.lens->0, name, value);
                assert(l1.distortions == st.lens->0.distortions);
            }
            let next = db_step(st, ev);
            assert forall|i: int| 0 <= i < next.db.lenses.len() implies (#[trigger] next.db.lenses[i]).model.len() > 0 && lens_well_formed(next.db.lenses[i]) by {
                if i < st.db.lenses.len() {
                    assert(next.db.lenses[i] == st.db.lenses[i]);
                }
            }
            assert forall|i: int| 0 <= i < next.db.cameras.len() implies (#[trigger] next.db.cameras[i]).model.len() > 0 by {
                if i < st.db.cameras.len() {
                    assert(next.db.cameras[i] == st.db.cameras[i]);
                }
            }
        },
        _ => {},
    }
}

/// Whatever events a document gives, every camera and lens that the reader keeps has
/// a model, and every distortion entry it keeps has a model it knows, with as many
/// terms as that model takes.
pub proof fn law_read_database_well_formed(evs: Seq<XmlEventView>)
    ensures
        database_well_formed(db_run(evs).db),
        read_state_well_formed(db_run(evs)),
    decreases evs.len(),
{
    if evs.len() > 0 {
        law_read_database_well_formed(evs.drop_last());
        lemma_step_well_formed(db_run(evs.drop_last()), evs.last());
    }
}


/// The lenses found for a mount are exactly the lenses of the database that fit it,
/// in the order of the database.
pub proof fn law_lenses_for_mount_fit(s: Seq<LensView>, mount: Seq<char>)
    ensures
        forall|i: int| 0 <= i < lenses_on(s, mount).len() ==> supports(#[trigger] lenses_on(s, mount)[i], mount),
        forall|i: int| 0 <= i < s.len() && supports(#[trigger] s[i], mount) ==> lenses_on(s, mount).contains(s[i]),
        lenses_on(s, mount).len() <= s.len(),
    decreases s.len(),
{
    if s.len() > 0 {
        let p = s.drop_last();
        law_lenses_for_mount_fit(p, mount);
        let r = lenses_on(s, mount);
        let q = lenses_on(p, mount);
        assert forall|i: int| 0 <= i < s.len() && supports(#[trigger] s[i], mount) implies r.contains(s[i]) by {
            if i < s.len() - 1 {
                assert(s[i] == p[i]);
                let k = choose|k: int| 0 <= k < q.len() && q[k] == p[i];
                assert(r[k] == q[k]);
            } else {
                assert(r[r.len() - 1] == s.last());
            }
        }
        assert forall|i: int| 0 <= i < r.len() implies supports(#[trigger] r[i], mount) by {
            if i < q.len() {
                assert(r[i] == q[i]);
            }
        }
    }
}

/// Inside a lens, the closing tag of a property sets it from the element's trimmed
/// text and leaves the others as they were: `maker` and `model` take the text, a
/// `mount` with text adds it after the mounts read before, and `cropfactor` takes the
/// number the text reads as (none where it reads as none).
pub proof fn law_closing_tags_set_lens_properties(st: DbReadState)
    requires
        st.lens is Some,
    ensures
        ({
            let l = st.lens->0;
            let v = trim(st.text);
            let n = db_step(st, XmlEventView::End { name: "cropfactor"@ });
            &&& n.lens is Some
            &&& n.lens->0.cropfactor == decimal_of(v)
            &&& n.lens->0.maker == l.maker && n.lens->0.model == l.model
            &&& n.lens->0.mounts == l.mounts && n.lens->0.distortions == l.distortions
        }),
        ({
            let l = st.lens->0;
            let v = trim(st.text);
            let n = db_step(st, XmlEventView::End { name: "mount"@ });
            &&& n.lens is Some
            &&& n.lens->0.mounts == (if v.len() > 0 { l.mounts.push(v) } else { l.mounts })
            &&& n.lens->0.maker == l.maker && n.lens->0.model == l.model
            &&& n.lens->0.cropfactor == l.cropfactor && n.lens->0.distortions == l.distortions
        }),
        ({
            let l = st.lens->0;
            let n = db_step(st, XmlEventView::End { name: "maker"@ });
            &&& n.lens is Some
            &&& n.lens->0.maker == trim(st.text)
            &&& n.lens->0.model == l.model && n.lens->0.mounts == l.mounts
            &&& n.lens->0.cropfactor == l.cropfactor && n.lens->0.distortions == l.distortions
        }),
        ({
            let l = st.lens->0;
            let n = db_step(st, XmlEventView::End { name: "model"@ });
            &&& n.lens is Some
            &&& n.lens->0.model == trim(st.text)
            &&& n.lens->0.maker == l.maker && n.lens->0.mounts == l.mounts
            &&& n.lens->0.cropfactor == l.cropfactor && n.lens->0.distortions == l.distortions
        }),
{
    lemma_tag_names();
}

/// Outside any lens, the closing tag of a property of the open camera sets it from the
/// element's trimmed text: `maker`, `model` and `mount` take the text, and
/// `cropfactor` the number the text reads as.
pub proof fn law_closing_tags_set_camera_properties(st: DbReadState)
    requires
        st.lens is None,
        st.camera is Some,
    ensures
        ({
            let c = st.camera->0;
            let v = trim(st.text);
            let n = db_step(st, XmlEventView::End { name: "cropfactor"@ });
            &&& n.camera is Some
            &&& n.camera->0.cropfactor == decimal_of(v)
            &&& n.camera->0.maker == c.maker && n.camera->0.model == c.model && n.camera->0.mount == c.mount
        }),
        ({
            let c = st.camera->0;
            let n = db_step(st, XmlEventView::End { name: "mount"@ });
            &&& n.camera is Some
            &&& n.camera->0.mount == trim(st.text)
            &&& n.camera->0.maker == c.maker && n.camera->0.model == c.model && n.camera->0.cropfactor == c.cropfactor
        }),
        ({
            let c = st.camera->0;
            let n = db_step(st, XmlEventView::End { name: "maker"@ });
            &&& n.camera is Some
            &&& n.camera->0.maker == trim(st.text)
            &&& n.camera->0.model == c.model && n.camera->0.mount == c.mount && n.camera->0.cropfactor == c.cropfactor
        }),
        ({
            let c = st.camera->0;
            let n = db_step(st, XmlEventView::End { name: "model"@ });
            &&& n.camera is Some
            &&& n.camera->0.model == trim(st.text)
            &&& n.camera->0.maker == c.maker && n.camera->0.mount == c.mount && n.camera->0.cropfactor == c.cropfactor
        }),
{
    lemma_tag_names();
}

/// A distortion entry's coefficients are its attributes in the order of the model:
/// `a`, `b`, `c` for ptlens, `k1` for poly3, `k1`, `k2` for poly5 (each as its last
/// attribute of that name reads, a missing one as zero); its model and focal length
/// are those its attributes give.
pub proof fn law_distortion_coefficients_follow_attributes(attrs: Seq<Option<XmlAttributeView>>)
    ensures
        distortion_of_attrs(attrs) matches Some(d) ==> {
            &&& attr_value(attrs, "model"@) == Some(d.model)
            &&& number_or(attrs, "focal"@, Seq::empty()) == Some(d.focal)
            &&& d.model == "ptlens"@ ==> d.coefficients.len() == 3 && number_or(attrs, "a"@, "0"@) == Some(d.coefficients[0])
                && number_or(attrs, "b"@, "0"@) == Some(d.coefficients[1]) && number_or(attrs, "c"@, "0"@) == Some(d.coefficients[2])
            &&& d.model == "poly3"@ ==> d.coefficients.len() == 1 && number_or(attrs, "k1"@, "0"@) == Some(d.coefficients[0])
            &&& d.model == "poly5"@ ==> d.coefficients.len() == 2 && number_or(attrs, "k1"@, "0"@) == Some(d.coefficients[0])
                && number_or(attrs, "k2"@, "0"@) == Some(d.coefficients[1])
            &&& d.model == "none"@ ==> d.coefficients.len() == 0
        },
{
    reveal_strlit("ptlens");
    reveal_strlit("poly3");
    reveal_strlit("poly5");
    reveal_strlit("none");
    assert("poly5"@[1] != "ptlens"@[1] && "poly3"@[1] != "ptlens"@[1] && "poly5"@[4] != "poly3"@[4]);
    assert("none"@.len() == 4 && "poly3"@.len() == 5 && "ptlens"@.len() == 6);
}

/// Inside a lens's calibration, an opening `distortion` element whose attributes
/// describe an entry adds it after the entries read before.
pub proof fn law_distortion_elements_add_entries(st: DbReadState, attrs: Seq<Option<XmlAttributeView>>)
    requires
        st.lens is Some,
        in_calibration(st.stack),
    ensures
        distortion_of_attrs(attrs) matches Some(d) ==> db_step(st, XmlEventView::Start { name: "distortion"@, attributes: attrs }).lens
            == Some(LensView { distortions: st.lens->0.distortions.push(d), ..st.lens->0 }),
{
    lemma_tag_names();
}

} // verus!
