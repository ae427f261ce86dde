//! A reader for the lensfun XML lens database that keeps each lens with its
//! distortion calibrations in their own model (`poly3`, `poly5`, `ptlens`): the lenses
//! from which profiles are built. Numbers are kept as `Decimal` holds them.
use vstd::prelude::*;
use vstd::string::StringSliceAdditionalSpecFns;
use crate::decimal::{Decimal, NumberForm, decimal_of, parse_decimal, parse_decimal_str, index_of_either};
use crate::text::{trim, trim_chars, chars_of, slice_of, string_of};
use crate::xml_events::{XmlAttribute, XmlAttributeView, XmlEvent, XmlEventView, attributes_view, same_text};
use crate::xml_readers::{xml_rs_reader, read_xml_rs_event, xml_rs_events, xml_rs_read_length, xml_rs_stops_at, event_budget, event_budget_of, lemma_xml_rs_stop_skips, lemma_xml_rs_events_push};

verus! {

/// The aspect ratio of a calibration's sensor, as the file gives it: a number, or a
/// ratio `w:h` (with `h` not zero), standing for `w / h`.
#[derive(Clone, Copy, Debug, PartialEq, Eq, Structural)]
pub enum AspectRatio {
    Value(Decimal),
    Ratio(Decimal, Decimal),
}

/// A distortion calibration point: the model, the focal length, the real focal
/// length where the file gives it, and the terms in the model's order (`[k1]` for
/// poly3, `[k1, k2]` for poly5, `[a, b, c]` for ptlens).
pub struct LensfunDistortion {
    pub model: String,
    pub focal: Decimal,
    pub real_focal: Option<Decimal>,
    pub k: Vec<Decimal>,
}

#[verifier::ext_equal]
pub struct DistortionView {
    pub model: Seq<char>,
    pub focal: Decimal,
    pub real_focal: Option<Decimal>,
    pub k: Seq<Decimal>,
}

impl View for LensfunDistortion {
    type V = DistortionView;

    open spec fn view(&self) -> DistortionView {
        DistortionView { model: self.model@, focal: self.focal, real_focal: self.real_focal, k: self.k@ }
    }
}

/// A lens with at least one recognised distortion calibration.
pub struct LensfunLens {
    pub maker: String,
    pub model: String,
    pub mounts: Vec<String>,
    pub crop_factor: Decimal,
    pub aspect_ratio: AspectRatio,
    pub distortions: Vec<LensfunDistortion>,
}

#[verifier::ext_equal]
pub struct LensView {
    pub maker: Seq<char>,
    pub model: Seq<char>,
    pub mounts: Seq<Seq<char>>,
    pub crop_factor: Decimal,
    pub aspect_ratio: AspectRatio,
    pub distortions: Seq<DistortionView>,
}

pub open spec fn strings_view(s: Seq<String>) -> Seq<Seq<char>> {
    s.map_values(|x: String| x@)
}

pub open spec fn distortions_view(s: Seq<LensfunDistortion>) -> Seq<DistortionView> {
    s.map_values(|d: LensfunDistortion| d@)
}

pub open spec fn lenses_view(s: Seq<LensfunLens>) -> Seq<LensView> {
    s.map_values(|l: LensfunLens| l@)
}

impl View for LensfunLens {
    type V = LensView;

    open spec fn view(&self) -> LensView {
        LensView {
            maker: self.maker@,
            model: self.model@,
            mounts: strings_view(self.mounts@),
            crop_factor: self.crop_factor,
            aspect_ratio: self.aspect_ratio,
            distortions: distortions_view(self.distortions@),
        }
    }
}

pub open spec fn dec_zero() -> Decimal {
    Decimal { negative: false, digits: 0, exponent: 0, form: NumberForm::Finite }
}

/// 1.5, the 3:2 format that lensfun assumes where a lens gives no aspect ratio.
pub open spec fn default_aspect() -> AspectRatio {
    AspectRatio::Value(Decimal { negative: false, digits: 15, exponent: -1i32, form: NumberForm::Finite })
}

/// A lens as it begins: nothing set, the default aspect ratio.
pub open spec fn lens_start() -> LensView {
    LensView {
        maker: Seq::empty(),
        model: Seq::empty(),
        mounts: Seq::empty(),
        crop_factor: dec_zero(),
        aspect_ratio: default_aspect(),
        distortions: Seq::empty(),
    }
}

/// An empty lens (what is left after a lens is handed over).
pub open spec fn lens_blank() -> LensView {
    LensView {
        maker: Seq::empty(),
        model: Seq::empty(),
        mounts: Seq::empty(),
        crop_factor: dec_zero(),
        aspect_ratio: AspectRatio::Value(dec_zero()),
        distortions: Seq::empty(),
    }
}

/// An `<aspect-ratio>` value: a number (`1.5`), or `w:h` (`3:2`) with `h` not zero.
pub open spec fn aspect_of(s: Seq<char>) -> Option<AspectRatio> {
    let c = index_of_either(s, ':', ':') as int;
    if c < s.len() {
        let w = decimal_of(trim(s.take(c)));
        let h = decimal_of(trim(s.skip(c + 1)));
        if w is Some && h is Some && !h->0.spec_is_zero() {
            Some(AspectRatio::Ratio(w->0, h->0))
        } else {
            None
        }
    } else {
        match decimal_of(trim(s)) {
            Some(v) => Some(AspectRatio::Value(v)),
            None => None,
        }
    }
}

/// The value of the first attribute named `key`.
pub open spec fn first_attr(attrs: Seq<Option<XmlAttributeView>>, key: Seq<char>) -> Option<Seq<char>>
    decreases attrs.len(),
{
    if attrs.len() == 0 {
        None
    } else if attrs[0] is Some && attrs[0]->0.key == key {
        attrs[0]->0.value
    } else {
        first_attr(attrs.drop_first(), key)
    }
}

/// The number that the first attribute named `key` gives.
pub open spec fn attr_number(attrs: Seq<Option<XmlAttributeView>>, key: Seq<char>) -> Option<Decimal> {
    match first_attr(attrs, key) {
        Some(v) => decimal_of(v),
        None => None,
    }
}

pub open spec fn or_zero(d: Option<Decimal>) -> Decimal {
    match d {
        Some(v) => v,
        None => dec_zero(),
    }
}

/// The calibration point that a `distortion` element describes: `poly3` needs `k1`,
/// `poly5` needs `k1` and `k2`, `ptlens` reads each of `a`, `b`, `c` as zero where it
/// is missing or does not read; other models, and a missing focal length, give none.
pub open spec fn xml_distortion(attrs: Seq<Option<XmlAttributeView>>) -> Option<DistortionView> {
    let model = match first_attr(attrs, "model"@) {
        Some(m) => m,
        None => Seq::empty(),
    };
    let k: Option<Seq<Decimal>> = if model == "poly3"@ {
        match attr_number(attrs, "k1"@) {
            Some(k1) => Some(seq![k1]),
            None => None,
        }
    } else if model == "poly5"@ {
        if attr_number(attrs, "k1"@) is Some && attr_number(attrs, "k2"@) is Some {
            Some(seq![attr_number(attrs, "k1"@)->0, attr_number(attrs, "k2"@)->0])
        } else {
            None
        }
    } else if model == "ptlens"@ {
        Some(seq![or_zero(attr_number(attrs, "a"@)), or_zero(attr_number(attrs, "b"@)), or_zero(attr_number(attrs, "c"@))])
    } else {
        None
    };
    if k is Some && attr_number(attrs, "focal"@) is Some {
        Some(DistortionView { model, focal: attr_number(attrs, "focal"@)->0, real_focal: attr_number(attrs, "real-focal"@), k: k->0 })
    } else {
        None
    }
}

/// What the reader has gathered after some events of a document.
#[verifier::ext_equal]
pub struct XmlLensState {
    pub lenses: Seq<LensView>,
    pub in_lens: bool,
    pub in_calibration: bool,
    pub cur: LensView,
    pub text: Seq<char>,
    pub stopped: bool,
}

pub open spec fn xml_lens_start() -> XmlLensState {
    XmlLensState { lenses: Seq::empty(), in_lens: false, in_calibration: false, cur: lens_blank(), text: Seq::empty(), stopped: false }
}

pub open spec fn xml_on_start(st: XmlLensState, name: Seq<char>, attrs: Seq<Option<XmlAttributeView>>) -> XmlLensState {
    let st = XmlLensState { text: Seq::empty(), ..st };
    if name == "lens"@ {
        XmlLensState { in_lens: true, cur: lens_start(), ..st }
    } else if name == "calibration"@ && st.in_lens {
        XmlLensState { in_calibration: true, ..st }
    } else if name == "distortion"@ && st.in_lens && st.in_calibration && xml_distortion(attrs) is Some {
        XmlLensState { cur: LensView { distortions: st.cur.distortions.push(xml_distortion(attrs)->0), ..st.cur }, ..st }
    } else {
        st
    }
}

/// A closing tag inside a lens (outside its calibration) sets a property of the lens
/// from the element's trimmed text; a number or an aspect ratio that does not read
/// leaves the property as it was.
pub open spec fn xml_lens_with(l: LensView, tag: Seq<char>, value: Seq<char>) -> LensView {
    if tag == "maker"@ {
        LensView { maker: value, ..l }
    } else if tag == "model"@ {
        LensView { model: value, ..l }
    } else if tag == "mount"@ {
        LensView { mounts: l.mounts.push(value), ..l }
    } else if tag == "cropfactor"@ && decimal_of(value) is Some {
        LensView { crop_factor: decimal_of(value)->0, ..l }
    } else if tag == "aspect-ratio"@ && aspect_of(value) is Some {
        LensView { aspect_ratio: aspect_of(value)->0, ..l }
    } else {
        l
    }
}

pub open spec fn xml_on_end(st: XmlLensState, name: Seq<char>) -> XmlLensState {
    let cur = if st.in_lens && !st.in_calibration { xml_lens_with(st.cur, name, trim(st.text)) } else { st.cur };
    let st = XmlLensState { cur, text: Seq::empty(), ..st };
    if name == "calibration"@ {
        XmlLensState { in_calibration: false, ..st }
    } else if name == "lens"@ {
        if st.cur.distortions.len() > 0 {
            XmlLensState { in_lens: false, lenses: st.lenses.push(st.cur), cur: lens_blank(), ..st }
        } else {
            XmlLensState { in_lens: false, ..st }
        }
    } else {
        st
    }
}

/// The effect of one event of the document; the end of the document stops the reader.
pub open spec fn xml_step(st: XmlLensState, ev: XmlEventView) -> XmlLensState {
    match ev {
        XmlEventView::Start { name, attributes } => xml_on_start(st, name, attributes),
        XmlEventView::End { name } => xml_on_end(st, name),
        XmlEventView::Text { text } => XmlLensState { text: st.text + text, ..st },
        XmlEventView::Eof => XmlLensState { stopped: true, ..st },
        _ => st,
    }
}

pub open spec fn xml_run(evs: Seq<XmlEventView>) -> XmlLensState
    decreases evs.len(),
{
    if evs.len() == 0 {
        xml_lens_start()
    } else {
        xml_step(xml_run(evs.drop_last()), evs.last())
    }
}


fn zero() -> (r: Decimal)
    ensures
        r == dec_zero(),
{
    Decimal { negative: false, digits: 0, exponent: 0, form: NumberForm::Finite }
}

/// Parses an `<aspect-ratio>` value: a number (`1.5`), or `w:h` (`3:2`).
pub fn parse_aspect_ratio(s: &str) -> (r: Option<AspectRatio>)
    ensures
        r == aspect_of(s@),
{
    let v = chars_of(s);
    let mut c: usize = 0;
    while c < v.len() && v[c] != ':'
        invariant
            c <= v@.len(),
            forall|j: int| 0 <= j < c ==> #[trigger] v@[j] != ':' && v@[j] != ':',
        decreases v@.len() - c,
    {
        c = c + 1;
    }
    proof {
        crate::decimal::lemma_index_of_either(v@, ':', ':', c as int);
    }
    if c < v.len() {
        let w = parse_decimal(trim_chars(slice_of(v.as_slice(), 0, c).as_slice()).as_slice());
        let h = parse_decimal(trim_chars(slice_of(v.as_slice(), c + 1, v.len()).as_slice()).as_slice());
        assert(v@.subrange(0, c as int) =~= v@.take(c as int));
        assert(v@.subrange(c + 1, v@.len() as int) =~= v@.skip(c + 1));
        match (w, h) {
            (Some(w), Some(h)) => if !h.is_zero() {
                Some(AspectRatio::Ratio(w, h))
            } else {
                None
            },
            _ => None,
        }
    } else {
        match parse_decimal(trim_chars(v.as_slice()).as_slice()) {
            Some(x) => Some(AspectRatio::Value(x)),
            None => None,
        }
    }
}

/// The value of the first attribute named `key`.
fn attr<'a>(attrs: &'a Vec<Option<XmlAttribute>>, key: &str) -> (r: Option<&'a String>)
    ensures
        match first_attr(attributes_view(attrs@), key@) {
            Some(v) => r matches Some(s) && s@ == v,
            None => r is None,
        },
{
    let mut i: usize = 0;
    assert(attrs@.skip(0) =~= attrs@);
    while i < attrs.len()
        invariant
            i <= attrs@.len(),
            first_attr(attributes_view(attrs@), key@) == first_attr(attributes_view(attrs@.skip(i as int)), key@),
        decreases attrs@.len() - i,
    {
        let ghost t = attributes_view(attrs@.skip(i as int));
        assert(t.drop_first() =~= attributes_view(attrs@.skip(i + 1)));
        assert(t[0] == match attrs@[i as int] { Some(a) => Some(a@), None => None });
        match &attrs[i] {
            Some(a) => {
                if same_text(a.key.as_str(), key) {
                    return match &a.value {
                        Some(v) => Some(v),
                        None => None,
                    };
                }
            },
            None => {},
        }
        i = i + 1;
    }
    None
}

/// The number that the first attribute named `key` gives.
fn attr_f(attrs: &Vec<Option<XmlAttribute>>, key: &str) -> (r: Option<Decimal>)
    ensures
        r == attr_number(attributes_view(attrs@), key@),
{
    match attr(attrs, key) {
        Some(v) => parse_decimal_str(v.as_str()),
        None => None,
    }
}

/// The calibration point that a `distortion` element's attributes describe.
pub fn distortion_of(attrs: &Vec<Option<XmlAttribute>>) -> (r: Option<LensfunDistortion>)
    ensures
        match xml_distortion(attributes_view(attrs@)) {
            Some(d) => r matches Some(x) && x@ == d,
            None => r is None,
        },
{
    proof {
        reveal_strlit("");
    }
    let model: String = match attr(attrs, "model") {
        Some(m) => m.clone(),
        None => String::new(),
    };
    let mut k: Vec<Decimal> = Vec::new();
    if same_text(model.as_str(), "poly3") {
        match attr_f(attrs, "k1") {
            Some(k1) => {
                k.push(k1);
                assert(k@ =~= seq![k1]);
            },
            None => {
                return None;
            },
        }
    } else if same_text(model.as_str(), "poly5") {
        match (attr_f(attrs, "k1"), attr_f(attrs, "k2")) {
            (Some(k1), Some(k2)) => {
                k.push(k1);
                k.push(k2);
                assert(k@ =~= seq![k1, k2]);
            },
            _ => {
                return None;
            },
        }
    } else if same_text(model.as_str(), "ptlens") {
        let a = match attr_f(attrs, "a") {
            Some(x) => x,
            None => zero(),
        };
        let b = match attr_f(attrs, "b") {
            Some(x) => x,
            None => zero(),
        };
        let c = match attr_f(attrs, "c") {
            Some(x) => x,
            None => zero(),
        };
        k.push(a);
        k.push(b);
        k.push(c);
        assert(k@ =~= seq![a, b, c]);
    } else {
        return None;
    }
    match attr_f(attrs, "focal") {
        Some(focal) => Some(LensfunDistortion { model, focal, real_focal: attr_f(attrs, "real-focal"), k }),
        None => None,
    }
}

fn new_lens(aspect_ratio: AspectRatio) -> (r: LensfunLens)
    ensures
        r@ == (LensView { aspect_ratio, ..lens_blank() }),
{
    let r = LensfunLens {
        maker: String::new(),
        model: String::new(),
        mounts: Vec::new(),
        crop_factor: zero(),
        aspect_ratio,
        distortions: Vec::new(),
    };
    assert(r@.mounts =~= Seq::<Seq<char>>::empty());
    assert(r@.distortions =~= Seq::<DistortionView>::empty());
    r
}

fn default_aspect_ratio() -> (r: AspectRatio)
    ensures
        r == default_aspect(),
{
    AspectRatio::Value(Decimal { negative: false, digits: 15, exponent: -1, form: NumberForm::Finite })
}

/// The names of the elements the reader looks for are all different.
proof fn lemma_xml_tag_names()
    ensures
        "lens"@ != "calibration"@,
        "lens"@ != "distortion"@,
        "calibration"@ != "distortion"@,
        "calibration"@ != "maker"@ && "calibration"@ != "model"@ && "calibration"@ != "mount"@,
        "calibration"@ != "cropfactor"@ && "calibration"@ != "aspect-ratio"@,
        "lens"@ != "maker"@ && "lens"@ != "model"@ && "lens"@ != "mount"@,
        "lens"@ != "cropfactor"@ && "lens"@ != "aspect-ratio"@,
        "maker"@ != "model"@ && "maker"@ != "mount"@ && "maker"@ != "cropfactor"@ && "maker"@ != "aspect-ratio"@,
        "model"@ != "mount"@ && "model"@ != "cropfactor"@ && "model"@ != "aspect-ratio"@,
        "mount"@ != "cropfactor"@ && "mount"@ != "aspect-ratio"@,
        "cropfactor"@ != "aspect-ratio"@,
{
    reveal_strlit("lens");
    reveal_strlit("calibration");
    reveal_strlit("distortion");
    reveal_strlit("maker");
    reveal_strlit("model");
    reveal_strlit("mount");
    reveal_strlit("cropfactor");
    reveal_strlit("aspect-ratio");
    assert("lens"@.len() == 4);
    assert("calibration"@.len() == 11);
    assert("distortion"@.len() == 10);
    assert("maker"@.len() == 5);
    assert("model"@.len() == 5);
    assert("mount"@.len() == 5);
    assert("cropfactor"@.len() == 10);
    assert("aspect-ratio"@.len() == 12);
    assert("maker"@[1] != "model"@[1]);
    assert("maker"@[1] != "mount"@[1]);
    assert("model"@[2] != "mount"@[2]);
    assert("distortion"@[0] != "cropfactor"@[0]);
}

/// Reads a lensfun document event by event (see `xml_step`).
pub struct LensfunXmlLensReader {
    lenses: Vec<LensfunLens>,
    in_lens: bool,
    in_calibration: bool,
    cur: LensfunLens,
    text: Vec<char>,
    stopped: bool,
}

impl View for LensfunXmlLensReader {
    type V = XmlLensState;

    closed spec fn view(&self) -> XmlLensState {
        XmlLensState {
            lenses: lenses_view(self.lenses@),
            in_lens: self.in_lens,
            in_calibration: self.in_calibration,
            cur: self.cur@,
            text: self.text@,
            stopped: self.stopped,
        }
    }
}

impl LensfunLens {
    fn set_property(&mut self, tag: &String, value: &String)
        ensures
            final(self)@ == xml_lens_with(old(self)@, tag@, value@),
    {
        proof {
            lemma_xml_tag_names();
        }
        if same_text(tag.as_str(), "maker") {
            self.maker = value.clone();
        } else if same_text(tag.as_str(), "model") {
            self.model = value.clone();
        } else if same_text(tag.as_str(), "mount") {
            let ghost before = self.mounts@;
            self.mounts.push(value.clone());
            assert(strings_view(self.mounts@) =~= strings_view(before).push(value@));
        } else if same_text(tag.as_str(), "cropfactor") {
            match parse_decimal_str(value.as_str()) {
                Some(v) => {
                    self.crop_factor = v;
                },
                None => {},
            }
        } else if same_text(tag.as_str(), "aspect-ratio") {
            match parse_aspect_ratio(value.as_str()) {
                Some(v) => {
                    self.aspect_ratio = v;
                },
                None => {},
            }
        }
    }

    fn add_distortion(&mut self, d: LensfunDistortion)
        ensures
            final(self)@ == (LensView { distortions: old(self)@.distortions.push(d@), ..old(self)@ }),
    {
        let ghost before = self.distortions@;
        self.distortions.push(d);
        assert(distortions_view(self.distortions@) =~= distortions_view(before).push(d@));
    }
}

impl LensfunXmlLensReader {
    /// A reader that has seen no event.
    pub fn new() -> (r: Self)
        ensures
            r@ == xml_lens_start(),
    {
        let r = LensfunXmlLensReader {
            lenses: Vec::new(),
            in_lens: false,
            in_calibration: false,
            cur: new_lens(AspectRatio::Value(zero())),
            text: Vec::new(),
            stopped: false,
        };
        assert(r@.lenses =~= Seq::<LensView>::empty());
        r
    }

    /// Takes in the next event of the document.
    pub fn feed(&mut self, ev: &XmlEvent)
        ensures
            final(self)@ == xml_step(old(self)@, ev@),
    {
        proof {
            lemma_xml_tag_names();
        }
        match ev {
            XmlEvent::Start { name, attributes } => {
                self.text = Vec::new();
                if same_text(name.as_str(), "lens") {
                    self.in_lens = true;
                    self.cur = new_lens(default_aspect_ratio());
                } else if same_text(name.as_str(), "calibration") && self.in_lens {
                    self.in_calibration = true;
                } else if same_text(name.as_str(), "distortion") && self.in_lens && self.in_calibration {
                    match distortion_of(attributes) {
                        Some(d) => self.cur.add_distortion(d),
                        None => {},
                    }
                }
            },
            XmlEvent::End { name } => {
                if self.in_lens && !self.in_calibration {
                    let value = string_of(trim_chars(self.text.as_slice()).as_slice());
                    self.cur.set_property(name, &value);
                }
                self.text = Vec::new();
                if same_text(name.as_str(), "calibration") {
                    self.in_calibration = false;
                } else if same_text(name.as_str(), "lens") {
                    self.in_lens = false;
                    if self.cur.distortions.len() > 0 {
                        let mut done = new_lens(AspectRatio::Value(zero()));
                        std::mem::swap(&mut done, &mut self.cur);
                        let ghost before = self.lenses@;
                        self.lenses.push(done);
                        assert(lenses_view(self.lenses@) =~= lenses_view(before).push(done@));
                    }
                }
            },
            XmlEvent::Text { text } => crate::text::push_chars(&mut self.text, text.as_str()),
            XmlEvent::Eof => {
                self.stopped = true;
            },
            _ => {},
        }
    }

    /// Whether the end of the document has been seen.
    pub fn is_stopped(&self) -> (r: bool)
        ensures
            r == self@.stopped,
    {
        self.stopped
    }

    /// The lenses read.
    pub fn into_lenses(self) -> (r: Vec<LensfunLens>)
        ensures
            lenses_view(r@) == self@.lenses,
    {
        self.lenses
    }
}

/// Reads the lenses of a lensfun XML document (a `<lensdatabase>`): each `<lens>` that
/// has at least one recognised distortion calibration. The document is read with
/// `xml-rs` event by event (see `xml_step`) up to its end, or up to the first fault,
/// which ends the reading with the lenses read so far; at most `event_budget` events
/// of it are read.
pub fn parse_lenses(xml: &str) -> (r: Vec<LensfunLens>)
    ensures
        lenses_view(r@) == xml_run(xml_rs_events(xml.spec_bytes(), xml_rs_read_length(xml.spec_bytes()))).lenses,
        lenses_ok(lenses_view(r@)),
{
    let r = read_lenses(xml);
    proof {
        law_parsed_lenses_are_usable(xml_rs_events(xml.spec_bytes(), xml_rs_read_length(xml.spec_bytes())));
    }
    r
}

/// The lenses that the events of a document give, read up to its end, its first
/// fault, or the event budget.
fn read_lenses(xml: &str) -> (r: Vec<LensfunLens>)
    ensures
        lenses_view(r@) == xml_run(xml_rs_events(xml.spec_bytes(), xml_rs_read_length(xml.spec_bytes()))).lenses,
{
    let bytes = xml.as_bytes();
    let ghost doc = bytes@;
    let mut events = xml_rs_reader(bytes);
    let mut st = LensfunXmlLensReader::new();
    let ghost bound = event_budget(doc.len() as int);
    let mut budget: usize = event_budget_of(bytes.len());
    let mut n: usize = 0;
    loop
        invariant
            doc == bytes@,
            doc == xml.spec_bytes(),
            bound == event_budget(doc.len() as int),
            events@ == (doc, n as int),
            n + budget == bound,
            st@ == xml_run(xml_rs_events(doc, n as int)),
            !st@.stopped,
            forall|j: int| 0 <= j < n ==> !#[trigger] xml_rs_stops_at(doc, j),
        decreases budget,
    {
        proof {
            lemma_xml_rs_stop_skips(doc, 0, n as int, bound);
        }
        if budget == 0 {
            return st.into_lenses();
        }
        let ev = match read_xml_rs_event(&mut events) {
            Ok(ev) => ev,
            Err(_) => {
                return st.into_lenses();
            },
        };
        proof {
            lemma_xml_rs_events_push(doc, n as int, ev@);
            assert(xml_rs_events(doc, n as int).push(ev@).drop_last() =~= xml_rs_events(doc, n as int));
        }
        st.feed(&ev);
        if st.is_stopped() {
            assert(ev@ is Eof);
            assert(xml_rs_stops_at(doc, n as int));
            return st.into_lenses();
        }
        budget = budget - 1;
        n = n + 1;
    }
}


/// A calibration point of a model the engine corrects, with as many terms as the
/// model takes.
pub open spec fn recognised(d: DistortionView) -> bool {
    ||| (d.model == "poly3"@ && d.k.len() == 1)
    ||| (d.model == "poly5"@ && d.k.len() == 2)
    ||| (d.model == "ptlens"@ && d.k.len() == 3)
}

pub open spec fn lens_ok(l: LensView) -> bool {
    forall|i: int| 0 <= i < l.distortions.len() ==> recognised(#[trigger] l.distortions[i])
}

/// Every lens read has at least one calibration point, and every calibration point
/// is of a recognised model.
pub open spec fn lenses_ok(s: Seq<LensView>) -> bool {
    forall|i: int| 0 <= i < s.len() ==> {
        &&& (#[trigger] s[i]).distortions.len() > 0
        &&& lens_ok(s[i])
    }
}

proof fn lemma_xml_step_ok(st: XmlLensState, ev: XmlEventView)
    requires
        lenses_ok(st.lenses),
        lens_ok(st.cur),
    ensures
        lenses_ok(xml_step(st, ev).lenses),
        lens_ok(xml_step(st, ev).cur),
{
    lemma_xml_tag_names();
    let next = xml_step(st, ev);
    match ev {
        XmlEventView::Start { name, attributes } => {
            if name != "lens"@ && !(name == "calibration"@ && st.in_lens) && name == "distortion"@ && st.in_lens && st.in_calibration && xml_distortion(attributes) is Some {
                let l = next.cur;
                assert forall|i: int| 0 <= i < l.distortions.len() implies recognised(#[trigger] l.distortions[i]) by {
                    if i < st.cur.distortions.len() {
                        assert(l.distortions[i] == st.cur.distortions[i]);
                    }
                }
            }
        },
        XmlEventView::End { name } => {
            let cur = if st.in_lens && !st.in_calibration { xml_lens_with(st.cur, name, trim(st.text)) } else { st.cur };
            assert(cur.distortions == st.cur.distortions);
            assert forall|i: int| 0 <= i < next.lenses.len() implies {
                &&& (#[trigger] next.lenses[i]).distortions.len() > 0
                &&& lens_ok(next.lenses[i])
            } by {
                if i < st.lenses.len() {
                    assert(next.lenses[i] == st.lenses[i]);
                }
            }
        },
        _ => {},
    }
}

/// Whatever events a document gives, every lens read has at least one calibration
/// point, each of a model the engine corrects (`poly3`,
/// `poly5`, `ptlens`) with as many terms as that model takes.
pub proof fn law_parsed_lenses_are_usable(evs: Seq<XmlEventView>)
    ensures
        lenses_ok(xml_run(evs).lenses),
        lens_ok(xml_run(evs).cur),
    decreases evs.len(),
{
    if evs.len() > 0 {
        law_parsed_lenses_are_usable(evs.drop_last());
        lemma_xml_step_ok(xml_run(evs.drop_last()), evs.last());
    }
}

/// Inside a lens and outside its calibration, the closing tag of a property sets it
/// from the element's trimmed text and leaves the others as they were: `maker` and
/// `model` take the text, each `mount` adds the text after the mounts read before,
/// `cropfactor` takes the number the text reads as (where it reads as one), and
/// `aspect-ratio` the ratio it reads as (where it reads as one).
pub proof fn law_closing_tags_set_lens_properties(st: XmlLensState)
    requires
        st.in_lens,
        !st.in_calibration,
    ensures
        ({
            let n = xml_step(st, XmlEventView::End { name: "mount"@ });
            &&& n.cur.mounts == st.cur.mounts.push(trim(st.text))
            &&& n.cur.maker == st.cur.maker && n.cur.model == st.cur.model
            &&& n.cur.crop_factor == st.cur.crop_factor && n.cur.aspect_ratio == st.cur.aspect_ratio
            &&& n.cur.distortions == st.cur.distortions
            &&& n.lenses == st.lenses && n.in_lens && !n.in_calibration
        }),
        ({
            let n = xml_step(st, XmlEventView::End { name: "maker"@ });
            &&& n.cur.maker == trim(st.text)
            &&& n.cur.model == st.cur.model && n.cur.mounts == st.cur.mounts
            &&& n.cur.crop_factor == st.cur.crop_factor && n.cur.distortions == st.cur.distortions
        }),
        ({
            let n = xml_step(st, XmlEventView::End { name: "model"@ });
            &&& n.cur.model == trim(st.text)
            &&& n.cur.maker == st.cur.maker && n.cur.mounts == st.cur.mounts
            &&& n.cur.crop_factor == st.cur.crop_factor && n.cur.distortions == st.cur.distortions
        }),
        ({
            let n = xml_step(st, XmlEventView::End { name: "cropfactor"@ });
            &&& n.cur.crop_factor == (match decimal_of(trim(st.text)) {
                Some(v) => v,
                None => st.cur.crop_factor,
            })
            &&& n.cur.maker == st.cur.maker && n.cur.model == st.cur.model && n.cur.mounts == st.cur.mounts
            &&& n.cur.aspect_ratio == st.cur.aspect_ratio && n.cur.distortions == st.cur.distortions
        }),
        ({
            let n = xml_step(st, XmlEventView::End { name: "aspect-ratio"@ });
            &&& n.cur.aspect_ratio == (match aspect_of(trim(st.text)) {
                Some(a) => a,
                None => st.cur.aspect_ratio,
            })
            &&& n.cur.crop_factor == st.cur.crop_factor && n.cur.mounts == st.cur.mounts
        }),
{
    lemma_xml_tag_names();
}

/// The closing tag of a lens keeps the lens, as read, after the lenses read before,
/// where it has at least one recognised distortion calibration, whatever its crop
/// factor; a lens without one is dropped.
pub proof fn law_closing_lens_keeps_calibrated_lenses(st: XmlLensState)
    requires
        st.in_lens,
        !st.in_calibration,
    ensures
        ({
            let n = xml_step(st, XmlEventView::End { name: "lens"@ });
            &&& st.cur.distortions.len() > 0 ==> n.lenses == st.lenses.push(st.cur)
            &&& st.cur.distortions.len() == 0 ==> n.lenses == st.lenses
            &&& !n.in_lens
        }),
{
    lemma_xml_tag_names();
    reveal_strlit("lens");
    assert("lens"@ != "maker"@ && "lens"@ != "model"@ && "lens"@ != "mount"@);
}

/// A calibration point's terms are its attributes in the order of the model: `a`,
/// `b`, `c` for ptlens (zero where one is missing or does not read), `k1` for poly3,
/// `k1`, `k2` for poly5; its model and focal length are those of its first attributes
/// of those names.
pub proof fn law_distortion_terms_follow_attributes(attrs: Seq<Option<XmlAttributeView>>)
    ensures
        xml_distortion(attrs) matches Some(d) ==> {
            &&& first_attr(attrs, "model"@) == Some(d.model)
            &&& attr_number(attrs, "focal"@) == Some(d.focal)
            &&& d.model == "ptlens"@ ==> d.k == seq![or_zero(attr_number(attrs, "a"@)), or_zero(attr_number(attrs, "b"@)), or_zero(attr_number(attrs, "c"@))]
            &&& d.model == "poly3"@ ==> Some(d.k) == (match attr_number(attrs, "k1"@) { Some(k1) => Some(seq![k1]), None => None })
            &&& d.model == "poly5"@ ==> d.k.len() == 2 && attr_number(attrs, "k1"@) == Some(d.k[0]) && attr_number(attrs, "k2"@) == Some(d.k[1])
        },
{
    reveal_strlit("ptlens");
    reveal_strlit("poly3");
    reveal_strlit("poly5");
    assert("poly5"@[1] != "ptlens"@[1] && "poly3"@[1] != "ptlens"@[1] && "poly5"@[4] != "poly3"@[4]);
    assert("poly3"@.len() == 5 && "poly5"@.len() == 5 && "ptlens"@.len() == 6);
}

/// Inside a lens's calibration, an opening `distortion` element whose attributes
/// describe a calibration point adds it after the points read before.
pub proof fn law_distortion_elements_add_points(st: XmlLensState, attrs: Seq<Option<XmlAttributeView>>)
    requires
        st.in_lens,
        st.in_calibration,
    ensures
        xml_distortion(attrs) matches Some(d) ==> xml_step(st, XmlEventView::Start { name: "distortion"@, attributes: attrs }).cur.distortions
            == st.cur.distortions.push(d),
        xml_distortion(attrs) is None ==> xml_step(st, XmlEventView::Start { name: "distortion"@, attributes: attrs }).cur == st.cur,
{
    lemma_xml_tag_names();
}

} // verus!
