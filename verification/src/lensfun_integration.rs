//! Where a system-wide LensFun database is looked for, and the LensFun camera and
//! lens records.
use vstd::prelude::*;
use crate::decimal::Decimal;
use crate::text::{chars_of, string_of};

verus! {

/// A camera body as LensFun describes it.
pub struct LensFunCamera {
    pub maker: String,
    pub model: String,
    pub mount: Option<String>,
    pub cropfactor: Option<Decimal>,
}

/// A lens as LensFun describes it.
pub struct LensFunLens {
    pub maker: String,
    pub model: String,
    pub mount: Option<String>,
    pub cropfactor: Option<Decimal>,
    /// `[min, max]` in mm.
    pub focal: Option<Vec<Decimal>>,
    /// `[min, max]`.
    pub aperture: Option<Vec<Decimal>>,
}

/// Reads LensFun XML files into camera and lens records.
pub struct LensFunParser;

impl LensFunParser {
    /// Reads a LensFun XML file. No reading is done yet: the result is always two
    /// empty lists.
    pub fn parse_xml(_xml_path: &str) -> (r: Result<(Vec<LensFunCamera>, Vec<LensFunLens>), String>)
        ensures
            r matches Ok((cameras, lenses)) && cameras@.len() == 0 && lenses@.len() == 0,
    {
        Ok((Vec::new(), Vec::new()))
    }
}

/// The operating system the application runs on.
#[derive(Clone, Copy, Debug, PartialEq, Eq, Structural)]
pub enum TargetOs {
    Linux,
    MacOs,
    Windows,
    Other,
}

/// The places where a LensFun database is usually installed, in the order they are
/// tried.
pub open spec fn lensfun_locations(os: TargetOs) -> Seq<Seq<char>> {
    match os {
        TargetOs::Linux => seq!["/usr/share/lensfun/version_1"@, "/usr/local/share/lensfun/version_1"@],
        TargetOs::MacOs => seq!["/opt/homebrew/share/lensfun/version_1"@, "/usr/local/share/lensfun/version_1"@],
        TargetOs::Windows => seq!["C:/Program Files/Lensfun/version_1"@],
        TargetOs::Other => Seq::empty(),
    }
}

fn text(s: &str) -> (r: String)
    ensures
        r@ == s@,
{
    string_of(chars_of(s).as_slice())
}

/// The places where a LensFun database is usually installed on `os`, in the order
/// they are tried.
pub fn lensfun_database_candidates(os: TargetOs) -> (r: Vec<String>)
    ensures
        r@.len() == lensfun_locations(os).len(),
        forall|i: int| 0 <= i < r@.len() ==> (#[trigger] r@[i])@ == lensfun_locations(os)[i],
{
    let mut r: Vec<String> = Vec::new();
    match os {
        TargetOs::Linux => {
            r.push(text("/usr/share/lensfun/version_1"));
            r.push(text("/usr/local/share/lensfun/version_1"));
        },
        TargetOs::MacOs => {
            r.push(text("/opt/homebrew/share/lensfun/version_1"));
            r.push(text("/usr/local/share/lensfun/version_1"));
        },
        TargetOs::Windows => {
            r.push(text("C:/Program Files/Lensfun/version_1"));
        },
        TargetOs::Other => {},
    }
    r
}

/// The first candidate that is there: each candidate comes with whether it exists.
pub fn find_lensfun_database(candidates: &Vec<(String, bool)>) -> (r: Option<String>)
    ensures
        r is None ==> forall|i: int| 0 <= i < candidates@.len() ==> !(#[trigger] candidates@[i]).1,
        r matches Some(p) ==> exists|i: int| {
            &&& 0 <= i < candidates@.len()
            &&& (#[trigger] candidates@[i]).1
            &&& candidates@[i].0@ == p@
            &&& forall|j: int| 0 <= j < i ==> !(#[trigger] candidates@[j]).1
        },
{
    let mut i: usize = 0;
    while i < candidates.len()
        invariant
            i <= candidates@.len(),
            forall|j: int| 0 <= j < i ==> !(#[trigger] candidates@[j]).1,
        decreases candidates@.len() - i,
    {
        if candidates[i].1 {
            let p = candidates[i].0.clone();
            assert(candidates@[i as int].1);
            return Some(p);
        }
        i = i + 1;
    }
    None
}

} // verus!
