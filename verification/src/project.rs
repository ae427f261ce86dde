//! The kinds of Gyroflow project files.
use vstd::prelude::*;
use crate::xml_events::same_text;

verus! {

#[derive(Clone, Copy, Debug, PartialEq, Eq, Structural)]
pub enum GyroflowProjectType {
    Simple,
    WithGyroData,
    WithProcessedData,
}

impl GyroflowProjectType {
    /// The name of a project type, as it is written in project files.
    pub open spec fn spec_name(self) -> &'static str {
        match self {
            GyroflowProjectType::Simple => "Simple",
            GyroflowProjectType::WithGyroData => "WithGyroData",
            GyroflowProjectType::WithProcessedData => "WithProcessedData",
        }
    }

    pub fn name(&self) -> (r: &'static str)
        ensures
            r == self.spec_name(),
    {
        match self {
            GyroflowProjectType::Simple => "Simple",
            GyroflowProjectType::WithGyroData => "WithGyroData",
            GyroflowProjectType::WithProcessedData => "WithProcessedData",
        }
    }

    /// The name, as a string (`ToString`).
    pub fn to_string(&self) -> (r: String)
        ensures
            r@ == self.spec_name()@,
    {
        crate::text::string_of(crate::text::chars_of(self.name()).as_slice())
    }

    /// The project type of a name; `None` for a name of none.
    pub fn from_name(s: &str) -> (r: Option<GyroflowProjectType>)
        ensures
            r matches Some(t) ==> t.spec_name()@ == s@,
            r is None ==> forall|t: GyroflowProjectType| t.spec_name()@ != s@,
    {
        if same_text(s, "Simple") {
            Some(GyroflowProjectType::Simple)
        } else if same_text(s, "WithGyroData") {
            Some(GyroflowProjectType::WithGyroData)
        } else if same_text(s, "WithProcessedData") {
            Some(GyroflowProjectType::WithProcessedData)
        } else {
            None
        }
    }
}

} // verus!
