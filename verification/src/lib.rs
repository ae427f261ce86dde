use vstd::prelude::*;

pub mod text;
pub mod decimal;
pub mod xml_events;
pub mod xml_readers;
pub mod lensfun;
pub mod json;
pub mod settings;
pub mod splines;
pub mod sony;
pub mod lens_profile;
pub mod project;
pub mod keyframes;
pub mod lut;
pub mod lensfun_database;
pub mod lensfun_xml;
pub mod lensfun_integration;
pub mod lensfun_import;
pub mod file_metadata;
pub mod clip_rotation;

verus! {
} // verus!
