use gyroflow_core::decimal::Decimal;
use gyroflow_core::lensfun::{from_events, LensfunDatabase};
use gyroflow_core::xml_events::XmlEvent;

// Sample of the lensfun database (https://github.com/lensfun/lensfun/tree/master/data/db).
const FIXTURE_XML: &str = r#"<?xml version="1.0" encoding="utf-8"?>
<lensfun>
    <camera>
        <maker>Canon</maker>
        <model>Canon EOS M50</model>
        <model lang="en">EOS M50</model>
        <mount>Canon EF-M</mount>
        <cropfactor>1.613</cropfactor>
    </camera>
    <camera>
        <maker>Canon</maker>
        <model>Canon EOS 5D Mark III</model>
        <model lang="en">EOS 5D Mark III</model>
        <mount>Canon EF</mount>
        <cropfactor>1</cropfactor>
    </camera>
    <camera>
        <maker>Canon</maker>
        <model>Canon EOS 80D</model>
        <model lang="en">EOS 80D</model>
        <mount>Canon EF</mount>
        <mount>Canon EF-S</mount>
        <cropfactor>1.6</cropfactor>
    </camera>

    <lens>
        <maker>Canon</maker>
        <model>Canon EF-M 18-55mm f/3.5-5.6 IS STM</model>
        <mount>Canon EF-M</mount>
        <cropfactor>1.613</cropfactor>
        <calibration>
            <distortion model="ptlens" focal="18" a="0.0208" b="-0.06707" c="0.02864"/>
            <distortion model="ptlens" focal="24" a="0.01074" b="-0.03245" c="0.01496"/>
            <distortion model="ptlens" focal="35" a="0.00738" b="-0.0241" c="0.0299"/>
            <distortion model="ptlens" focal="55" a="0.00824" b="-0.0265" c="0.0378"/>
            <tca model="poly3" focal="18" br="-0.0001552" vr="1.0005722" bb="0.0001298" vb="0.9997515"/>
            <vignetting model="pa" focal="18" aperture="3.5" distance="10" k1="-1.3322" k2="1.1067" k3="-0.4495"/>
        </calibration>
    </lens>

    <lens>
        <maker>Canon</maker>
        <model>Canon EF 50mm f/1.8 (test poly3)</model>
        <mount>Canon EF</mount>
        <cropfactor>1</cropfactor>
        <calibration>
            <distortion model="poly3" focal="50" k1="0.01"/>
        </calibration>
    </lens>

    <lens>
        <maker>Canon</maker>
        <model>Canon EF-S 12mm f/2.8 (test poly5)</model>
        <mount>Canon EF-S</mount>
        <cropfactor>1.6</cropfactor>
        <calibration>
            <distortion model="poly5" focal="12" k1="0.005" k2="-0.0002" real-focal="11.94"/>
        </calibration>
    </lens>
</lensfun>
"#;

fn fixture_db() -> LensfunDatabase {
    LensfunDatabase::from_xml(FIXTURE_XML).expect("fixture XML should parse")
}

/// The binary64 value of a number read, rounded as `str::parse::<f64>` rounds.
fn value(d: Decimal) -> f64 {
    format!("{}{}e{}", if d.negative { "-" } else { "" }, d.digits, d.exponent).parse().unwrap()
}

#[test]
fn lensfun_parse_fixture() {
    let db = fixture_db();

    assert_eq!(db.cameras.len(), 3);
    assert_eq!(db.lenses.len(), 3);

    // First <model> (without lang attribute) wins
    assert_eq!(db.cameras[0].model, "Canon EOS M50");
    assert_eq!(value(db.cameras[0].crop_factor), 1.613);

    // Multiple mounts per camera
    assert_eq!(db.cameras[2].mounts, vec!["Canon EF".to_string(), "Canon EF-S".to_string()]);

    // tca/vignetting entries are ignored, 4 distortion points parsed
    let zoom = &db.lenses[0];
    assert_eq!(zoom.calibrations.len(), 1);
    assert_eq!(zoom.calibrations[0].distortions.len(), 4);
    assert_eq!(value(zoom.calibrations[0].crop_factor), 1.613);
    assert_eq!(value(zoom.calibrations[0].aspect_ratio), 1.5); // default

    // real-focal attribute
    let poly5 = &db.lenses[2].calibrations[0].distortions[0];
    assert_eq!(poly5.real_focal.map(value), Some(11.94));
    assert_eq!(poly5.terms.iter().copied().map(value).collect::<Vec<f64>>(), vec![0.005, -0.0002]);
}

#[test]
fn a_document_quick_xml_cannot_read_is_an_error() {
    assert!(LensfunDatabase::from_xml("<lensfun><camera></lens></lensfun>").is_err());
}

#[test]
fn an_empty_database_reads_as_empty() {
    let db = LensfunDatabase::from_xml("<lensfun></lensfun>").unwrap();
    assert!(db.cameras.is_empty());
    assert!(db.lenses.is_empty());
}

#[test]
fn a_single_camera_reads_with_its_first_model_and_mounts() {
    let xml = "<lensfun><camera><maker>Canon</maker><model>Canon EOS M50</model><model lang='en'>EOS M50</model><mount>Canon EF-M</mount><cropfactor>1.613</cropfactor></camera></lensfun>";
    let db = LensfunDatabase::from_xml(xml).unwrap();
    assert_eq!(db.cameras.len(), 1);
    assert_eq!(db.cameras[0].model, "Canon EOS M50");
    assert_eq!(db.cameras[0].maker, "Canon");
    assert_eq!(db.cameras[0].mounts, vec!["Canon EF-M".to_string()]);
    assert_eq!(value(db.cameras[0].crop_factor), 1.613);
    assert!(db.lenses.is_empty());
}

#[test]
fn a_crop_factor_after_the_distortions_still_applies_to_its_calibration_set() {
    let xml = "<lensfun><lens><model>L</model><mount>M</mount><calibration><distortion model='poly3' focal='35' k1='0.01'/><cropfactor>1.5</cropfactor></calibration></lens></lensfun>";
    let db = LensfunDatabase::from_xml(xml).unwrap();
    let l = &db.lenses[0];
    assert_eq!(value(l.crop_factor), 0.0);
    assert_eq!(l.calibrations.len(), 1);
    assert_eq!(value(l.calibrations[0].crop_factor), 1.5);
    assert_eq!(value(l.calibrations[0].aspect_ratio), 1.5);
    assert_eq!(l.calibrations[0].distortions[0].terms.iter().copied().map(value).collect::<Vec<f64>>(), vec![0.01]);
}

#[test]
fn events_handed_in_one_by_one_give_the_same_database() {
    let start = |n: &str| XmlEvent::Start { name: n.to_string(), attributes: Vec::new() };
    let end = |n: &str| XmlEvent::End { name: n.to_string() };
    let text = |t: &str| XmlEvent::Text { text: t.to_string() };
    let evs = vec![
        start("lensfun"), start("camera"),
        start("maker"), text("Canon"), end("maker"),
        start("model"), text("EOS R5"), end("model"),
        start("mount"), text("Canon RF"), end("mount"),
        end("camera"), end("lensfun"), XmlEvent::Eof,
    ];
    let db = from_events(&evs);
    assert_eq!(db.cameras.len(), 1);
    assert_eq!(db.cameras[0].maker, "Canon");
    assert_eq!(db.cameras[0].model, "EOS R5");
    assert_eq!(db.cameras[0].mounts, vec!["Canon RF".to_string()]);
    assert!(db.lenses.is_empty());
}
