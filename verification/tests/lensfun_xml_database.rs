use gyroflow_core::decimal::Decimal;
use gyroflow_core::lensfun_database::{in_lens_calibration, LensfunDatabase, LensfunDbReader, LensfunDistortion, LensfunLens};
use gyroflow_core::xml_events::{XmlAttribute, XmlEvent};

fn value(d: &Decimal) -> f64 {
    let sign = if d.negative { "-" } else { "" };
    format!("{}{}e{}", sign, d.digits, d.exponent).parse::<f64>().unwrap()
}

fn values(ds: &[Decimal]) -> Vec<f64> {
    ds.iter().map(value).collect()
}

#[test]
fn parses_lensfun_cameras_lenses_and_distortion_entries() {
    let xml = r#"
        <lensdatabase>
            <camera>
                <maker>Sony</maker>
                <model>ILCE-7SM3</model>
                <mount>Sony E</mount>
                <cropfactor>1.0</cropfactor>
            </camera>
            <lens>
                <maker>Sony</maker>
                <model>FE 24mm F1.4 GM</model>
                <mount>Sony E</mount>
                <cropfactor>1.0</cropfactor>
                <calibration>
                    <distortion model="ptlens" focal="24" a="0.012" b="-0.036" c="0.004" />
                    <distortion model="poly3" focal="35" k1="-0.015" />
                    <distortion model="acm" focal="50" k1="1" />
                </calibration>
            </lens>
        </lensdatabase>
    "#;

    let db = LensfunDatabase::from_xml_str(xml).unwrap();

    assert_eq!(db.cameras.len(), 1);
    assert_eq!(db.cameras[0].maker, "Sony");
    assert_eq!(db.cameras[0].mount, "Sony E");
    assert_eq!(db.lenses.len(), 1);
    assert_eq!(db.lenses[0].model, "FE 24mm F1.4 GM");
    assert_eq!(db.lenses[0].distortions.len(), 2);
    assert_eq!(db.lenses[0].distortions[0].model, "ptlens");
    assert_eq!(values(&db.lenses[0].distortions[0].coefficients), vec![0.012, -0.036, 0.004]);
    assert_eq!(values(&db.lenses[0].distortions[1].coefficients), vec![-0.015]);
}

#[test]
fn creates_lens_metadata_for_selectors() {
    let xml = r#"
        <lensdatabase>
            <lens>
                <maker>Canon</maker>
                <model>RF 15-35mm F2.8</model>
                <mount>Canon RF</mount>
                <calibration>
                    <distortion model="poly5" focal="15" k1="-0.02" k2="0.003" />
                </calibration>
            </lens>
        </lensdatabase>
    "#;

    let db = LensfunDatabase::from_xml_str(xml).unwrap();
    let metadata = db.lens_metadata();

    assert_eq!(metadata.len(), 1);
    assert_eq!(metadata[0].maker, "Canon");
    assert_eq!(metadata[0].mounts, vec!["Canon RF"]);
    assert_eq!(values(&metadata[0].focal_lengths), vec![15.0]);
    assert_eq!(metadata[0].distortion_models, vec!["poly5"]);
}

#[test]
fn finds_lenses_for_matching_mounts() {
    let xml = r#"
        <lensdatabase>
            <lens>
                <maker>Sony</maker>
                <model>FE 24mm F1.4 GM</model>
                <mount>Sony E</mount>
                <calibration>
                    <distortion model="poly3" focal="24" k1="-0.01" />
                </calibration>
            </lens>
            <lens>
                <maker>Canon</maker>
                <model>RF 24mm F1.8</model>
                <mount>Canon RF</mount>
                <calibration>
                    <distortion model="poly3" focal="24" k1="-0.01" />
                </calibration>
            </lens>
        </lensdatabase>
    "#;

    let db = LensfunDatabase::from_xml_str(xml).unwrap();
    let lenses = db.lenses_for_mount("sony e");

    assert_eq!(lenses.len(), 1);
    assert_eq!(lenses[0].display_name(), "Sony FE 24mm F1.4 GM");
    assert_eq!(values(&lenses[0].supported_focal_lengths()), vec![24.0]);
}

#[test]
fn entries_without_a_model_are_dropped_and_missing_terms_read_as_zero() {
    let xml = r#"<db>
        <camera><maker>Nobody</maker></camera>
        <lens><maker>Nobody</maker><mount>X</mount></lens>
        <lens>
            <model> Lens A </model>
            <mount></mount>
            <mount>A-mount</mount>
            <calibration>
                <distortion model="poly5" focal="20" k1="0.1" />
                <distortion model="none" focal="30" />
                <distortion model="poly3" k1="0.1" />
            </calibration>
            <distortion model="poly3" focal="40" k1="0.2" />
        </lens>
    </db>"#;
    let db = LensfunDatabase::from_xml_str(xml).unwrap();
    assert_eq!(db.cameras.len(), 0);
    assert_eq!(db.lenses.len(), 1);
    let lens = &db.lenses[0];
    assert_eq!(lens.model, "Lens A");
    assert_eq!(lens.mounts, vec!["A-mount"]);
    assert_eq!(lens.distortions.len(), 2);
    assert_eq!(values(&lens.distortions[0].coefficients), vec![0.1, 0.0]);
    assert_eq!(lens.distortions[1].model, "none");
    assert!(lens.distortions[1].coefficients.is_empty());
    assert!(!lens.distortions[1].is_supported());
    assert_eq!(values(&lens.supported_focal_lengths()), vec![20.0]);
    assert_eq!(lens.display_name(), "Lens A");
}

#[test]
fn a_malformed_document_is_an_error() {
    assert!(LensfunDatabase::from_xml_str("<db><lens></db>").is_err());
}

#[test]
fn databases_extend_in_order() {
    let mut a = LensfunDatabase::from_xml_str("<db><lens><model>A</model></lens></db>").unwrap();
    let b = LensfunDatabase::from_xml_str("<db><lens><model>B</model></lens><camera><model>C</model></camera></db>").unwrap();
    a.extend(b);
    assert_eq!(a.lenses.len(), 2);
    assert_eq!(a.lenses[0].model, "A");
    assert_eq!(a.lenses[1].model, "B");
    assert_eq!(a.cameras.len(), 1);
}

#[test]
fn reader_takes_events_one_by_one() {
    let mut r = LensfunDbReader::new();
    let attrs = vec![
        Some(XmlAttribute { key: "model".to_string(), value: Some("poly3".to_string()) }),
        Some(XmlAttribute { key: "focal".to_string(), value: Some("12".to_string()) }),
        Some(XmlAttribute { key: "k1".to_string(), value: Some("0.5".to_string()) }),
        Some(XmlAttribute { key: "k1".to_string(), value: Some("0.25".to_string()) }),
    ];
    let evs = vec![
        XmlEvent::Start { name: "lens".to_string(), attributes: vec![] },
        XmlEvent::Start { name: "model".to_string(), attributes: vec![] },
        XmlEvent::Text { text: "L".to_string() },
        XmlEvent::CData { text: "1".to_string() },
        XmlEvent::End { name: "model".to_string() },
        XmlEvent::Start { name: "calibration".to_string(), attributes: vec![] },
        XmlEvent::Start { name: "distortion".to_string(), attributes: attrs },
        XmlEvent::End { name: "distortion".to_string() },
        XmlEvent::End { name: "calibration".to_string() },
        XmlEvent::End { name: "lens".to_string() },
        XmlEvent::Eof,
    ];
    for ev in &evs {
        assert!(!r.is_done());
        r.feed(ev);
    }
    assert!(r.is_done());
    let db = r.into_database();
    assert_eq!(db.lenses.len(), 1);
    assert_eq!(db.lenses[0].model, "L1");
    assert_eq!(values(&db.lenses[0].distortions[0].coefficients), vec![0.25]);
    assert_eq!(value(&db.lenses[0].distortions[0].focal), 12.0);
}

#[test]
fn distortion_attributes() {
    let attr = |k: &str, v: &str| Some(XmlAttribute { key: k.to_string(), value: Some(v.to_string()) });
    assert!(LensfunDistortion::from_attributes(&vec![attr("model", "acm"), attr("focal", "10")]).is_none());
    assert!(LensfunDistortion::from_attributes(&vec![attr("model", "poly3")]).is_none());
    assert!(LensfunDistortion::from_attributes(&vec![attr("focal", "10")]).is_none());
    assert!(LensfunDistortion::from_attributes(&vec![attr("model", "poly3"), attr("focal", "10"), attr("k1", "x")]).is_none());
    let d = LensfunDistortion::from_attributes(&vec![attr("model", "ptlens"), attr("focal", "10"), attr("b", "2")]).unwrap();
    assert_eq!(values(&d.coefficients), vec![0.0, 2.0, 0.0]);
}

#[test]
fn calibration_context() {
    let s = |v: &[&str]| v.iter().map(|x| x.to_string()).collect::<Vec<String>>();
    assert!(in_lens_calibration(&s(&["db", "lens", "calibration"])));
    assert!(!in_lens_calibration(&s(&["db", "lens"])));
    assert!(!in_lens_calibration(&s(&["db", "calibration"])));
}

#[test]
fn mounts_match_up_to_ascii_case() {
    let lens = LensfunLens {
        maker: "  ".to_string(),
        model: " M ".to_string(),
        mounts: vec!["Nikon F".to_string()],
        cropfactor: None,
        distortions: vec![],
    };
    assert!(lens.supports_mount("NIKON f"));
    assert!(!lens.supports_mount("Nikon Z"));
    assert_eq!(lens.display_name(), "M");
}
