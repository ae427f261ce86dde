use gyroflow_core::decimal::Decimal;
use gyroflow_core::lensfun_xml::{parse_aspect_ratio, parse_lenses, AspectRatio};

fn value(d: &Decimal) -> f64 {
    let sign = if d.negative { "-" } else { "" };
    format!("{}{}e{}", sign, d.digits, d.exponent).parse::<f64>().unwrap()
}

fn values(ds: &[Decimal]) -> Vec<f64> {
    ds.iter().map(value).collect()
}

fn aspect(a: &AspectRatio) -> f64 {
    match a {
        AspectRatio::Value(v) => value(v),
        AspectRatio::Ratio(w, h) => value(w) / value(h),
    }
}

const DEFAULT_ASPECT_RATIO: f64 = 1.5;

// Two lenses, mirroring real Lensfun DB entries (see lensfun/data/db/*.xml).
const SAMPLE_XML: &str = r#"<!DOCTYPE lensdatabase SYSTEM "lensfun-database.dtd">
<lensdatabase version="2">
    <mount>
        <name>Canon EF</name>
    </mount>
    <lens>
        <maker>Canon</maker>
        <model>Canon EF 35mm f/2</model>
        <mount>Canon EF</mount>
        <cropfactor>1.0</cropfactor>
        <calibration>
            <distortion model="ptlens" focal="35" a="0.0070163863" b="-0.010468312" c="0.0030782963"/>
        </calibration>
    </lens>
    <lens>
        <maker>Sigma</maker>
        <model>Sigma 18-35mm f/1.8 DC HSM</model>
        <mount>Canon EF</mount>
        <cropfactor>1.6</cropfactor>
        <aspect-ratio>3:2</aspect-ratio>
        <calibration>
            <distortion model="poly3" focal="18" k1="-0.02127"/>
            <distortion model="poly3" focal="35" k1="0.00366"/>
        </calibration>
    </lens>
</lensdatabase>"#;

#[test]
fn parses_lens_metadata_and_mounts() {
    let lenses = parse_lenses(SAMPLE_XML);
    assert_eq!(lenses.len(), 2);

    assert_eq!(lenses[0].maker, "Canon");
    assert_eq!(lenses[0].model, "Canon EF 35mm f/2");
    assert_eq!(lenses[0].mounts, vec!["Canon EF".to_string()]);
    assert_eq!(value(&lenses[0].crop_factor), 1.0);
    assert_eq!(aspect(&lenses[0].aspect_ratio), DEFAULT_ASPECT_RATIO); // not specified -> default 3:2

    assert_eq!(value(&lenses[1].crop_factor), 1.6);
    assert_eq!(aspect(&lenses[1].aspect_ratio), 1.5); // explicit "3:2"
    assert_eq!(lenses[1].distortions.len(), 2);
}

#[test]
fn parses_ptlens_coefficients() {
    let lenses = parse_lenses(SAMPLE_XML);
    let d = &lenses[0].distortions[0];
    assert_eq!(d.model, "ptlens");
    assert_eq!(value(&d.focal), 35.0);
    assert_eq!(d.real_focal, None);
    assert_eq!(values(&d.k), vec![0.0070163863, -0.010468312, 0.0030782963]);
}

#[test]
fn parses_poly3_coefficients_at_multiple_focal_lengths() {
    let lenses = parse_lenses(SAMPLE_XML);
    let ds = &lenses[1].distortions;
    assert_eq!(value(&ds[0].focal), 18.0);
    assert_eq!(values(&ds[0].k), vec![-0.02127]);
    assert_eq!(value(&ds[1].focal), 35.0);
    assert_eq!(values(&ds[1].k), vec![0.00366]);
}

#[test]
fn ignores_lens_without_recognized_distortion() {
    let xml = r#"<lensdatabase version="2">
        <lens>
            <maker>Nikon</maker>
            <model>Some lens with only vignetting data</model>
            <mount>Nikon F</mount>
            <cropfactor>1.5</cropfactor>
            <calibration>
                <vignetting model="pa" focal="50" aperture="2.8" distance="1000" k1="-0.5" k2="0.2" k3="-0.1"/>
            </calibration>
        </lens>
    </lensdatabase>"#;
    assert!(parse_lenses(xml).is_empty());
}

#[test]
fn lenses_without_crop_factor_are_kept_and_ptlens_terms_default_to_zero() {
    let xml = r#"<lensdatabase>
        <lens>
            <model>No crop</model>
            <calibration><distortion model="poly3" focal="10" k1="0.1"/></calibration>
        </lens>
        <lens>
            <model>P</model>
            <cropfactor>2</cropfactor>
            <aspect-ratio>1.25</aspect-ratio>
            <calibration>
                <distortion model="ptlens" focal="20" b="0.5" c="x" real-focal="19.5"/>
                <distortion model="poly5" focal="20" k1="0.5"/>
                <distortion model="poly3" k1="0.5"/>
            </calibration>
        </lens>
    </lensdatabase>"#;
    let lenses = parse_lenses(xml);
    assert_eq!(lenses.len(), 2);
    assert_eq!(lenses[0].model, "No crop");
    assert_eq!(value(&lenses[0].crop_factor), 0.0);
    assert_eq!(lenses[0].distortions.len(), 1);
    assert_eq!(lenses[1].model, "P");
    assert_eq!(aspect(&lenses[1].aspect_ratio), 1.25);
    assert_eq!(lenses[1].distortions.len(), 1);
    assert_eq!(values(&lenses[1].distortions[0].k), vec![0.0, 0.5, 0.0]);
    assert_eq!(value(lenses[1].distortions[0].real_focal.as_ref().unwrap()), 19.5);
}

#[test]
fn every_lens_with_a_recognised_distortion_is_returned() {
    let xml = "<lensdatabase><lens><maker>M</maker><model>L</model><mount>X</mount><calibration><distortion model='poly3' focal='50' k1='0.01'/></calibration></lens></lensdatabase>";
    let lenses = parse_lenses(xml);
    assert_eq!(lenses.len(), 1);
    assert_eq!(lenses[0].model, "L");
    assert_eq!(lenses[0].distortions.len(), 1);
    assert_eq!(values(&lenses[0].distortions[0].k), vec![0.01]);
}

#[test]
fn a_fault_ends_the_reading_with_the_lenses_read_so_far() {
    let xml = r#"<lensdatabase>
        <lens><model>A</model><cropfactor>1</cropfactor>
            <calibration><distortion model="poly3" focal="10" k1="0.1"/></calibration>
        </lens>
        <lens><model>B</model></broken>
    </lensdatabase>"#;
    let lenses = parse_lenses(xml);
    assert_eq!(lenses.len(), 1);
    assert_eq!(lenses[0].model, "A");
}

#[test]
fn aspect_ratios() {
    assert_eq!(aspect(&parse_aspect_ratio("3:2").unwrap()), 1.5);
    assert_eq!(aspect(&parse_aspect_ratio(" 16 : 9 ").unwrap()), 16.0 / 9.0);
    assert_eq!(aspect(&parse_aspect_ratio("1.5").unwrap()), 1.5);
    assert!(parse_aspect_ratio("3:0").is_none());
    assert!(parse_aspect_ratio("wide").is_none());
    assert!(parse_aspect_ratio("3:x").is_none());
    assert!(parse_aspect_ratio("3:1e-400").is_none());
    assert!(parse_aspect_ratio("3:nan").is_some());
    assert!(parse_aspect_ratio("inf").is_some());
}
