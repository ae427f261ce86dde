use gyroflow_core::decimal::{Decimal, NumberForm};
use gyroflow_core::lut::{Lut, LutKind};

fn value(d: &Decimal) -> f32 {
    let sign = if d.negative { "-" } else { "" };
    format!("{}{}e{}", sign, d.digits, d.exponent).parse::<f32>().unwrap()
}

fn values(ds: &[Decimal]) -> Vec<f32> {
    ds.iter().map(value).collect()
}

#[test]
fn parse_minimal_3d() {
    // 2x2x2 identity-ish cube
    let cube = "\
LUT_3D_SIZE 2
0.0 0.0 0.0
1.0 0.0 0.0
0.0 1.0 0.0
1.0 1.0 0.0
0.0 0.0 1.0
1.0 0.0 1.0
0.0 1.0 1.0
1.0 1.0 1.0
";
    let lut = Lut::parse_cube(cube).unwrap();
    assert_eq!(lut.kind, LutKind::Dim3);
    assert_eq!(lut.size, 2);
    assert_eq!(lut.data.len(), 8 * 4);
    assert_eq!(lut.tex_width(), 2);
    assert_eq!(lut.tex_height(), 4);
    // first entry RGBA
    assert_eq!(values(&lut.data[0..4]), vec![0.0, 0.0, 0.0, 1.0]);
    // second entry red=1
    assert_eq!(values(&lut.data[4..8]), vec![1.0, 0.0, 0.0, 1.0]);
}

#[test]
fn parse_1d() {
    let cube = "\
# comment
TITLE \"test\"
LUT_1D_SIZE 3
0.0 0.0 0.0
0.5 0.5 0.5
1.0 1.0 1.0
";
    let lut = Lut::parse_cube(cube).unwrap();
    assert_eq!(lut.kind, LutKind::Dim1);
    assert_eq!(lut.size, 3);
    assert_eq!(lut.data.len(), 3 * 4);
    assert_eq!(lut.tex_width(), 1);
    assert_eq!(lut.tex_height(), 3);
}

#[test]
fn parse_domain() {
    let cube = "\
LUT_3D_SIZE 2
DOMAIN_MIN 0.0 0.0 0.0
DOMAIN_MAX 1.0 1.0 1.0
0 0 0
0 0 0
0 0 0
0 0 0
0 0 0
0 0 0
0 0 0
0 0 0
";
    let lut = Lut::parse_cube(cube).unwrap();
    assert_eq!(values(&lut.domain_min), vec![0.0, 0.0, 0.0]);
    assert_eq!(values(&lut.domain_max), vec![1.0, 1.0, 1.0]);
}

#[test]
fn wrong_count_errors() {
    let cube = "LUT_3D_SIZE 2\n0 0 0\n1 1 1\n";
    assert!(Lut::parse_cube(cube).is_err());
}

#[test]
fn empty_errors() {
    assert!(Lut::parse_cube("# just a comment\n").is_err());
}

#[test]
fn error_messages_name_the_problem() {
    assert_eq!(Lut::parse_cube("# just a comment\n").err().unwrap(), "No LUT data found");
    assert_eq!(
        Lut::parse_cube("LUT_3D_SIZE 2\n0 0 0\n1 1 1\n").err().unwrap(),
        "LUT_3D_SIZE 2 expects 8 entries, found 2"
    );
    assert_eq!(
        Lut::parse_cube("LUT_1D_SIZE 3\n0 0 0\n").err().unwrap(),
        "LUT_1D_SIZE 3 expects 3 entries, found 1"
    );
    assert_eq!(Lut::parse_cube("0 0 0\n").err().unwrap(), "Missing LUT_3D_SIZE / LUT_1D_SIZE");
    assert_eq!(Lut::parse_cube("LUT_3D_SIZE two\n").err().unwrap(), "Cannot parse size from 'LUT_3D_SIZE two'");
    assert_eq!(Lut::parse_cube("0 x 0\n").err().unwrap(), "bad value 'x': invalid float literal");
    assert_eq!(Lut::parse_cube("DOMAIN_MIN 0 0\n").err().unwrap(), "Cannot parse triplet from 'DOMAIN_MIN 0 0'");
    assert_eq!(Lut::parse_cube("DOMAIN_MAX 1 y 1\n").err().unwrap(), "invalid float literal");
}

#[test]
fn keywords_are_case_blind_and_lines_are_trimmed() {
    let cube = "  lut_1d_size +2 \r\n\t0.25 0.5 -1e1\r\n1 2 3 4\n1.5 2.5 3.5";
    let lut = Lut::parse_cube(cube).unwrap();
    assert_eq!(lut.kind, LutKind::Dim1);
    assert_eq!(lut.size, 2);
    assert_eq!(values(&lut.data), vec![0.25, 0.5, -10.0, 1.0, 1.5, 2.5, 3.5, 1.0]);
    assert_eq!(values(lut.rgba_f32()), values(&lut.data));
}

#[test]
fn three_d_size_wins_over_one_d() {
    let cube = "LUT_1D_SIZE 1\nLUT_3D_SIZE 1\n0 0 0\n";
    let lut = Lut::parse_cube(cube).unwrap();
    assert_eq!(lut.kind, LutKind::Dim3);
    assert_eq!(lut.tex_width(), 1);
    assert_eq!(lut.tex_height(), 1);
}

#[test]
fn every_entry_has_alpha_one() {
    let cube = "LUT_3D_SIZE 2\n0 0 0\n0 0 0\n0 0 0\n0 0 0\n0 0 0\n0 0 0\n0 0 0\n0.5 0.5 0.5\n";
    let lut = Lut::parse_cube(cube).unwrap();
    assert_eq!(lut.data.len(), 4 * 8);
    for i in 0..8 {
        assert_eq!(value(&lut.data[4 * i + 3]), 1.0);
    }
}

#[test]
fn infinities_and_long_numbers_read_as_numbers() {
    let lut = Lut::parse_cube("LUT_1D_SIZE 2\n0 inf -NaN\n0.12345678901234567890123 1e99999999999 1\n").unwrap();
    assert_eq!(lut.data.len(), 8);
    assert!(value_of(&lut.data[1]).is_infinite());
    assert!(value_of(&lut.data[2]).is_nan());
    assert_eq!(value_of(&lut.data[4]), 0.12345678901234567890123f32);
    assert!(value_of(&lut.data[5]).is_infinite());
}

fn value_of(d: &Decimal) -> f32 {

    let sign = if d.negative { "-" } else { "" };
    match d.form {
        NumberForm::Finite => value(d),
        NumberForm::Infinite => format!("{}inf", sign).parse().unwrap(),
        NumberForm::NotANumber => f32::NAN,
    }
}
