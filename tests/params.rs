use jpeg2k::{DecodeArea, DecodeParameters, Error};

#[test]
fn parses_full_area() {
    let a = DecodeArea::parse("10:10:200:200").unwrap();
    assert_eq!(a, DecodeArea::new(10, 10, 200, 200));
    let b: DecodeArea = "10:10:200:200".parse().unwrap();
    assert_eq!(b, a);
    assert_eq!((a.start_x(), a.start_y(), a.end_x(), a.end_y()), (10, 10, 200, 200));
}

#[test]
fn missing_fields_are_zero() {
    assert_eq!(DecodeArea::parse("7").unwrap(), DecodeArea::new(7, 0, 0, 0));
    assert_eq!(DecodeArea::parse("7:8").unwrap(), DecodeArea::new(7, 8, 0, 0));
    assert_eq!(DecodeArea::parse("7:8:9").unwrap(), DecodeArea::new(7, 8, 9, 0));
}

#[test]
fn plus_sign_and_leading_zeros_are_accepted() {
    assert_eq!(DecodeArea::parse("+1:002:0:4294967295").unwrap(), DecodeArea::new(1, 2, 0, 4294967295));
}

#[test]
fn malformed_areas_are_errors() {
    for s in ["", ":", "1:", "1::2", "a:1", "1:2:3:4:5", "-1:0:0:0", "+", "4294967296", "1 :2", "99999999999999999999"] {
        assert!(matches!(DecodeArea::parse(s), Err(Error::ParseAreaError(_))), "{}", s);
    }
}

#[test]
fn decode_parameter_builders() {
    let p = DecodeParameters::new();
    assert_eq!((p.reduce_factor(), p.layer_limit(), p.is_strict()), (0, 0, false));
    assert!(p.area().is_none());
    let p = p.reduce(2).layers(3).strict(true).decode_area(Some(DecodeArea::new(1, 2, 3, 4)));
    assert_eq!((p.reduce_factor(), p.layer_limit(), p.is_strict()), (2, 3, true));
    assert_eq!(p.area(), Some(DecodeArea::new(1, 2, 3, 4)));
    let d = DecodeParameters::default();
    assert_eq!(d.reduce_factor(), 0);
}
