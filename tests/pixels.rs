use jpeg2k::pixel::rescale_sample;
use jpeg2k::{ColorSpace, Error, Image, ImageComponent, ImageFormat, ImagePixelData};

fn comp(w: u32, h: u32, prec: u32, signed: bool, alpha: bool, data: Vec<i32>) -> ImageComponent {
    ImageComponent::new(1, 1, w, h, prec, prec, signed, alpha, data).expect("sample count matches shape")
}

fn image(cs: ColorSpace, comps: Vec<ImageComponent>) -> Image {
    Image::new(0, 0, 2, 2, cs, false, comps).expect("valid extent")
}

#[test]
fn unsigned_rescale_keeps_endpoints() {
    for p in 1..=16u32 {
        let max = ((1u32 << p) - 1) as i32;
        assert_eq!(rescale_sample(0, p, false, 8), 0);
        assert_eq!(rescale_sample(max, p, false, 8), 255);
        assert_eq!(rescale_sample(0, p, false, 16), 0);
        assert_eq!(rescale_sample(max, p, false, 16), 65535);
    }
}

#[test]
fn unsigned_rescale_exact_values() {
    // floor(128 * 65535 / 255)
    assert_eq!(rescale_sample(128, 8, false, 16), 32896);
    // floor(1000 * 255 / 4095)
    assert_eq!(rescale_sample(1000, 12, false, 8), 62);
    assert_eq!(rescale_sample(1, 1, false, 8), 255);
    assert_eq!(rescale_sample(100, 8, false, 8), 100);
    // out-of-range samples are read as unsigned 32-bit and keep the low bits
    assert_eq!(rescale_sample(-5, 8, false, 8), 251);
    assert_eq!(rescale_sample(300, 8, false, 8), 44);
    // floor(5000 * 255 / 4095) = 311, low byte 55
    assert_eq!(rescale_sample(5000, 12, false, 8), 55);
}

#[test]
fn signed_rescale_values() {
    assert_eq!(rescale_sample(0, 8, true, 8), 127);
    assert_eq!(rescale_sample(127, 8, true, 8), 254);
    assert_eq!(rescale_sample(-128, 8, true, 8), 0);
    assert_eq!(rescale_sample(-1, 8, true, 8), 126);
    assert_eq!(rescale_sample(0, 12, true, 16), 32767);
    assert_eq!(rescale_sample(-2048, 12, true, 16), 0);
    assert_eq!(rescale_sample(2047, 12, true, 16), 65519);
    assert_eq!(rescale_sample(0, 1, true, 8), 127);
    assert_eq!(rescale_sample(-1, 1, true, 8), 0);
    // scaling rounds toward zero: -1 * 128 / 2048 gives 0
    assert_eq!(rescale_sample(-1, 12, true, 8), 127);
    assert_eq!(rescale_sample(-17, 12, true, 8), 126);
    assert_eq!(rescale_sample(17, 12, true, 8), 128);
}

#[test]
fn luminance_bytes_are_low_bytes_of_samples() {
    let img = image(ColorSpace::Gray, vec![comp(2, 2, 8, false, false, vec![300, -5, 7, 255])]);
    let d = img.get_pixels(Some(255)).unwrap();
    assert!(matches!(d.data, ImagePixelData::La8(ref v) if v == &vec![44, 255, 251, 255, 7, 255, 255, 255]));
}

#[test]
fn signed_rescale_is_monotonic_and_centered() {
    for p in 1..=16u32 {
        for t in [8u32, 16] {
            let half = 1i32 << (p - 1);
            let mut prev = 0u16;
            let step = if p > 10 { 7 } else { 1 };
            let mut s = -half - 3;
            while s <= half + 3 {
                let v = rescale_sample(s, p, true, t);
                assert!(v >= prev);
                prev = v;
                s += step;
            }
            let mid = rescale_sample(0, p, true, t) as i64;
            let target_mid2 = (1i64 << t) - 1;
            assert!((2 * mid - target_mid2).abs() <= 2);
        }
    }
}

#[test]
fn luminance_with_constant_alpha() {
    let img = image(ColorSpace::Gray, vec![comp(2, 2, 8, false, false, vec![0, 50, 100, 255])]);
    let d = img.get_pixels(Some(255)).unwrap();
    assert_eq!(d.format, ImageFormat::La8);
    assert_eq!((d.width, d.height), (2, 2));
    match d.data {
        ImagePixelData::La8(v) => {
            assert_eq!(v.len(), 2 * 2 * 2);
            assert_eq!(v, vec![0, 255, 50, 255, 100, 255, 255, 255]);
            for k in (1..v.len()).step_by(2) {
                assert_eq!(v[k], 255);
            }
        }
        other => panic!("unexpected layout {:?}", other),
    }
}

#[test]
fn luminance_without_alpha() {
    let img = image(ColorSpace::Unspecified, vec![comp(2, 2, 8, false, false, vec![1, 2, 3, 4])]);
    let d = img.get_pixels(None).unwrap();
    assert_eq!(d.format, ImageFormat::L8);
    assert!(matches!(d.data, ImagePixelData::L8(ref v) if v == &vec![1, 2, 3, 4]));
}

#[test]
fn wide_rgba_layout() {
    let c = |prec: u32, alpha: bool| comp(2, 2, prec, false, alpha, vec![0, 1, 2, 4095.min((1 << prec) - 1)]);
    let img = image(ColorSpace::SRGB, vec![c(8, false), c(12, false), c(8, false), c(8, true)]);
    let d = img.get_pixels(None).unwrap();
    assert_eq!(d.format, ImageFormat::Rgba16);
    match d.data {
        ImagePixelData::Rgba16(v) => {
            assert_eq!(v.len(), 4 * 2 * 2);
            assert_eq!(v.len() * 2, 4 * 2 * 2 * 2);
            // last pixel: 255 of 8 bits and 4095 of 12 bits both reach the top
            assert_eq!(&v[12..16], &[65535, 65535, 65535, 65535]);
            // second pixel: 1 of 8 bits -> 257, 1 of 12 bits -> 16
            assert_eq!(&v[4..8], &[257, 16, 257, 257]);
        }
        other => panic!("unexpected layout {:?}", other),
    }
}

#[test]
fn rgba_with_four_components_ignores_alpha_flag() {
    let c = || comp(1, 1, 8, false, false, vec![9]);
    let img = Image::new(0, 0, 1, 1, ColorSpace::Unknown, false, vec![c(), c(), c(), c()]).unwrap();
    let d = img.get_pixels(Some(3)).unwrap();
    assert_eq!(d.format, ImageFormat::Rgba8);
    assert!(matches!(d.data, ImagePixelData::Rgba8(ref v) if v == &vec![9, 9, 9, 9]));
}

#[test]
fn rgb_with_and_without_constant_alpha() {
    let r = comp(1, 2, 8, false, false, vec![1, 2]);
    let g = comp(1, 2, 8, false, false, vec![3, 4]);
    let b = comp(1, 2, 8, false, false, vec![5, 6]);
    let img = image(ColorSpace::SRGB, vec![r, g, b]);
    let d = img.get_pixels(None).unwrap();
    assert_eq!(d.format, ImageFormat::Rgb8);
    assert!(matches!(d.data, ImagePixelData::Rgb8(ref v) if v == &vec![1, 3, 5, 2, 4, 6]));
    let d = img.get_pixels(Some(256 + 7)).unwrap();
    assert_eq!(d.format, ImageFormat::Rgba8);
    assert!(matches!(d.data, ImagePixelData::Rgba8(ref v) if v == &vec![1, 3, 5, 7, 2, 4, 6, 7]));
}

#[test]
fn luminance_alpha_pair() {
    let l = comp(1, 2, 10, false, false, vec![0, 1023]);
    let a = comp(1, 2, 10, false, true, vec![1023, 0]);
    let img = image(ColorSpace::Gray, vec![l, a]);
    let d = img.get_pixels(None).unwrap();
    assert_eq!(d.format, ImageFormat::La16);
    assert!(matches!(d.data, ImagePixelData::La16(ref v) if v == &vec![0, 65535, 65535, 0]));
}

#[test]
fn sixteen_bit_luminance_with_alpha() {
    let l = comp(1, 1, 16, false, false, vec![65535]);
    let img = image(ColorSpace::Gray, vec![l]);
    let d = img.get_pixels(Some(0x1_2345)).unwrap();
    assert_eq!(d.format, ImageFormat::La16);
    assert!(matches!(d.data, ImagePixelData::La16(ref v) if v == &vec![65535, 0x2345]));
}

#[test]
fn signed_components_are_recentered() {
    let l = comp(1, 3, 8, true, false, vec![-128, 0, 127]);
    let img = image(ColorSpace::Gray, vec![l]);
    let d = img.get_pixels(None).unwrap();
    assert!(matches!(d.data, ImagePixelData::L8(ref v) if v == &vec![0, 127, 254]));
}

#[test]
fn shortest_component_bounds_the_output() {
    let r = comp(1, 3, 8, false, false, vec![1, 2, 3]);
    let g = comp(1, 2, 8, false, false, vec![4, 5]);
    let b = comp(1, 3, 8, false, false, vec![6, 7, 8]);
    let img = image(ColorSpace::SRGB, vec![r, g, b]);
    let d = img.get_pixels(None).unwrap();
    assert!(matches!(d.data, ImagePixelData::Rgb8(ref v) if v == &vec![1, 4, 6, 2, 5, 7]));
    assert_eq!((d.width, d.height), (1, 3));
}

#[test]
fn no_components_is_an_error() {
    let img = image(ColorSpace::SRGB, vec![]);
    assert!(matches!(img.get_pixels(None), Err(Error::UnsupportedComponentsError(0))));
}

#[test]
fn unsupported_color_spaces_are_rejected() {
    for cs in [ColorSpace::CMYK, ColorSpace::SYCC, ColorSpace::EYCC] {
        let img = image(cs, vec![comp(1, 1, 8, false, false, vec![0])]);
        assert!(matches!(img.get_pixels(None), Err(Error::UnsupportedColorSpaceError(c)) if c == cs));
    }
}

#[test]
fn unsupported_topologies_are_rejected() {
    let c = |alpha: bool| comp(1, 1, 8, false, alpha, vec![0]);
    let two_plain = image(ColorSpace::Gray, vec![c(false), c(false)]);
    assert!(matches!(two_plain.get_pixels(None), Err(Error::UnsupportedComponentsError(2))));
    let five = image(ColorSpace::SRGB, vec![c(false), c(false), c(false), c(false), c(false)]);
    assert!(matches!(five.get_pixels(None), Err(Error::UnsupportedComponentsError(5))));
}

#[test]
fn unsupported_precisions_are_rejected() {
    assert!(ImageComponent::new(1, 1, 1, 1, 17, 17, false, false, vec![0]).is_none());
    assert!(ImageComponent::new(1, 1, 1, 1, 0, 0, false, false, vec![0]).is_none());
    assert!(ImageComponent::new(1, 1, 1, 1, 16, 16, false, false, vec![0]).is_some());
    assert!(ImageComponent::new(1, 1, 1, 1, 1, 1, false, false, vec![0]).is_some());
}

#[test]
fn rgb_with_alpha_flag_is_still_color() {
    let c = |v: i32, alpha: bool| comp(1, 1, 8, false, alpha, vec![v]);
    let img = image(ColorSpace::SRGB, vec![c(10, false), c(20, false), c(30, true)]);
    let d = img.get_pixels(None).unwrap();
    assert_eq!(d.format, ImageFormat::Rgb8);
    assert!(matches!(d.data, ImagePixelData::Rgb8(ref v) if v == &vec![10, 20, 30]));
    let d = img.get_pixels(Some(1)).unwrap();
    assert_eq!(d.format, ImageFormat::Rgba8);
    assert!(matches!(d.data, ImagePixelData::Rgba8(ref v) if v == &vec![10, 20, 30, 1]));
}

#[test]
fn component_data_rescaled_directly() {
    let c = comp(2, 1, 4, false, false, vec![15, 5]);
    assert_eq!(c.data_u8(), vec![255, 85]);
    assert_eq!(c.data_u16(), vec![65535, 21845]);
    assert_eq!(c.data(), &[15, 5]);
    assert_eq!((c.width(), c.height(), c.precision(), c.bpp()), (2, 1, 4, 4));
    assert!(!c.is_alpha());
    assert!(!c.is_signed());
}
