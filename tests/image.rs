use jpeg2k::{ColorSpace, Error, Image, ImageComponent, TextureFormat};

#[test]
fn component_requires_matching_sample_count() {
    assert!(ImageComponent::new(1, 1, 2, 2, 8, 8, false, false, vec![0; 4]).is_some());
    assert!(ImageComponent::new(1, 1, 2, 2, 8, 8, false, false, vec![0; 3]).is_none());
    assert!(ImageComponent::new(1, 1, 0, 5, 8, 8, false, false, vec![]).is_some());
}

#[test]
fn component_keeps_subsampling_factors() {
    let c = ImageComponent::new(2, 3, 1, 1, 8, 8, false, false, vec![0]).unwrap();
    assert_eq!((c.dx(), c.dy()), (2, 3));
}

#[test]
fn image_geometry() {
    let c = ImageComponent::new(1, 1, 3, 2, 8, 8, false, false, vec![0; 6]).unwrap();
    let img = Image::new(10, 20, 110, 220, ColorSpace::SRGB, true, vec![c]).unwrap();
    assert_eq!(img.x_offset(), 10);
    assert_eq!(img.y_offset(), 20);
    assert_eq!(img.orig_width(), 100);
    assert_eq!(img.orig_height(), 200);
    assert_eq!(img.width(), 3);
    assert_eq!(img.height(), 2);
    assert_eq!(img.num_components(), 1);
    assert!(img.has_icc_profile());
    assert_eq!(img.color_space(), ColorSpace::SRGB);
    assert_eq!(img.components().len(), 1);
}

#[test]
fn image_without_components_has_no_size() {
    let img = Image::new(0, 0, 4, 4, ColorSpace::Gray, false, vec![]).unwrap();
    assert_eq!((img.width(), img.height()), (0, 0));
    assert_eq!(img.num_components(), 0);
}

#[test]
fn image_rejects_inverted_extent() {
    assert!(Image::new(5, 0, 4, 4, ColorSpace::Gray, false, vec![]).is_none());
    assert!(Image::new(0, 5, 4, 4, ColorSpace::Gray, false, vec![]).is_none());
}

#[test]
fn texture_from_three_components_adds_opaque_alpha() {
    let c = |v: Vec<i32>| ImageComponent::new(1, 1, 1, 2, 8, 8, false, false, v).unwrap();
    let img = Image::new(0, 0, 1, 2, ColorSpace::SRGB, false, vec![c(vec![1, 2]), c(vec![3, 4]), c(vec![5, 6])]).unwrap();
    let t = img.texture_data().unwrap();
    assert_eq!(t.format, TextureFormat::Rgba8UnormSrgb);
    assert_eq!(t.data, vec![1, 3, 5, 255, 2, 4, 6, 255]);
    assert_eq!((t.width, t.height), (1, 2));
}

#[test]
fn texture_from_one_component_keeps_low_byte() {
    let c = ImageComponent::new(1, 1, 3, 1, 12, 12, false, false, vec![0x1FF, 7, 256]).unwrap();
    let img = Image::new(0, 0, 3, 1, ColorSpace::Gray, false, vec![c]).unwrap();
    let t = img.texture_data().unwrap();
    assert_eq!(t.format, TextureFormat::R8Unorm);
    assert_eq!(t.data, vec![0xFF, 7, 0]);
}

#[test]
fn texture_rejects_two_components() {
    let c = || ImageComponent::new(1, 1, 1, 1, 8, 8, false, false, vec![0]).unwrap();
    let img = Image::new(0, 0, 1, 1, ColorSpace::Gray, false, vec![c(), c()]).unwrap();
    assert!(matches!(img.texture_data(), Err(Error::UnsupportedComponentsError(2))));
    let none = Image::new(0, 0, 1, 1, ColorSpace::Gray, false, vec![]).unwrap();
    assert!(matches!(none.texture_data(), Err(Error::UnsupportedComponentsError(0))));
}
