use raster::color::Rgb;
use raster::shading::{MapSamples, SurfaceMaps};
use raster::texture::{Texture, TextureError};

// An uncompressed 24-bit TGA with its origin at the top left.
fn tga(width: u16, height: u16, bgr: &[[u8; 3]]) -> Vec<u8> {
    let mut v = vec![0u8, 0, 2, 0, 0, 0, 0, 0, 0, 0, 0, 0];
    v.extend_from_slice(&width.to_le_bytes());
    v.extend_from_slice(&height.to_le_bytes());
    v.push(24);
    v.push(0x20);
    for p in bgr {
        v.extend_from_slice(p);
    }
    v
}

#[test]
fn new_texture_is_unbound() {
    let t = Texture::new();
    assert!(!t.loaded);
    assert_eq!(t.get(0), None);
}

#[test]
fn loads_tga_and_samples_channels() {
    let mut t = Texture::new();
    let data = tga(2, 1, &[[3, 2, 1], [30, 20, 10]]);
    assert_eq!(t.load(&data), Ok(()));
    assert!(t.loaded);
    assert_eq!((t.width, t.height), (2, 1));
    assert_eq!(t.get(0), Some(Rgb::new(1, 2, 3)));
    assert_eq!(t.get(1), Some(Rgb::new(10, 20, 30)));
    assert_eq!(t.get(2), None);
    assert_eq!(t.get(-1), None);
    assert_eq!(t.get(i64::MIN), None);
}

// The 26-byte footer: extension and developer offsets, then the signature.
fn footer(ext: u32, dev: u32) -> Vec<u8> {
    let mut v = ext.to_le_bytes().to_vec();
    v.extend_from_slice(&dev.to_le_bytes());
    v.extend_from_slice(b"TRUEVISION-XFILE.\0");
    v
}

#[test]
fn footer_offsets_past_the_file_are_rejected() {
    let mut data = tga(1, 1, &[[3, 2, 1]]);
    data.extend(footer(1000, 0));
    let mut t = Texture::new();
    assert_eq!(t.load(&data), Err(TextureError::Malformed));
    assert!(!t.loaded);

    let mut data = tga(1, 1, &[[3, 2, 1]]);
    data.extend(footer(0, 5000));
    assert_eq!(t.load(&data), Err(TextureError::Malformed));
}

#[test]
fn footer_offsets_within_the_file_are_accepted() {
    let mut data = tga(1, 1, &[[3, 2, 1]]);
    data.extend(footer(0, 0));
    let mut t = Texture::new();
    assert_eq!(t.load(&data), Ok(()));
    assert_eq!(t.get(0), Some(Rgb::new(1, 2, 3)));
}

#[test]
fn malformed_tga_leaves_texture_unbound() {
    let mut t = Texture::new();
    assert_eq!(t.load(&[1, 2, 3]), Err(TextureError::Malformed));
    assert!(!t.loaded);
}

#[test]
fn texel_unpacks_raw_color() {
    let t = Texture::from_decoded(1, 1, vec![0x00AB_CDEF]);
    assert_eq!(t.get(0), Some(Rgb::new(0xAB, 0xCD, 0xEF)));
}

#[test]
fn unbound_maps_use_fallbacks() {
    let m = SurfaceMaps::new();
    let want = MapSamples { base: Rgb::white(), factor: 1, specular_exponent: 0, normal_sample: None };
    assert_eq!(m.samples(0, 0, 0), want);
    assert_eq!(m.samples(i64::MAX, -7, 123456), want);
}

#[test]
fn bound_maps_are_sampled() {
    let mut m = SurfaceMaps::new();
    m.diffuse = Texture::from_decoded(2, 1, vec![0x0010_2030, 0x0040_5060]);
    m.specular = Texture::from_decoded(1, 1, vec![0x0000_0007]);
    m.normal = Texture::from_decoded(1, 1, vec![0x0080_80FF]);
    let s = m.samples(1, 0, 0);
    assert_eq!(s.base, Rgb::new(0x40, 0x50, 0x60));
    assert_eq!(s.factor, 2);
    assert_eq!(s.specular_exponent, 7);
    assert_eq!(s.normal_sample, Some(Rgb::new(0x80, 0x80, 0xFF)));
    let below = m.samples(-1, -1, -1);
    assert_eq!(below.base, Rgb::new(0, 0, 0));
    let miss = m.samples(5, 5, 5);
    assert_eq!(miss.base, Rgb::new(0, 0, 0));
    assert_eq!(miss.specular_exponent, 0);
    assert_eq!(miss.normal_sample, Some(Rgb::new(0, 0, 0)));
}
