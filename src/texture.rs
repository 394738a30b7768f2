//! Texture maps decoded from TGA images, and sampling them by texel index.
use vstd::prelude::*;
use crate::color::Rgb;

verus! {

/// What tinytga makes of the bytes of a TGA file: width, height and the raw
/// color of each pixel in row order, or nothing if it cannot parse them.
pub uninterp spec fn tga_decode(data: Seq<u8>) -> Option<(u16, u16, Seq<u32>)>;

/// The signature that ends a TGA 2.0 file: `TRUEVISION-XFILE.` and a NUL.
pub open spec fn footer_signature() -> Seq<u8> {
    seq![84u8, 82, 85, 69, 86, 73, 83, 73, 79, 78, 45, 88, 70, 73, 76, 69, 46, 0]
}

/// The little-endian `u32` at byte `p` of `d`.
pub open spec fn le_u32_at(d: Seq<u8>, p: int) -> int {
    d[p] + d[p + 1] * 0x100 + d[p + 2] * 0x1_0000 + d[p + 3] * 0x100_0000
}

/// `d` ends in a TGA 2.0 footer: two offsets and the signature.
pub open spec fn has_footer(d: Seq<u8>) -> bool {
    d.len() >= 26 && d.subrange(d.len() - 18, d.len() as int) == footer_signature()
}

/// The offsets of the extension area and the developer directory that a
/// footer gives both lie within the file.
pub open spec fn footer_offsets_fit(d: Seq<u8>) -> bool {
    has_footer(d) ==> le_u32_at(d, d.len() - 26) <= d.len() && le_u32_at(d, d.len() - 22) <= d.len()
}

/// Whether the footer offsets of `data`, if it has a footer, lie within it.
pub fn footer_fits(data: &[u8]) -> (ok: bool)
    ensures
        ok == footer_offsets_fit(data@),
{
    let n = data.len();
    if n < 26 {
        return true;
    }
    let sig: [u8; 18] = [84, 82, 85, 69, 86, 73, 83, 73, 79, 78, 45, 88, 70, 73, 76, 69, 46, 0];
    assert(sig@ =~= footer_signature());
    let mut i: usize = 0;
    while i < 18
        invariant
            n == data@.len(),
            n >= 26,
            i <= 18,
            sig@ == footer_signature(),
            forall|j: int| 0 <= j < i ==> data@[n - 18 + j] == #[trigger] footer_signature()[j],
        decreases 18 - i,
    {
        if data[n - 18 + i] != sig[i] {
            assert(data@.subrange(n - 18, n as int)[i as int] != footer_signature()[i as int]);
            return true;
        }
        i = i + 1;
    }
    assert(data@.subrange(n - 18, n as int) =~= footer_signature());
    let ext: u64 = data[n - 26] as u64 + data[n - 25] as u64 * 0x100 + data[n - 24] as u64 * 0x1_0000
        + data[n - 23] as u64 * 0x100_0000;
    let dev: u64 = data[n - 22] as u64 + data[n - 21] as u64 * 0x100 + data[n - 20] as u64 * 0x1_0000
        + data[n - 19] as u64 * 0x100_0000;
    ext <= n as u64 && dev <= n as u64
}

/// Relies on tinytga's `RawTga::from_slice` to parse the image, on its
/// `header` for the dimensions and on its `pixels` iterator for the raw
/// pixel colors, in the order the iterator yields them. `from_slice`
/// subtracts the footer's offsets from the file length unchecked, so the
/// offsets must lie within the file.
#[verifier::external_body]
fn decode_tga(data: &[u8]) -> (r: Option<(u16, u16, Vec<u32>)>)
    requires
        footer_offsets_fit(data@),
    ensures
        match r {
            Some(img) => tga_decode(data@) == Some((img.0, img.1, img.2@)),
            None => tga_decode(data@) is None,
        },
{
    match tinytga::RawTga::from_slice(data) {
        Ok(tga) => {
            let header = tga.header();
            Some((header.width, header.height, tga.pixels().map(|p| p.color).collect()))
        },
        Err(_) => None,
    }
}

/// Why a texture could not be loaded.
#[derive(Debug, Clone, Copy, PartialEq, Eq, Structural)]
pub enum TextureError {
    /// The bytes are not a TGA image.
    Malformed,
}

/// The channels of a raw pixel color laid out as `0x__RRGGBB`.
pub open spec fn unpack(c: u32) -> Rgb {
    Rgb { r: ((c / 0x1_0000) % 0x100) as u8, g: ((c / 0x100) % 0x100) as u8, b: (c % 0x100) as u8 }
}

/// A grid of raw pixel colors in row order; `loaded` says whether a map is
/// bound at all.
#[derive(Debug)]
pub struct Texture {
    pub width: u32,
    pub height: u32,
    pub pixels: Vec<u32>,
    pub loaded: bool,
}

/// The texel at linear index `idx`, or nothing outside the grid.
pub open spec fn texel(t: &Texture, idx: int) -> Option<Rgb> {
    if 0 <= idx < t.pixels@.len() {
        Some(unpack(t.pixels@[idx]))
    } else {
        None
    }
}

impl Texture {
    /// An unbound map.
    pub fn new() -> (t: Texture)
        ensures
            !t.loaded,
            t.width == 0,
            t.height == 0,
            t.pixels@.len() == 0,
    {
        Texture { width: 0, height: 0, pixels: Vec::new(), loaded: false }
    }

    /// A bound map holding an already decoded image.
    pub fn from_decoded(width: u16, height: u16, pixels: Vec<u32>) -> (t: Texture)
        ensures
            t.loaded,
            t.width == width,
            t.height == height,
            t.pixels@ == pixels@,
    {
        Texture { width: width as u32, height: height as u32, pixels, loaded: true }
    }

    /// Binds the image that the TGA bytes `data` hold; on malformed bytes
    /// the texture is left as it was.
    pub fn load(&mut self, data: &[u8]) -> (r: Result<(), TextureError>)
        ensures
            r is Err <==> (!footer_offsets_fit(data@) || tga_decode(data@) is None),
            r is Err ==> r == Err::<(), TextureError>(TextureError::Malformed) && final(self).loaded
                == old(self).loaded && final(self).width == old(self).width && final(self).height
                == old(self).height && final(self).pixels@ == old(self).pixels@,
            r is Ok ==> footer_offsets_fit(data@) && final(self).loaded && tga_decode(data@) == Some(
                (final(self).width as u16, final(self).height as u16, final(self).pixels@),
            ) && final(self).width < 0x1_0000 && final(self).height < 0x1_0000,
    {
        if !footer_fits(data) {
            return Err(TextureError::Malformed);
        }
        match decode_tga(data) {
            Some((w, h, px)) => {
                *self = Texture::from_decoded(w, h, px);
                Ok(())
            },
            None => Err(TextureError::Malformed),
        }
    }

    /// The texel at linear index `idx` (row times width plus column), or
    /// `None` where the index falls outside the grid.
    pub fn get(&self, idx: i64) -> (r: Option<Rgb>)
        ensures
            r == texel(self, idx as int),
    {
        if 0 <= idx && (idx as u64) < (self.pixels.len() as u64) {
            let c: u32 = self.pixels[idx as usize];
            let r: u8 = ((c >> 16u32) & 0xffu32) as u8;
            let g: u8 = ((c >> 8u32) & 0xffu32) as u8;
            let b: u8 = (c & 0xffu32) as u8;
            assert(((c >> 16u32) & 0xffu32) == (c / 0x1_0000) % 0x100) by (bit_vector);
            assert(((c >> 8u32) & 0xffu32) == (c / 0x100) % 0x100) by (bit_vector);
            assert((c & 0xffu32) == c % 0x100) by (bit_vector);
            Some(Rgb { r, g, b })
        } else {
            None
        }
    }
}

} // verus!
