//! What the bound texture maps contribute to shading one fragment.
use vstd::prelude::*;
use crate::color::Rgb;
use crate::texture::{Texture, texel};

verus! {

/// The diffuse, normal and specular maps of a surface; each may be unbound.
#[derive(Debug)]
pub struct SurfaceMaps {
    pub diffuse: Texture,
    pub normal: Texture,
    pub specular: Texture,
}

/// The texture-derived inputs of the lighting of one fragment.
#[derive(Debug, Clone, Copy, PartialEq, Eq, Structural)]
pub struct MapSamples {
    /// The base color: the diffuse sample, or opaque white when no diffuse
    /// map is bound.
    pub base: Rgb,
    /// The brightness factor: 2 with a diffuse map, 1 without.
    pub factor: u32,
    /// Added to the specular power: the blue channel of the specular sample,
    /// or 0 when no specular map is bound.
    pub specular_exponent: u32,
    /// The tangent-space normal sample when a normal map is bound; `None`
    /// means the interpolated normal is used unperturbed.
    pub normal_sample: Option<Rgb>,
}

/// A texel, with a sample outside the grid reading as black.
pub open spec fn sample_or_black(t: &Texture, idx: int) -> Rgb {
    match texel(t, idx) {
        Some(c) => c,
        None => Rgb { r: 0, g: 0, b: 0 },
    }
}

/// What the maps give a fragment whose texture coordinate falls on texel
/// `di` of the diffuse map, `ni` of the normal map and `si` of the specular map.
pub open spec fn samples_of(m: &SurfaceMaps, di: int, ni: int, si: int) -> MapSamples {
    MapSamples {
        base: if m.diffuse.loaded { sample_or_black(&m.diffuse, di) } else { Rgb { r: 255, g: 255, b: 255 } },
        factor: if m.diffuse.loaded { 2 } else { 1 },
        specular_exponent: if m.specular.loaded { sample_or_black(&m.specular, si).b as u32 } else { 0 },
        normal_sample: if m.normal.loaded { Some(sample_or_black(&m.normal, ni)) } else { None },
    }
}

/// The inputs of a surface with no map bound.
pub open spec fn unbound_samples() -> MapSamples {
    MapSamples { base: Rgb { r: 255, g: 255, b: 255 }, factor: 1, specular_exponent: 0, normal_sample: None }
}

fn sample(t: &Texture, idx: i64) -> (c: Rgb)
    ensures
        c == sample_or_black(t, idx as int),
{
    match t.get(idx) {
        Some(c) => c,
        None => Rgb::new(0, 0, 0),
    }
}

impl SurfaceMaps {
    /// A surface with no map bound.
    pub fn new() -> (m: SurfaceMaps)
        ensures
            !m.diffuse.loaded,
            !m.normal.loaded,
            !m.specular.loaded,
    {
        SurfaceMaps { diffuse: Texture::new(), normal: Texture::new(), specular: Texture::new() }
    }

    /// Samples each bound map at its texel index; an unbound map is not read.
    pub fn samples(&self, di: i64, ni: i64, si: i64) -> (r: MapSamples)
        ensures
            r == samples_of(self, di as int, ni as int, si as int),
    {
        let base = if self.diffuse.loaded { sample(&self.diffuse, di) } else { Rgb::white() };
        let factor: u32 = if self.diffuse.loaded { 2 } else { 1 };
        let specular_exponent: u32 = if self.specular.loaded { sample(&self.specular, si).b as u32 } else { 0 };
        let normal_sample = if self.normal.loaded { Some(sample(&self.normal, ni)) } else { None };
        MapSamples { base, factor, specular_exponent, normal_sample }
    }
}

/// With no map bound, every fragment gets the same inputs, whatever its
/// texture coordinate: a white base, factor 1, no specular exponent and no
/// normal perturbation.
pub proof fn lemma_unbound_maps_fall_back(m: &SurfaceMaps, di: int, ni: int, si: int)
    requires
        !m.diffuse.loaded,
        !m.normal.loaded,
        !m.specular.loaded,
    ensures
        samples_of(m, di, ni, si) == unbound_samples(),
{
}

} // verus!
