use vstd::prelude::*;

pub mod biome;
pub mod canyon;
pub mod climate;
pub mod config;
pub mod curves;
pub mod fixed;
pub mod flow;
pub mod grid;
pub mod hydro;
pub mod lakes;
pub mod noise_field;
pub mod normalize;
pub mod smooth;
pub mod synth;
pub mod terrain;
pub mod thermal;

pub use biome::{generate_biome_map_from_config, smooth_biome_map, BiomeMap};
pub use climate::{sample_climate, ClimateSample};
pub use config::{BiomeDefinition, HumidityModel, WorldGenConfig};
pub use terrain::{compute_flow_accumulation, generate_heightmap_from_config, HeightChunk,
    Heightmap};

verus! {

use vstd::string::StringSliceAdditionalSpecFns;

/// The hash value after folding the first `k` bytes: multiply by 31 and
/// add the byte, modulo 2^32.
pub open spec fn simple_hash_upto(bytes: Seq<u8>, k: int) -> int
    decreases k,
{
    if k <= 0 {
        0
    } else {
        (simple_hash_upto(bytes, k - 1) * 31 + bytes[k - 1]) % 0x1_0000_0000
    }
}

/// A very small string hash (fold each byte into `31 * h + byte`, modulo
/// 2^32), used by renderers to spread palette colors over biome ids. Not
/// for anything cryptographic.
pub fn simple_hash(s: &str) -> (r: u32)
    ensures
        r == simple_hash_upto(s.spec_bytes(), s.spec_bytes().len() as int),
{
    let b = s.as_bytes();
    let mut h: u64 = 0;
    let mut i: usize = 0;
    while i < b.len()
        invariant
            b@ == s.spec_bytes(),
            0 <= i <= b.len(),
            h == simple_hash_upto(s.spec_bytes(), i as int),
            h < 0x1_0000_0000,
        decreases b.len() - i,
    {
        h = (h * 31 + b[i] as u64) % 0x1_0000_0000;
        i = i + 1;
    }
    h as u32
}

/// Error reported when a world configuration cannot be used at all.
pub enum CoreError {
    Config(String),
}

impl CoreError {
    /// The human-readable description carried by the error.
    pub fn message(&self) -> (r: &String)
        ensures
            self matches CoreError::Config(m) && r == m,
    {
        match self {
            CoreError::Config(m) => m,
        }
    }
}

} // verus!
