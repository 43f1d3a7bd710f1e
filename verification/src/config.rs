use vstd::prelude::*;

verus! {

use crate::fixed::FP_ONE;

/// Which synthetic humidity profile the climate model uses.
#[derive(PartialEq, Eq, Structural, Clone, Copy)]
pub enum HumidityModel {
    /// Wet equator, dry subtropical belt, moderately wet high latitudes.
    Banded,
    /// Simple equator-biased falloff.
    EquatorFalloff,
}

/// One biome the classifier may assign: an identifier, the climate ranges it
/// covers, and a few display-facing attributes. All scalar fields are
/// fixed-point (`FP_ONE` = one degree Celsius, one meter, one millimeter per
/// year, or 1.0 of unitless humidity).
pub struct BiomeDefinition {
    pub id: String,
    pub temperature_min_c: i64,
    pub temperature_max_c: i64,
    pub humidity_min: i64,
    pub humidity_max: i64,
    pub elevation_min_m: i64,
    pub elevation_max_m: i64,
    pub precipitation_min_mm: i64,
    pub precipitation_max_mm: i64,
    pub vegetation_density: i64,
    pub allow_settlements: bool,
}

impl BiomeDefinition {
    /// Sane numeric bounds: each range is ordered and each bound fits well
    /// inside the fixed-point arithmetic window.
    pub open spec fn valid(self) -> bool {
        &&& -0x100_0000_0000 <= self.temperature_min_c <= self.temperature_max_c
            <= 0x100_0000_0000
        &&& -0x100_0000_0000 <= self.humidity_min <= self.humidity_max <= 0x100_0000_0000
        &&& -0x100_0000_0000 <= self.elevation_min_m <= self.elevation_max_m <= 0x100_0000_0000
        &&& -0x100_0000_0000 <= self.precipitation_min_mm <= self.precipitation_max_mm
            <= 0x100_0000_0000
    }

    /// Check [`BiomeDefinition::valid`] at run time.
    pub fn check(&self) -> (ok: bool)
        ensures
            ok == self.valid(),
    {
        -0x100_0000_0000 <= self.temperature_min_c && self.temperature_min_c
            <= self.temperature_max_c && self.temperature_max_c <= 0x100_0000_0000
            && -0x100_0000_0000 <= self.humidity_min && self.humidity_min <= self.humidity_max
            && self.humidity_max <= 0x100_0000_0000 && -0x100_0000_0000 <= self.elevation_min_m
            && self.elevation_min_m <= self.elevation_max_m && self.elevation_max_m
            <= 0x100_0000_0000 && -0x100_0000_0000 <= self.precipitation_min_mm
            && self.precipitation_min_mm <= self.precipitation_max_mm && self.precipitation_max_mm
            <= 0x100_0000_0000
    }
}

/// The scalar knobs and biome list the generator reads. Every scalar is a
/// fixed-point `i64`; seeds are plain `u64` values.
pub struct WorldGenConfig {
    /// Seed for the biome boundary and climate noise.
    pub world_seed: u64,
    /// Seed for the terrain noise fields.
    pub base_seed: u64,
    /// Continental scale in kilometers (fixed-point).
    pub continental_scale_km: i64,
    /// Mountain amplitude in meters; 3500 m gives the baseline ridge height.
    pub mountain_amplitude_m: i64,
    /// Thermal erosion iteration count.
    pub erosion_iterations: u32,
    /// River density knob; 1.0 gives the baseline carving threshold.
    pub river_density: i64,
    /// Sea level as a normalized height in `[0, 1)`.
    pub sea_level: i64,
    /// Sea level in meters, used by the climate side of classification and
    /// configured independently of the normalized threshold above.
    pub sea_level_m: i64,
    /// Relief in meters that a normalized height of 1.0 stands for.
    pub max_relief_m: i64,
    /// Planet-mean surface temperature in degrees Celsius.
    pub base_temperature_c: i64,
    /// Global mean humidity in `[0, 1]`.
    pub humidity_global_mean: i64,
    /// Which humidity profile to use.
    pub humidity_model: HumidityModel,
    /// Temperature lapse rate in degrees Celsius per kilometer of elevation.
    pub lapse_rate_c_per_km: i64,
    /// Scale factor for the baseline 1000 mm/year of precipitation.
    pub precipitation_scale: i64,
    /// Storm frequency knob.
    pub storm_frequency: i64,
    /// Mean storm intensity knob.
    pub storm_intensity_mean: i64,
    /// The ordered biome list that classification indexes into.
    pub biomes: Vec<BiomeDefinition>,
}

impl WorldGenConfig {
    /// Numeric bounds under which every stage of the pipeline is free of
    /// overflow. These are machine limits, far outside any plausible world.
    pub open spec fn valid(self) -> bool {
        &&& 0 <= self.continental_scale_km <= 0x3b9a_ca00
        &&& 0 <= self.mountain_amplitude_m <= 0x4_0000_0000
        &&& 0 <= self.river_density <= 0x400_0000
        &&& 0 <= self.sea_level <= FP_ONE - 1
        &&& 0 <= self.sea_level_m <= 0x100_0000_0000
        &&& FP_ONE <= self.max_relief_m <= 0x5000_0000
        &&& -0x100_0000 <= self.base_temperature_c <= 0x100_0000
        &&& 0 <= self.humidity_global_mean <= FP_ONE
        &&& -0x100_0000 <= self.lapse_rate_c_per_km <= 0x100_0000
        &&& 0 <= self.precipitation_scale <= 0x100_0000
        &&& 0 <= self.storm_frequency <= 0x100_0000
        &&& 0 <= self.storm_intensity_mean <= 0x100_0000
        &&& self.biomes.len() <= 255
        &&& forall|i: int| 0 <= i < self.biomes.len() ==> (#[trigger] self.biomes[i]).valid()
    }

    /// Check [`WorldGenConfig::valid`] at run time, reporting the first
    /// problem found.
    pub fn validate(&self) -> (r: Result<(), crate::CoreError>)
        ensures
            r is Ok <==> self.valid(),
    {
        let scalars_ok = 0 <= self.continental_scale_km && self.continental_scale_km
            <= 0x3b9a_ca00 && 0 <= self.mountain_amplitude_m && self.mountain_amplitude_m
            <= 0x4_0000_0000 && 0 <= self.river_density
            && self.river_density <= 0x400_0000 && 0 <= self.sea_level && self.sea_level <= FP_ONE
            - 1 && 0 <= self.sea_level_m && self.sea_level_m <= 0x100_0000_0000 && FP_ONE
            <= self.max_relief_m && self.max_relief_m <= 0x5000_0000 && -0x100_0000
            <= self.base_temperature_c && self.base_temperature_c <= 0x100_0000 && 0
            <= self.humidity_global_mean && self.humidity_global_mean <= FP_ONE && -0x100_0000
            <= self.lapse_rate_c_per_km && self.lapse_rate_c_per_km <= 0x100_0000 && 0
            <= self.precipitation_scale && self.precipitation_scale <= 0x100_0000 && 0
            <= self.storm_frequency && self.storm_frequency <= 0x100_0000 && 0
            <= self.storm_intensity_mean && self.storm_intensity_mean <= 0x100_0000;
        if !scalars_ok {
            return Err(crate::CoreError::Config("a scalar knob is out of range".to_string()));
        }
        if self.biomes.len() > 255 {
            return Err(crate::CoreError::Config("too many biome definitions".to_string()));
        }
        let mut i: usize = 0;
        while i < self.biomes.len()
            invariant
                0 <= i <= self.biomes.len(),
                forall|j: int| 0 <= j < i ==> (#[trigger] self.biomes[j]).valid(),
            decreases self.biomes.len() - i,
        {
            if !self.biomes[i].check() {
                return Err(
                    crate::CoreError::Config("a biome climate range is malformed".to_string()),
                );
            }
            i = i + 1;
        }
        Ok(())
    }

    /// The normalized sea level used by the terrain layer and the meters
    /// sea level used by classification are two independently configured
    /// thresholds that are deliberately not reconciled to one value; when
    /// both are in use this returns a validation warning saying so.
    pub fn sea_level_warning(&self) -> (r: Option<String>)
        ensures
            r is Some <==> self.sea_level != 0 && self.sea_level_m != 0,
    {
        if self.sea_level != 0 && self.sea_level_m != 0 {
            Some(
                "the normalized sea level and the climate sea level in meters are independent settings; both are set".to_string(),
            )
        } else {
            None
        }
    }
}

/// Descriptive metadata of a world configuration.
pub struct MetaConfig {
    pub name: String,
    pub description: String,
    pub author: String,
    pub created_at: String,
}

/// Seasonal cycle settings of the climate model.
pub struct SeasonalityConfig {
    pub enabled: bool,
    pub season_count: u32,
    pub season_length_days: u32,
}

/// How movable objects mark the terrain they cross.
pub struct ObjectInteractionConfig {
    pub leave_tracks: bool,
    pub track_types: Vec<String>,
}

/// Settings of the narrative quest generator.
pub struct QuestGenerationConfig {
    pub enabled: bool,
    pub max_active_quests_per_player: u32,
    pub use_real_world_state: bool,
    pub preferred_quest_types: Vec<String>,
}

/// Physics solver settings of the simulation.
pub struct SimulationPhysicsConfig {
    pub solver_accuracy: String,
    pub max_substeps: u32,
}

/// Level-of-detail settings of the simulation.
pub struct SimulationLodConfig {
    pub terrain_lod_levels: u32,
    pub object_lod_levels: u32,
    pub destruction_lod_levels: u32,
}

} // verus!
