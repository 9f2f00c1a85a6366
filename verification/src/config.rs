//! Configuration: the engine's settings and the scene it starts with.

use crate::animation::ShadersConfig;
use crate::auxiliary_data::manager::AuxiliaryConfigParams;
use crate::auxiliary_data::AuxiliaryDataTypeConsumer;
use crate::devices::manager::DeviceConfigType;
use crate::id::AuxiliaryId;
use crate::table::Table;
use crate::world::Coord;
use vstd::prelude::*;

verus! {

/// The engine's settings.
#[derive(Debug)]
pub struct EmblinkenatorConfig {
    /// Depth of the channels between the stations, and the number of frame
    /// intervals of lateness that are let pass before a warning.
    pub frame_buffer_size: u32,
    /// Numerator of the frame interval in milliseconds.
    pub frame_numerator: u32,
    /// Denominator of the frame interval in milliseconds.
    pub frame_denominator: u32,
    /// LEDs per GPU workgroup.
    pub leds_per_compute_group: u32,
    pub shaders: ShadersConfig,
}

impl EmblinkenatorConfig {
    pub fn frame_buffer_size(&self) -> (n: u32)
        ensures
            n == self.frame_buffer_size,
    {
        self.frame_buffer_size
    }

    pub fn frame_numerator(&self) -> (n: u32)
        ensures
            n == self.frame_numerator,
    {
        self.frame_numerator
    }

    pub fn frame_denominator(&self) -> (n: u32)
        ensures
            n == self.frame_denominator,
    {
        self.frame_denominator
    }

    pub fn leds_per_compute_group(&self) -> (n: u32)
        ensures
            n == self.leds_per_compute_group,
    {
        self.leds_per_compute_group
    }
}

impl Default for EmblinkenatorConfig {
    /// Twenty-five frames per second, ten frames of buffer, sixty-four LEDs
    /// per workgroup, shaders from the folder `shaders`.
    fn default() -> (config: Self)
        ensures
            config.frame_buffer_size == 10,
            config.frame_numerator == 1000,
            config.frame_denominator == 25,
            config.leds_per_compute_group == 64,
            config.shaders.shader_folders@.len() == 1,
            config.shaders.shader_folders@[0]@ == "shaders"@,
    {
        EmblinkenatorConfig {
            frame_buffer_size: 10,
            frame_numerator: 1000,
            frame_denominator: 25,
            leds_per_compute_group: 64,
            shaders: ShadersConfig::default(),
        }
    }
}

/// A fixture of the starting scene.
#[derive(Debug)]
pub struct StartupFixture {
    pub id: String,
    pub num_leds: u32,
    pub led_positions: Option<Vec<Coord>>,
}

/// What an animation of the starting scene runs on.
#[derive(Debug)]
pub enum StartupAnimationTargetType {
    Fixture(String),
    Installation(String),
    Group(String),
}

/// An animation of the starting scene.
#[derive(Debug)]
pub struct StartupAnimations {
    pub id: String,
    pub shader_id: String,
    pub target_id: StartupAnimationTargetType,
}

/// An auxiliary of the starting scene. Scalars are given by their bit
/// patterns.
#[derive(Debug)]
pub enum StartupAuxiliaries {
    F32 {
        id: String,
        name: String,
        initial_value: Option<u32>,
        max_value: Option<u32>,
        min_value: Option<u32>,
    },
    F32Vec { id: String, name: String },
    F32Vec2 { id: String, name: String },
    F32Vec3 { id: String, name: String },
    F32Vec4 { id: String, name: String },
}

/// A device of the starting scene.
#[derive(Debug)]
pub struct StartupDevice {
    pub id: String,
    pub config: DeviceConfigType,
}

/// The value given, or `fallback` where none is given.
pub open spec fn given_or(given: Option<u32>, fallback: u32) -> u32 {
    match given {
        Some(v) => v,
        None => fallback,
    }
}

/// The scene that the engine starts with.
#[derive(Debug)]
pub struct StartupConfig {
    pub fixtures: Vec<StartupFixture>,
    pub animations: Vec<StartupAnimations>,
    pub auxiliaries: Vec<StartupAuxiliaries>,
    pub devices: Vec<StartupDevice>,
    /// The device of each fixture.
    pub fixtures_to_device: Table<String>,
    /// The auxiliaries of each animation, by slot.
    pub animation_auxiliary_sources: Table<Vec<String>>,
}

impl StartupAuxiliaries {
    /// The name of the auxiliary.
    pub open spec fn spec_name(&self) -> Seq<char> {
        match self {
            StartupAuxiliaries::F32 { name, .. } => name@,
            StartupAuxiliaries::F32Vec { name, .. } => name@,
            StartupAuxiliaries::F32Vec2 { name, .. } => name@,
            StartupAuxiliaries::F32Vec3 { name, .. } => name@,
            StartupAuxiliaries::F32Vec4 { name, .. } => name@,
        }
    }

    /// The text of the auxiliary's identifier.
    pub open spec fn spec_id(&self) -> Seq<char> {
        match self {
            StartupAuxiliaries::F32 { id, .. } => id@,
            StartupAuxiliaries::F32Vec { id, .. } => id@,
            StartupAuxiliaries::F32Vec2 { id, .. } => id@,
            StartupAuxiliaries::F32Vec3 { id, .. } => id@,
            StartupAuxiliaries::F32Vec4 { id, .. } => id@,
        }
    }

    /// The shape of the auxiliary.
    pub open spec fn spec_kind(&self) -> AuxiliaryDataTypeConsumer {
        match self {
            StartupAuxiliaries::F32 { .. } => AuxiliaryDataTypeConsumer::F32,
            StartupAuxiliaries::F32Vec { .. } => AuxiliaryDataTypeConsumer::F32Vec,
            StartupAuxiliaries::F32Vec2 { .. } => AuxiliaryDataTypeConsumer::F32Vec2,
            StartupAuxiliaries::F32Vec3 { .. } => AuxiliaryDataTypeConsumer::F32Vec3,
            StartupAuxiliaries::F32Vec4 { .. } => AuxiliaryDataTypeConsumer::F32Vec4,
        }
    }

    /// The name of the auxiliary.
    pub fn get_name(&self) -> (name: String)
        ensures
            name@ == self.spec_name(),
    {
        match self {
            StartupAuxiliaries::F32 { name, .. } => name.clone(),
            StartupAuxiliaries::F32Vec { name, .. } => name.clone(),
            StartupAuxiliaries::F32Vec2 { name, .. } => name.clone(),
            StartupAuxiliaries::F32Vec3 { name, .. } => name.clone(),
            StartupAuxiliaries::F32Vec4 { name, .. } => name.clone(),
        }
    }

    /// The auxiliary's identifier.
    pub fn auxiliary_id(&self) -> (id: AuxiliaryId)
        ensures
            id@ == self.spec_id(),
    {
        match self {
            StartupAuxiliaries::F32 { id, .. } => AuxiliaryId::new_from(id.clone()),
            StartupAuxiliaries::F32Vec { id, .. } => AuxiliaryId::new_from(id.clone()),
            StartupAuxiliaries::F32Vec2 { id, .. } => AuxiliaryId::new_from(id.clone()),
            StartupAuxiliaries::F32Vec3 { id, .. } => AuxiliaryId::new_from(id.clone()),
            StartupAuxiliaries::F32Vec4 { id, .. } => AuxiliaryId::new_from(id.clone()),
        }
    }

    /// The shape of the auxiliary.
    pub fn consumer_type(&self) -> (kind: AuxiliaryDataTypeConsumer)
        ensures
            kind == self.spec_kind(),
    {
        match self {
            StartupAuxiliaries::F32 { .. } => AuxiliaryDataTypeConsumer::F32,
            StartupAuxiliaries::F32Vec { .. } => AuxiliaryDataTypeConsumer::F32Vec,
            StartupAuxiliaries::F32Vec2 { .. } => AuxiliaryDataTypeConsumer::F32Vec2,
            StartupAuxiliaries::F32Vec3 { .. } => AuxiliaryDataTypeConsumer::F32Vec3,
            StartupAuxiliaries::F32Vec4 { .. } => AuxiliaryDataTypeConsumer::F32Vec4,
        }
    }

    /// The bit pattern of 1.
    pub open spec fn one() -> u32 {
        0x3f80_0000
    }

    /// The parameters that the auxiliary starts with. A scalar without an
    /// initial value starts at 0, one without a least value has 0 and one
    /// without a largest value has 1. Given bounds are passed on as they
    /// are; holding them to the range from 0 to 1 is left to whoever reads
    /// them as numbers.
    pub fn config_params(&self) -> (params: AuxiliaryConfigParams)
        ensures
            params.spec_kind() == self.spec_kind(),
            self matches StartupAuxiliaries::F32 { initial_value, max_value, min_value, .. }
                ==> params == (AuxiliaryConfigParams::F32 {
                initial_value: given_or(*initial_value, 0),
                max_value: given_or(*max_value, Self::one()),
                min_value: given_or(*min_value, 0),
            }),
    {
        match self {
            StartupAuxiliaries::F32 { initial_value, max_value, min_value, .. } => {
                AuxiliaryConfigParams::F32 {
                    initial_value: match initial_value {
                        Some(v) => *v,
                        None => 0,
                    },
                    max_value: match max_value {
                        Some(v) => *v,
                        None => 0x3f80_0000,
                    },
                    min_value: match min_value {
                        Some(v) => *v,
                        None => 0,
                    },
                }
            },
            StartupAuxiliaries::F32Vec { .. } => AuxiliaryConfigParams::F32Vec,
            StartupAuxiliaries::F32Vec2 { .. } => AuxiliaryConfigParams::F32Vec2,
            StartupAuxiliaries::F32Vec3 { .. } => AuxiliaryConfigParams::F32Vec3,
            StartupAuxiliaries::F32Vec4 { .. } => AuxiliaryConfigParams::F32Vec4,
        }
    }
}

} // verus!
