//! The resource manifest: containers, compute and volumes, and variables.

use vstd::prelude::*;
use crate::strmap::StrMap;

verus! {

#[derive(Debug)]
pub struct Manifest {
    pub resource: StrMap<StrMap<Resource>>,
    pub variable: StrMap<Variable>,
}

#[derive(Debug)]
pub enum Resource {
    Container(ContainerConfig),
    Compute(ComputeConfig),
    Volume(VolumeConfig),
}

#[derive(Debug)]
pub struct Variable {
    pub var_type: String,
    pub sensitive: bool,
}

#[derive(Debug)]
pub struct ComputeConfig {
    pub vram_min: Option<String>,
    pub fallback: Option<String>,
}

#[derive(Debug)]
pub struct NativeConfig {
    pub runtime: String,
    pub args: Vec<String>,
}

#[derive(Debug)]
pub struct ContainerConfig {
    pub image: String,
    pub env: Option<StrMap<String>>,
    pub network: Option<NetworkConfig>,
    pub volumes: Option<Vec<String>>,
    pub native: Option<NativeConfig>,
}

#[derive(Debug)]
pub struct NetworkConfig {
    pub port: u16,
    pub cors: Option<Vec<String>>,
}

#[derive(Debug)]
pub struct VolumeConfig {
    pub source: String,
    pub target: String,
}

} // verus!
