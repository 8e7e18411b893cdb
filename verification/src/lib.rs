//! Verified core of the nacelle capsule engine.

pub mod text;
pub mod strmap;
pub mod deps;
pub mod supervisor_mode;
pub mod logs;
pub mod socket;
pub mod process;
pub mod manifest;
pub mod job_history;
pub mod storage;
pub mod runtime;
pub mod resolver;
pub mod source;
pub mod validator;
pub mod host_paths;
pub mod path_guard;
pub mod launch_env;
pub mod docker_launch;
pub mod entrypoint;
pub mod native_launch;
pub mod dev_launch;
pub mod sandbox;
pub mod runtime_setup;
pub mod bundle_boot;
pub mod oci_bundle;
pub mod fetch_plan;
pub mod digest;
pub mod oci_cache;
pub mod cas;
pub mod oci_layer;
pub mod ingest;
pub mod artifact_cache;
pub mod registry;
pub mod image;
pub mod signing;
pub mod manifest_verify;
pub mod macos;
pub mod windows;
pub mod toolchain;
pub mod status;
pub mod wasm;
pub mod readiness;
pub mod runtime_config;
pub mod lockfile;
pub mod hydrate;
pub mod oci_launch;
pub mod json;
pub mod docker_manifest;
pub mod audit;
