//! The slices of the startup configuration that the pipeline's
//! surroundings hand through: the command line, and the container
//! manager's port budget.

use vstd::prelude::*;

verus! {

/// The command line: where the configuration file lives.
#[derive(Debug)]
pub struct Cli {
    /// Path to the config file.
    pub config_path: String,
}

/// Settings consumed by container management around the pipeline.
#[derive(Debug, Clone)]
pub struct ContainerManagerSettings {
    /// First port that may be allocated to a container.
    pub port_range_start: u16,
    /// One past the last port that may be allocated to a container.
    pub port_range_end: u16,
}

} // verus!
