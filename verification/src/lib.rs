//! The relay that tunnels host clients into a sandbox, and the gateway's
//! composition of compute drivers.

pub mod control;
pub mod control_laws;
pub mod control_relay;
pub mod driver_config;
pub mod drivers;
pub mod encoding;
pub mod json;
pub mod launch_scripts;
pub mod octets;
pub mod registry;
pub mod relay;
pub mod relay_laws;
pub mod text;
