//! Restbus simulation of CAN clusters, a setup plugin and test runs.
pub mod assembly;
pub mod can_frame;
pub mod cast;
pub mod cluster;
pub mod custom_setup_plugin;
pub mod error;
pub mod raw_can_frame;
pub mod restbus_simulation;
pub mod sender;
pub mod simulation;
pub mod socket;
pub mod text;
pub mod timing;
pub mod viper_run;
pub mod wire;
