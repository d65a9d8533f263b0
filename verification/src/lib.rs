//! Verified logic of a small wheeled robot: the AT-command dialogue with its
//! WiFi module, the dashboard it draws, the telemetry it queues and the map
//! that its server keeps.
pub mod text;
pub mod wifi;
pub mod simple_wifi;
pub mod data;
pub mod robot;
pub mod field;
