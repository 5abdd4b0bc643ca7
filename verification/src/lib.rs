//! Verified core of the E7012E controller simulator: the text protocol that
//! the controller speaks back over serial, the serial session's decisions,
//! the HTTP API's request handling, and the integer parts of the vehicle
//! controls.

pub mod map;
pub mod decimal;
pub mod text;
pub mod telemetry;
pub mod framing;
pub mod controls;
pub mod settings;
pub mod link;
pub mod strings;
pub mod json;
pub mod http_api;
pub mod map_list;
