//! Drive a mobile UI by enumerating every action a screen allows and letting a
//! judge pick one: the verified core of the pilot.
pub mod act;
pub mod cli;
pub mod client;
pub mod credential;
pub mod desk;
pub mod device;
pub mod judgment;
pub mod mcp;
pub mod pilot;
pub mod platform;
pub mod snapshot;
pub mod step;
pub mod text;
pub mod update;
