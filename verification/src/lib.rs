//! Decision core of the acoustic-measurement daemon.
pub mod admin;
pub mod base64;
pub mod busy;
pub mod calibrate;
pub mod calibration;
pub mod capture;
pub mod channel;
pub mod checks;
pub mod clock;
pub mod config;
pub mod double;
pub mod echo;
pub mod emission;
pub mod frames;
pub mod gate;
pub mod json;
pub mod launch;
pub mod message;
pub mod mic;
pub mod mic_curve;
pub mod mode;
pub mod monitor;
pub mod plot;
pub mod point;
pub mod ports;
pub mod reconnect;
pub mod report;
pub mod ring;
pub mod selftest;
pub mod session;
pub mod settings;
pub mod setup;
pub mod snapshot;
pub mod spool;
pub mod tau;
pub mod text;
pub mod verdicts;
pub mod wire;
pub mod worker;
