//! Supervisor core for a local proxy engine: configuration synthesis from
//! selectable fragments, engine process lifecycle decisions, and the
//! system-proxy state machine that mirrors engine availability into the
//! operating system's proxy settings.

pub mod codec;
pub mod config;
pub mod path;
pub mod synth;
pub mod xray;
pub mod sys;
