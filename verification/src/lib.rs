//! Rustwright's bindings to its browser engine, apart from the engine itself.
//!
//! The engine drives Chromium; this library holds what the bindings around it decide and
//! compute. It takes and gives plain values, so that everything in it can be verified:
//!
//! - [`options`], [`events`], [`failure`]: the options, events and failures of the Rust API;
//! - [`pages`]: listing pages under a time limit and a cancellation signal;
//! - [`json`], [`wire`]: JSON values, and the wire format of evaluated scripts;
//! - [`boundary`], [`requests`]: the rules of the C interface;
//! - [`cli`], [`manifest`], [`runner`], [`percent`]: the manifest runner;
//! - [`text`], [`trim`]: the texts that all of these are made of.

pub mod boundary;
pub mod cli;
pub mod events;
pub mod failure;
pub mod json;
pub mod manifest;
pub mod options;
pub mod pages;
pub mod percent;
pub mod requests;
pub mod runner;
pub mod text;
pub mod trim;
pub mod wire;

pub use events::{DialogKind, PageEvent};
pub use failure::Failure;
pub use options::{
    chromium, ActionOptions, Chromium, CloseOptions, ConnectOptions, GotoOptions, LaunchOptions,
    ProxyOptions, ScreenshotOptions,
};
