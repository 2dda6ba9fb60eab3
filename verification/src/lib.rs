//! The logic of a desktop shell around a local web server.
//!
//! The shell downloads, verifies and unpacks a pinned runtime on first launch
//! ([`install`], [`download`], [`digest`], [`manifest`]), starts it as a child
//! process ([`launch`], [`paths`]), waits until it serves ([`probe`], [`http`],
//! [`banner`]) and tells the loading page how it went ([`sidecar`], [`progress`]).
//!
//! Whatever touches the disk, the network, processes or the window is left to the
//! caller: each task is a state machine that says what is to be done next and
//! takes how that went. The `*_laws` modules state what holds of whole runs.

pub mod banner;
pub mod decimal;
pub mod digest;
pub mod download;
pub mod download_laws;
pub mod encoding;
pub mod http;
pub mod install;
pub mod install_laws;
pub mod launch;
pub mod manifest;
pub mod paths;
pub mod probe;
pub mod progress;
pub mod sidecar;
pub mod sidecar_laws;
pub mod text;
pub mod text_laws;
