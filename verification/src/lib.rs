//! TypoMorph: wrong-layout detection and correction for multilingual
//! typing, offline prompt cleanup, license state, and the decisions of the
//! Linux input daemon and the browser extensions' native host.

pub mod text;
pub mod ring_buffer;
pub mod filter;
pub mod table;
pub mod classifier;
pub mod layout;
pub mod prompt;
pub mod improver;
pub mod licensing;
pub mod cloud;
pub mod native;
pub mod platform;
pub mod daemon;
pub mod tray;
pub mod laws;
