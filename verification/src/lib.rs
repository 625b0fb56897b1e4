//! Live external-state mirror and fan-out engine.
//!
//! The crate keeps a local, continuously updated mirror of state owned by
//! event-driven system services (network connections, cellular modems, audio
//! nodes, devices and routes) and republishes each mirror as a coalesced,
//! latest-value-wins stream.  Every decision the mirrors make — which objects
//! to track, when to rebind, what to publish, how to encode a command — is
//! verified here; the surrounding processes feed events in and carry actions
//! out.

#![verifier::loop_isolation(false)]

pub mod audio;
pub mod defaults;
pub mod fanout;
pub mod hypr;
pub mod mako;
pub mod network;
pub mod process;
pub mod selector;
pub mod shell;
pub mod sysfs;
pub mod text;
pub mod timer;
pub mod tracker;
pub mod volume;
