//! Core client-side logic of an onion-routing client: flow-control windows,
//! the channel map, padding parameters, microdescriptor parsing, directory
//! authorities and the request planning of the HTTP connector.
//!
//! Nothing in this crate waits, locks or touches the network.  What does
//! so calls into this crate with plain values, and acts on what it
//! returns.

pub mod authority;
pub mod chanmap;
pub mod connector;
pub mod crypto;
pub mod microdesc;
pub mod netdoc;
pub mod params;
pub mod sendme;
pub mod time;
pub mod values;
