//! Verified core of a CITA-Cloud storage service: the rules that decide
//! which region/key/value triples the store accepts, the plan of writes that
//! stores a full block, the reassembly of a full block from its stored parts,
//! and the routing decisions of the service front end.

pub mod about;
pub mod block;
pub mod bytes;
pub mod error;
pub mod proto;
pub mod region;
pub mod round_trip;
pub mod service;
pub mod store;

pub use about::clap_about;
pub use region::{check_key, check_region, check_value};
