//! Wireless interface queries for Linux: the catalogue of interfaces that
//! report wireless statistics, the identifier of the network an interface is
//! associated with, and the access points that an active scan discovers.
//!
//! Everything here computes on plain values. Reading the statistics file,
//! issuing the control request and calling the wireless configuration
//! library are left to the caller, who hands over what came back.
//!
//! - `catalog`: the interfaces that the kernel's table of wireless
//!   statistics lists.
//! - `essid`: the control request for an interface's identifier, and what
//!   the kernel's reply says.
//! - `scan`: the steps of a scan, each decided by what the last call into
//!   the wireless configuration library returned.
//! - `traversal`: what those steps amount to over a whole list of results.
//! - `text`: searching and trimming text, and decoding it from bytes.
//! - `error`: the failures of the catalogue and of the identifier query.

pub mod catalog;
pub mod error;
pub mod essid;
pub mod scan;
pub mod text;
pub mod traversal;

pub use catalog::{list_interfaces_from, parse_interfaces, Interface};
pub use error::{EssidFetchError, InterfaceListError};
pub use essid::{decode_essid, essid_from_reply, EssidRequest};
pub use scan::{AccessPoint, IwError, ResultNode, ScanAction, ScanEvent, ScanState};
