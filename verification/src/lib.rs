//! Decoding of nmap scan reports: from a plain tree of elements and
//! attributes to a validated, strongly typed model of one scanned host.

pub mod error;
pub mod host;
pub mod ip;
pub mod laws;
pub mod text;
pub mod xml;
