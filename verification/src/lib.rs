//! A verified parser for the classic `resolv.conf` grammar: it turns a raw
//! byte buffer into a structured configuration record, or reports the first
//! error with its 0-based source line.
#![verifier::loop_isolation(false)]

mod scan;
mod ip;
mod config;
mod grammar;
mod laws;
mod words;

pub use scan::split_bytes;
pub use ip::{AddrParseError, Ip, IpV, Ipv4Addr, Ipv6Addr, Network, ip_v4_netw, ip_v6_netw, parse_ip, parse_ipv4_bytes, parse_ipv6_bytes};
pub use config::{Config, ConfigV, Family, Lookup, LookupV};
pub use grammar::{ParseError, parse};
pub use laws::{comment_and_blank_lines_are_inert, family_directive_is_strict, lemma_line_ok_independent, line_accepted, lookup_directive_always_accepts, parse_ok_iff_all_lines_ok, search_directive_replaces_wholesale};
