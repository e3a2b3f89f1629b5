//! The client: it samples the host it runs on and reports to the server.
use vstd::prelude::*;

pub mod grpc;
pub mod laws;
pub mod status;
pub mod sys_info;

verus! {

/// The client's options.
#[derive(Debug)]
pub struct Args {
    /// Where the server is reached.
    pub addr: String,
    /// The host's name, and the password of the host or of its group.
    pub user: String,
    pub pass: String,
    /// The host's group; empty where it is in none.
    pub gid: String,
    /// The server asks for a certificate, which lies in `tls_dir`.
    pub mtls: bool,
    pub tls_dir: String,
    /// Leave out of most reports what seldom changes.
    pub lite: bool,
    pub debug: bool,
    /// The seconds between two reports.
    pub report_interval: u64,
    /// The traffic is counted by vnstat.
    pub vnstat: bool,
    pub disable_tupd: bool,
    pub disable_ping: bool,
    /// The protocols to report as online unasked, one bit each.
    pub online: u8,
    /// What to reach to find out which protocols are online.
    pub ipv4_address: String,
    pub ipv6_address: String,
    /// What to reach at each of the three carriers.
    pub cu_addr: String,
    pub ct_addr: String,
    pub cm_addr: String,
}

} // verus!
