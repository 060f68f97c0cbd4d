//! Settings of the two programs and of the carrier adapter.
use std::time::Duration;
use vstd::prelude::*;

verus! {

/// Settings of the client program.
#[derive(Debug, Clone)]
pub struct ClientConfig {
    pub listen: String,
    pub bt_addr: String,
    pub uuid: Option<String>,
    pub channel: Option<u8>,
    pub psk: Option<String>,
    pub log: String,
}

/// Settings of the server program.
#[derive(Debug, Clone)]
pub struct ServerConfig {
    pub channel: u8,
    pub clash_socks: String,
    pub clash_user: Option<String>,
    pub clash_pass: Option<String>,
    pub direct: bool,
    pub psk: Option<String>,
    pub log: String,
}

/// Settings of the carrier adapter: read size, queue capacity, and how often
/// throughput is reported.
#[derive(Debug, Clone)]
pub struct BtLinkConfig {
    pub max_chunk: usize,
    pub queue_bound: usize,
    pub stats_interval: Option<Duration>,
}

/// Relies on `Duration::from_secs` to make the reporting interval; nothing
/// is assumed of the value.
pub assume_specification[ std::time::Duration::from_secs ](secs: u64) -> Duration;

impl Default for BtLinkConfig {
    fn default() -> (r: Self)
        ensures
            r.max_chunk == 4096,
            r.queue_bound == 256,
            r.stats_interval is Some,
    {
        BtLinkConfig { max_chunk: 4096, queue_bound: 256, stats_interval: Some(Duration::from_secs(5)) }
    }
}

} // verus!
