//! Messages exchanged between agent and collector, and the administrative
//! commands of the collector.
use vstd::prelude::*;

verus! {

/// Memory totals of one sample, in bytes.
#[derive(PartialEq, Eq, Structural, Clone, Copy, Debug)]
pub struct MemoryMetrics {
    pub total: u64,
    pub used: u64,
    pub swap_total: u64,
    pub swap_used: u64,
}

/// Byte counters of one network interface; absent when the system does not
/// report them.
#[derive(Clone, Debug)]
pub struct NetworkMetrics {
    pub ifname: String,
    pub rx_bytes: Option<u64>,
    pub tx_bytes: Option<u64>,
}

/// What an agent's host says of itself once per session.
#[derive(Clone, Debug)]
pub struct SystemInfo {
    pub system_name: Option<String>,
    pub kernel_version: Option<String>,
    pub os_version: Option<String>,
    pub host_name: Option<String>,
    pub cpu_arch: String,
}

/// The static descriptor sent when a session is opened.
#[derive(Clone, Debug)]
pub struct StaticMetrics {
    pub system: SystemInfo,
}

/// A request for a session: the client credential and the static descriptor.
#[derive(Clone, Debug)]
pub struct CreateSessionReq {
    pub token: String,
    pub system_info: StaticMetrics,
}

/// A value carried as a postcard-encoded body.
#[derive(Clone, Copy, Debug, Default)]
pub struct Postcard<T>(pub T);

impl<T> Postcard<T> {
    /// Wraps a value.
    pub fn new(value: T) -> (r: Postcard<T>)
        ensures
            r.0 == value,
    {
        Postcard(value)
    }

    /// The carried value.
    pub fn into_inner(self) -> (r: T)
        ensures
            r == self.0,
    {
        self.0
    }
}

/// Commands about registered clients.
#[derive(Clone, Debug)]
pub enum ClientCommands {
    /// List all clients.
    List,
    /// Add a new client.
    Add { username: String },
    /// Remove a client.
    Remove { id: i64 },
    /// Rename a client.
    Rename { id: i64, new_username: String },
}

/// Administrative commands.
#[derive(Clone, Debug)]
pub enum AdminCommands {
    /// Client related commands.
    Client(ClientCommands),
}

/// The stored form of an unsigned counter: its bits read as a signed 64-bit
/// integer, as the store keeps only those.
pub open spec fn stored_i64(x: u64) -> i64 {
    if x <= i64::MAX as u64 {
        x as i64
    } else {
        (x as int - 0x1_0000_0000_0000_0000int) as i64
    }
}

/// The stored form of an unsigned counter.
pub fn to_stored(x: u64) -> (r: i64)
    ensures
        r == stored_i64(x),
{
    if x <= i64::MAX as u64 {
        x as i64
    } else {
        let below: u64 = x - (i64::MAX as u64) - 1;
        (below as i64) - i64::MAX - 1
    }
}

/// The memory row of a sample: total, used, swap total, swap used.
pub fn memory_row(m: &MemoryMetrics) -> (r: (i64, i64, i64, i64))
    ensures
        r == (stored_i64(m.total), stored_i64(m.used), stored_i64(m.swap_total), stored_i64(m.swap_used)),
{
    (to_stored(m.total), to_stored(m.used), to_stored(m.swap_total), to_stored(m.swap_used))
}

/// The counters of the network row of a sample, absent where the sample has
/// none.
pub fn network_counters(n: &NetworkMetrics) -> (r: (Option<i64>, Option<i64>))
    ensures
        r.0 == match n.rx_bytes {
            Some(x) => Some(stored_i64(x)),
            None => None::<i64>,
        },
        r.1 == match n.tx_bytes {
            Some(x) => Some(stored_i64(x)),
            None => None::<i64>,
        },
{
    let rx = match n.rx_bytes {
        Some(x) => Some(to_stored(x)),
        None => None,
    };
    let tx = match n.tx_bytes {
        Some(x) => Some(to_stored(x)),
        None => None,
    };
    (rx, tx)
}

} // verus!
