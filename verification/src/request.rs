//! Scan requests and their three-plus-one shapes.

use vstd::prelude::*;

verus! {

/// The highest TCP port.
pub const MAX_PORT_NUMBER: u16 = 65535;

/// How long a single connection attempt may take, in milliseconds.
pub const PROBE_TIMEOUT_MS: u64 = 200;

/// How many workers a bare-address request uses.
pub const DEFAULT_WORKERS: u16 = 100;

/// The mode a scan was asked for.
#[derive(Clone, Copy, Debug, PartialEq, Eq, Structural)]
pub enum Flag {
    /// Only an address was given: sweep every port with the default worker count.
    Simple,
    /// One port of one host.
    Target,
    /// An inclusive range of ports.
    Range,
    /// Every port, with a caller-chosen worker count.
    All,
}

/// A resolved host address, held as the integer its octets spell.
#[derive(Clone, Copy, Debug, PartialEq, Eq, Structural)]
pub enum Address {
    V4(u32),
    V6(u128),
}

/// One validated request: a host, an inclusive port range and a worker count.
#[derive(Clone, Copy, Debug, PartialEq, Eq, Structural)]
pub struct ScanRequest {
    pub flag: Flag,
    pub address: Address,
    pub port_from: u16,
    pub port_to: u16,
    pub worker_count: u16,
}

/// The worker count of a range request: one per port step, and never none.
pub open spec fn range_workers(port_from: u16, port_to: u16) -> int {
    if port_to - port_from >= 1 {
        port_to - port_from
    } else {
        1
    }
}

impl ScanRequest {
    /// The invariant every request handed to the scanner satisfies.
    pub open spec fn wf(&self) -> bool {
        &&& 1 <= self.port_from
        &&& self.port_from <= self.port_to
        &&& self.worker_count >= 1
    }

    /// The number of ports in the requested range.
    pub open spec fn port_count(&self) -> int {
        self.port_to - self.port_from + 1
    }

    /// Whether `port` lies in the requested range.
    pub open spec fn covers(&self, port: u16) -> bool {
        self.port_from <= port && port <= self.port_to
    }

    /// The sweep of every port for a bare address.
    pub open spec fn simple_of(address: Address) -> ScanRequest {
        ScanRequest {
            flag: Flag::Simple,
            address,
            port_from: 1,
            port_to: MAX_PORT_NUMBER,
            worker_count: DEFAULT_WORKERS,
        }
    }

    /// The request for one port; port 0 gives none.
    pub open spec fn target_of(address: Address, port: u16) -> Option<ScanRequest> {
        if port >= 1 {
            Some(
                ScanRequest {
                    flag: Flag::Target,
                    address,
                    port_from: port,
                    port_to: port,
                    worker_count: 1,
                },
            )
        } else {
            None
        }
    }

    /// The request for an inclusive range; port 0 or an end before the start gives none.
    pub open spec fn range_of(address: Address, port_from: u16, port_to: u16) -> Option<
        ScanRequest,
    > {
        if 1 <= port_from && port_from <= port_to {
            Some(
                ScanRequest {
                    flag: Flag::Range,
                    address,
                    port_from,
                    port_to,
                    worker_count: range_workers(port_from, port_to) as u16,
                },
            )
        } else {
            None
        }
    }

    /// The sweep of every port with `workers` workers, and with one where none was asked for.
    pub open spec fn full_sweep_of(address: Address, workers: u16) -> ScanRequest {
        ScanRequest {
            flag: Flag::All,
            address,
            port_from: 1,
            port_to: MAX_PORT_NUMBER,
            worker_count: if workers >= 1 {
                workers
            } else {
                1
            },
        }
    }

    /// Builds a request from its parts, or refuses parts that break the invariant.
    pub fn new(flag: Flag, address: Address, port_from: u16, port_to: u16, worker_count: u16) -> (r:
        Option<ScanRequest>)
        ensures
            r.is_some() <==> (1 <= port_from && port_from <= port_to && worker_count >= 1),
            r.is_some() ==> r.unwrap() == (ScanRequest {
                flag,
                address,
                port_from,
                port_to,
                worker_count,
            }),
            r.is_some() ==> r.unwrap().wf(),
    {
        if 1 <= port_from && port_from <= port_to && worker_count >= 1 {
            Some(ScanRequest { flag, address, port_from, port_to, worker_count })
        } else {
            None
        }
    }

    /// A sweep of every port with the default worker count.
    pub fn simple(address: Address) -> (r: ScanRequest)
        ensures
            r == ScanRequest::simple_of(address),
            r.wf(),
    {
        ScanRequest {
            flag: Flag::Simple,
            address,
            port_from: 1,
            port_to: MAX_PORT_NUMBER,
            worker_count: DEFAULT_WORKERS,
        }
    }

    /// A single port, probed by a single worker. Port 0 is no port.
    pub fn target(address: Address, port: u16) -> (r: Option<ScanRequest>)
        ensures
            r == ScanRequest::target_of(address, port),
            r.is_some() <==> port >= 1,
            r.is_some() ==> r.unwrap().wf(),
    {
        if port >= 1 {
            Some(
                ScanRequest {
                    flag: Flag::Target,
                    address,
                    port_from: port,
                    port_to: port,
                    worker_count: 1,
                },
            )
        } else {
            None
        }
    }

    /// An inclusive range, with one worker per port step and at least one.
    pub fn range(address: Address, port_from: u16, port_to: u16) -> (r: Option<ScanRequest>)
        ensures
            r == ScanRequest::range_of(address, port_from, port_to),
            r.is_some() <==> (1 <= port_from && port_from <= port_to),
            r.is_some() ==> r.unwrap().wf(),
    {
        if 1 <= port_from && port_from <= port_to {
            let span: u16 = port_to - port_from;
            let worker_count: u16 = if span >= 1 {
                span
            } else {
                1
            };
            Some(ScanRequest { flag: Flag::Range, address, port_from, port_to, worker_count })
        } else {
            None
        }
    }

    /// Every port, with the worker count the caller chose; a count of zero is raised to one.
    pub fn full_sweep(address: Address, workers: u16) -> (r: ScanRequest)
        ensures
            r == ScanRequest::full_sweep_of(address, workers),
            r.wf(),
    {
        let worker_count: u16 = if workers >= 1 {
            workers
        } else {
            1
        };
        ScanRequest {
            flag: Flag::All,
            address,
            port_from: 1,
            port_to: MAX_PORT_NUMBER,
            worker_count,
        }
    }

    /// Whether the request satisfies the invariant.
    pub fn is_valid(&self) -> (r: bool)
        ensures
            r == self.wf(),
    {
        1 <= self.port_from && self.port_from <= self.port_to && self.worker_count >= 1
    }
}

} // verus!
