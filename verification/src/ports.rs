use vstd::prelude::*;
use crate::errors::Error;

verus! {

/// The inclusive range of TCP ports the tool is willing to scan and bind.
pub const PORT_RANGE_START: u16 = 8000;

pub const PORT_RANGE_END: u16 = 8100;

/// What a probe of one TCP port on the loopback interface reported.
#[derive(Clone, Copy, Debug, PartialEq, Eq, Structural)]
pub enum PortStatus {
    /// No listening socket exists on the port.
    Free,
    /// A listener exists but its owning process could not be identified.
    BoundUnknown,
    /// A listener exists, owned by the process with this id.
    Bound(u32),
}

pub open spec fn is_free(s: PortStatus) -> bool {
    s is Free
}

pub open spec fn has_owner(s: PortStatus) -> bool {
    s is Bound
}

/// The first free port of a scanned range, or `NoPortAvailable` when every
/// port is taken. `status[i]` reports port `start + i`; the scan is
/// ascending and deterministic, so the choice is the smallest free port.
pub fn find_free_port(start: u16, status: &Vec<PortStatus>) -> (r: Result<u16, Error>)
    requires
        start + status@.len() <= u16::MAX + 1,
    ensures
        match r {
            Ok(p) => {
                &&& start <= p < start + status@.len()
                &&& is_free(status@[p - start])
                &&& forall|j: int| 0 <= j < p - start ==> !is_free(status@[j])
            },
            Err(e) => {
                &&& e == Error::NoPortAvailable
                &&& forall|j: int| 0 <= j < status@.len() ==> !is_free(status@[j])
            },
        },
{
    let mut i: usize = 0;
    while i < status.len()
        invariant
            start + status@.len() <= u16::MAX + 1,
            i <= status@.len(),
            forall|j: int| 0 <= j < i ==> !is_free(status@[j]),
        decreases status@.len() - i,
    {
        if let PortStatus::Free = status[i] {
            return Ok(start + (i as u16));
        }
        i = i + 1;
    }
    Err(Error::NoPortAvailable)
}

/// The first port of the scanned range that is bound to an identified
/// process, as a `(pid, port)` pair, or `None` when no port in the range
/// has an identified owner. A bound port whose owner could not be
/// identified is passed over, exactly as a free one is.
pub fn find_existing_server(start: u16, status: &Vec<PortStatus>) -> (r: Option<(u32, u16)>)
    requires
        start + status@.len() <= u16::MAX + 1,
    ensures
        match r {
            Some(h) => {
                &&& start <= h.1 < start + status@.len()
                &&& status@[h.1 - start] == PortStatus::Bound(h.0)
                &&& forall|j: int| 0 <= j < h.1 - start ==> !has_owner(status@[j])
            },
            None => forall|j: int| 0 <= j < status@.len() ==> !has_owner(status@[j]),
        },
{
    let mut i: usize = 0;
    while i < status.len()
        invariant
            start + status@.len() <= u16::MAX + 1,
            i <= status@.len(),
            forall|j: int| 0 <= j < i ==> !has_owner(status@[j]),
        decreases status@.len() - i,
    {
        if let PortStatus::Bound(pid) = status[i] {
            return Some((pid, start + (i as u16)));
        }
        i = i + 1;
    }
    None
}

} // verus!
