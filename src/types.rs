//! Values exchanged with the protocol stack: endpoint addresses and types,
//! errors and poll events.
use vstd::prelude::*;

verus! {

/// Direction of a transfer, seen from the host.
#[derive(Clone, Copy, Debug, PartialEq, Eq, Structural)]
pub enum UsbDirection {
    In,
    Out,
}

/// An endpoint's direction and index.
#[derive(Clone, Copy, Debug, PartialEq, Eq, Structural)]
pub struct EndpointAddress {
    pub index: u8,
    pub direction: UsbDirection,
}

impl EndpointAddress {
    /// The address of endpoint `index` in direction `direction`; the index
    /// keeps its low seven bits.
    pub fn from_parts(index: usize, direction: UsbDirection) -> (r: EndpointAddress)
        ensures
            r.index == index % 128,
            r.direction == direction,
    {
        EndpointAddress { index: (index % 128) as u8, direction }
    }

    pub fn index(&self) -> (r: usize)
        ensures
            r == self.index,
    {
        self.index as usize
    }

    pub fn is_in(&self) -> (r: bool)
        ensures
            r == (self.direction == UsbDirection::In),
    {
        self.direction == UsbDirection::In
    }

    pub fn is_out(&self) -> (r: bool)
        ensures
            r == (self.direction == UsbDirection::Out),
    {
        self.direction == UsbDirection::Out
    }
}

/// Transfer type of an endpoint.
#[derive(Clone, Copy, Debug, PartialEq, Eq, Structural)]
pub enum EndpointType {
    Control,
    Isochronous,
    Bulk,
    Interrupt,
}

/// The endpoint-type field code (EPTYP) of a transfer type.
pub open spec fn type_code(t: EndpointType) -> u32 {
    match t {
        EndpointType::Control => 0,
        EndpointType::Isochronous => 1,
        EndpointType::Bulk => 2,
        EndpointType::Interrupt => 3,
    }
}

pub fn endpoint_type_code(t: EndpointType) -> (r: u32)
    ensures
        r == type_code(t),
{
    match t {
        EndpointType::Control => 0,
        EndpointType::Isochronous => 1,
        EndpointType::Bulk => 2,
        EndpointType::Interrupt => 3,
    }
}

/// Failures of driver operations.
#[derive(Clone, Copy, Debug, PartialEq, Eq, Structural)]
pub enum UsbError {
    /// Not possible right now; retry later.
    WouldBlock,
    /// The destination is smaller than the pending packet; nothing was lost.
    BufferOverflow,
    /// No free endpoint slot, or the packet memory is exhausted.
    EndpointOverflow,
    /// The endpoint is unconfigured, nonexistent or of the other direction.
    InvalidEndpoint,
}

/// The one event a poll reports.
#[derive(Clone, Copy, Debug, PartialEq, Eq, Structural)]
pub enum PollResult {
    /// Nothing to report.
    NoEvent,
    Reset,
    /// Bit `n` of each mask stands for endpoint `n`.
    Data { ep_out: u16, ep_in_complete: u16, ep_setup: u16 },
    Suspend,
    Resume,
}

} // verus!
