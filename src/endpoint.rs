//! Per-endpoint state and the register programming of one endpoint.
use crate::endpoint_memory::EndpointBuffer;
use crate::target::{
    InEndpointRegs, OutEndpointRegs, UsbRegisters, NUM_ENDPOINTS, fifo_read, fifo_write, pack,
    unpack, drained,
};
use crate::types::{EndpointAddress, EndpointType, UsbDirection, UsbError, type_code, endpoint_type_code};
use vstd::prelude::*;

verus! {

/// Largest transfer the transfer-size field (19 bits) can hold.
pub const MAX_TRANSFER_SIZE: usize = 524287;

/// The max-packet-size code of the control endpoint, for the four sizes the
/// hardware supports.
pub open spec fn ep0_size_code(size: u16) -> u32 {
    if size == 8 {
        3
    } else if size == 16 {
        2
    } else if size == 32 {
        1
    } else {
        0
    }
}

pub open spec fn valid_ep0_size(size: u16) -> bool {
    size == 8 || size == 16 || size == 32 || size == 64
}

/// Endpoint descriptor: address, and type and size once initialized.
#[derive(Clone, Copy, Debug, PartialEq, Eq, Structural)]
pub struct Endpoint {
    pub ep_type: Option<EndpointType>,
    pub max_packet_size: u16,
    pub address: EndpointAddress,
}

/// What the max-packet-size field holds for `e`: a code for the control
/// endpoint, the size in bytes otherwise.
pub open spec fn max_packet_field(e: Endpoint) -> u32 {
    if e.address.index == 0 {
        ep0_size_code(e.max_packet_size)
    } else {
        e.max_packet_size as u32
    }
}

pub open spec fn ep_type_code(e: Endpoint) -> u32 {
    match e.ep_type {
        Some(t) => type_code(t),
        None => 0,
    }
}

/// An IN endpoint's registers after `configure`: active, NAKing, not
/// enabled, no packet pending, its interrupt unmasked.
pub open spec fn configured_in(r: InEndpointRegs, e: Endpoint) -> InEndpointRegs {
    InEndpointRegs {
        active: true,
        stall: false,
        enabled: false,
        nak: true,
        disable_requested: false,
        max_packet_code: max_packet_field(e),
        type_code: ep_type_code(e),
        xfer_size: e.max_packet_size as u32,
        packet_count: 0,
        xfer_complete: r.xfer_complete,
        int_unmasked: true,
    }
}

/// An OUT endpoint's registers after `configure`: active and armed for one
/// packet (and, on the control endpoint, one SETUP packet).
pub open spec fn configured_out(r: OutEndpointRegs, e: Endpoint) -> OutEndpointRegs {
    OutEndpointRegs {
        active: true,
        enabled: true,
        nak: false,
        max_packet_code: max_packet_field(e),
        type_code: ep_type_code(e),
        xfer_size: e.max_packet_size as u32,
        packet_count: 1,
        setup_count: if e.address.index == 0 { 1 } else { r.setup_count },
        int_unmasked: true,
        ..r
    }
}

/// An IN endpoint's registers after `deconfigure`: masked, inactive,
/// disabled if it was enabled (not possible on index 0), flags cleared.
pub open spec fn deconfigured_in(r: InEndpointRegs, index: u8) -> InEndpointRegs {
    InEndpointRegs {
        active: false,
        disable_requested: r.disable_requested || (r.enabled && index != 0),
        xfer_complete: false,
        int_unmasked: false,
        ..r
    }
}

pub open spec fn deconfigured_out(r: OutEndpointRegs, index: u8) -> OutEndpointRegs {
    OutEndpointRegs {
        active: false,
        disable_requested: r.disable_requested || (r.enabled && index != 0),
        xfer_complete: false,
        int_unmasked: false,
        ..r
    }
}

/// The stall bit of the endpoint at `a`.
pub open spec fn stall_of(regs: UsbRegisters, a: EndpointAddress) -> bool {
    if a.direction == UsbDirection::In {
        regs.ep_in@[a.index as int].stall
    } else {
        regs.ep_out@[a.index as int].stall
    }
}

/// The FIFOs and queues of `a` and `b` agree.
pub open spec fn same_fifos(a: UsbRegisters, b: UsbRegisters) -> bool {
    &&& a.tx_fifos@ == b.tx_fifos@
    &&& a.rx_status@ == b.rx_status@
    &&& a.rx_fifo@ == b.rx_fifo@
}

/// What `EndpointIn::write` of `data` on IN endpoint `i` does.
pub open spec fn write_post(
    old: UsbRegisters,
    new: UsbRegisters,
    i: int,
    data: Seq<u8>,
    r: Result<(), UsbError>,
) -> bool {
    let e = old.ep_in@[i];
    &&& !e.active ==> r == Err::<(), UsbError>(UsbError::InvalidEndpoint) && new == old
    &&& e.active && e.packet_count != 0 ==> r == Err::<(), UsbError>(UsbError::WouldBlock) && new
        == old
    &&& e.active && e.packet_count == 0 ==> {
        &&& r == Ok::<(), UsbError>(())
        &&& new.ep_in@ == old.ep_in@.update(
            i,
            InEndpointRegs {
                xfer_size: data.len() as u32,
                packet_count: 1,
                nak: false,
                enabled: true,
                ..e
            },
        )
        &&& new.tx_view() == old.tx_view().update(i, old.tx_view()[i] + pack(data))
        &&& new.core == old.core
        &&& new.ep_out@ == old.ep_out@
        &&& new.rx_status@ == old.rx_status@
        &&& new.rx_fifo@ == old.rx_fifo@
    }
}

/// What `EndpointOut::read` on OUT endpoint `i` does, `old_buf` and
/// `new_buf` being the destination before and after.
pub open spec fn read_post(
    old: UsbRegisters,
    new: UsbRegisters,
    i: u8,
    old_buf: Seq<u8>,
    new_buf: Seq<u8>,
    r: Result<usize, UsbError>,
) -> bool {
    let q = old.rx_status@;
    let active = old.ep_out@[i as int].active;
    let mine = q.len() > 0 && q[0].epnum == i;
    &&& !active ==> r == Err::<usize, UsbError>(UsbError::InvalidEndpoint)
    &&& active && !mine ==> r == Err::<usize, UsbError>(UsbError::WouldBlock)
    &&& active && mine && q[0].byte_count > old_buf.len() ==> r == Err::<usize, UsbError>(
        UsbError::BufferOverflow,
    )
    &&& r is Err ==> new == old && new_buf == old_buf
    &&& active && mine && q[0].byte_count <= old_buf.len() ==> {
        let n = q[0].byte_count as int;
        &&& r == Ok::<usize, UsbError>(n as usize)
        &&& new.rx_status@ == q.skip(1)
        &&& new.rx_fifo@ == drained(old.rx_fifo@, n as nat)
        &&& new_buf.take(n) == unpack(old.rx_fifo@, n as nat)
        &&& new_buf.skip(n) == old_buf.skip(n)
        &&& new.core == old.core
        &&& new.ep_in@ == old.ep_in@
        &&& new.ep_out@ == old.ep_out@
        &&& new.tx_fifos@ == old.tx_fifos@
    }
}

fn ep0_code(size: u16) -> (r: u32)
    ensures
        r == ep0_size_code(size),
{
    if size == 8 {
        3
    } else if size == 16 {
        2
    } else if size == 32 {
        1
    } else {
        0
    }
}

impl Endpoint {
    pub open spec fn wf(&self) -> bool {
        self.address.index < NUM_ENDPOINTS
    }

    pub open spec fn initialized(&self) -> bool {
        self.ep_type is Some
    }

    /// An uninitialized endpoint at `address`.
    pub fn new(address: EndpointAddress) -> (r: Endpoint)
        ensures
            r == (Endpoint { ep_type: None, max_packet_size: 0, address }),
    {
        Endpoint { ep_type: None, max_packet_size: 0, address }
    }

    pub fn is_initialized(&self) -> (r: bool)
        ensures
            r == self.initialized(),
    {
        self.ep_type.is_some()
    }

    /// Records type and size; touches no register.
    pub fn initialize(&mut self, ep_type: EndpointType, max_packet_size: u16)
        ensures
            *final(self) == (Endpoint {
                ep_type: Some(ep_type),
                max_packet_size,
                address: old(self).address,
            }),
    {
        self.ep_type = Some(ep_type);
        self.max_packet_size = max_packet_size;
    }

    fn max_packet_field(&self) -> (r: u32)
        ensures
            r == max_packet_field(*self),
    {
        if self.address.index == 0 {
            ep0_code(self.max_packet_size)
        } else {
            self.max_packet_size as u32
        }
    }

    fn type_field(&self) -> (r: u32)
        ensures
            r == ep_type_code(*self),
    {
        match self.ep_type {
            Some(t) => endpoint_type_code(t),
            None => 0,
        }
    }

    /// Sets or clears the stall bit. Ignored on an uninitialized endpoint;
    /// no register is written when the bit already has the wanted value.
    pub fn set_stalled(&self, regs: &mut UsbRegisters, stalled: bool)
        requires
            self.wf(),
            old(regs).wf(),
        ensures
            final(regs).wf(),
            !self.initialized() || stall_of(*old(regs), self.address) == stalled ==> *final(regs)
                == *old(regs),
            self.initialized() ==> stall_of(*final(regs), self.address) == stalled,
            final(regs).core == old(regs).core,
            same_fifos(*final(regs), *old(regs)),
            self.address.direction == UsbDirection::In ==> {
                &&& final(regs).ep_in@ == old(regs).ep_in@.update(
                    self.address.index as int,
                    InEndpointRegs {
                        stall: stall_of(*final(regs), self.address),
                        ..old(regs).ep_in@[self.address.index as int]
                    },
                )
                &&& final(regs).ep_out@ == old(regs).ep_out@
            },
            self.address.direction == UsbDirection::Out ==> {
                &&& final(regs).ep_out@ == old(regs).ep_out@.update(
                    self.address.index as int,
                    OutEndpointRegs {
                        stall: stall_of(*final(regs), self.address),
                        ..old(regs).ep_out@[self.address.index as int]
                    },
                )
                &&& final(regs).ep_in@ == old(regs).ep_in@
            },
    {
        if !self.is_initialized() {
            return ;
        }
        if self.is_stalled(regs) == stalled {
            proof {
                assert(old(regs).ep_in@ =~= old(regs).ep_in@.update(
                    self.address.index as int,
                    old(regs).ep_in@[self.address.index as int],
                ));
                assert(old(regs).ep_out@ =~= old(regs).ep_out@.update(
                    self.address.index as int,
                    old(regs).ep_out@[self.address.index as int],
                ));
            }
            return ;
        }
        let i = self.address.index();
        if self.address.is_in() {
            let mut e = regs.ep_in[i];
            e.stall = stalled;
            regs.ep_in.set(i, e);
        } else {
            let mut e = regs.ep_out[i];
            e.stall = stalled;
            regs.ep_out.set(i, e);
        }
    }

    /// The endpoint's stall bit.
    pub fn is_stalled(&self, regs: &UsbRegisters) -> (r: bool)
        requires
            self.wf(),
            regs.wf(),
        ensures
            r == stall_of(*regs, self.address),
    {
        let i = self.address.index();
        if self.address.is_in() {
            regs.ep_in[i].stall
        } else {
            regs.ep_out[i].stall
        }
    }

    /// Programs the endpoint's control and transfer-size registers from its
    /// retained type and size, unmasks its interrupt, and on an OUT endpoint
    /// arms the first reception. The control endpoint's size must be one the
    /// hardware supports.
    pub fn configure(&self, regs: &mut UsbRegisters)
        requires
            self.wf(),
            old(regs).wf(),
            self.address.index == 0 ==> valid_ep0_size(self.max_packet_size),
        ensures
            final(regs).wf(),
            final(regs).core == old(regs).core,
            same_fifos(*final(regs), *old(regs)),
            self.address.direction == UsbDirection::In ==> {
                &&& final(regs).ep_in@ == old(regs).ep_in@.update(
                    self.address.index as int,
                    configured_in(old(regs).ep_in@[self.address.index as int], *self),
                )
                &&& final(regs).ep_out@ == old(regs).ep_out@
            },
            self.address.direction == UsbDirection::Out ==> {
                &&& final(regs).ep_out@ == old(regs).ep_out@.update(
                    self.address.index as int,
                    configured_out(old(regs).ep_out@[self.address.index as int], *self),
                )
                &&& final(regs).ep_in@ == old(regs).ep_in@
            },
    {
        let i = self.address.index();
        let code = self.max_packet_field();
        let ty = self.type_field();
        if self.address.is_in() {
            let old_e = regs.ep_in[i];
            let e = InEndpointRegs {
                active: true,
                stall: false,
                enabled: false,
                nak: true,
                disable_requested: false,
                max_packet_code: code,
                type_code: ty,
                xfer_size: self.max_packet_size as u32,
                packet_count: 0,
                xfer_complete: old_e.xfer_complete,
                int_unmasked: true,
            };
            regs.ep_in.set(i, e);
        } else {
            let mut e = regs.ep_out[i];
            if i == 0 {
                e.setup_count = 1;
            }
            e.packet_count = 1;
            e.xfer_size = self.max_packet_size as u32;
            e.max_packet_code = code;
            e.type_code = ty;
            e.active = true;
            e.enabled = true;
            e.nak = false;
            e.int_unmasked = true;
            regs.ep_out.set(i, e);
        }
    }

    /// Masks this endpoint's own interrupt (no other's), deactivates it, disables it if it is
    /// enabled (index 0 cannot be disabled) and clears its flags. The
    /// retained type, size and buffer stay.
    pub fn deconfigure(&self, regs: &mut UsbRegisters)
        requires
            self.wf(),
            old(regs).wf(),
        ensures
            final(regs).wf(),
            final(regs).core == old(regs).core,
            same_fifos(*final(regs), *old(regs)),
            self.address.direction == UsbDirection::In ==> {
                &&& final(regs).ep_in@ == old(regs).ep_in@.update(
                    self.address.index as int,
                    deconfigured_in(old(regs).ep_in@[self.address.index as int], self.address.index),
                )
                &&& final(regs).ep_out@ == old(regs).ep_out@
            },
            self.address.direction == UsbDirection::Out ==> {
                &&& final(regs).ep_out@ == old(regs).ep_out@.update(
                    self.address.index as int,
                    deconfigured_out(old(regs).ep_out@[self.address.index as int], self.address.index),
                )
                &&& final(regs).ep_in@ == old(regs).ep_in@
            },
    {
        let i = self.address.index();
        if self.address.is_in() {
            let mut e = regs.ep_in[i];
            e.int_unmasked = false;
            e.active = false;
            if e.enabled && i != 0 {
                e.disable_requested = true;
            }
            e.xfer_complete = false;
            regs.ep_in.set(i, e);
        } else {
            let mut e = regs.ep_out[i];
            e.int_unmasked = false;
            e.active = false;
            if e.enabled && i != 0 {
                e.disable_requested = true;
            }
            e.xfer_complete = false;
            regs.ep_out.set(i, e);
        }
    }
}

/// Gives the descriptor shared by both endpoint kinds.
pub trait AsEndpoint {
    spec fn endpoint_view(&self) -> Endpoint;

    fn endpoint(&self) -> (r: &Endpoint)
        ensures
            *r == self.endpoint_view(),
    ;
}

/// An IN endpoint.
#[derive(Clone, Copy, Debug, PartialEq, Eq, Structural)]
pub struct EndpointIn {
    pub common: Endpoint,
}

impl AsEndpoint for EndpointIn {
    open spec fn endpoint_view(&self) -> Endpoint {
        self.common
    }

    fn endpoint(&self) -> (r: &Endpoint) {
        &self.common
    }
}

impl EndpointIn {
    pub fn new(address: EndpointAddress) -> (r: EndpointIn)
        ensures
            r.common == (Endpoint { ep_type: None, max_packet_size: 0, address }),
    {
        EndpointIn { common: Endpoint::new(address) }
    }

    /// Queues one packet. Fails with `InvalidEndpoint` when the endpoint is
    /// not active in hardware and with `WouldBlock`, changing nothing, while
    /// the previous packet is still in flight. Otherwise programs a transfer
    /// of `buf.len()` bytes as one packet, clears NAK, enables the endpoint
    /// and pushes `buf` into its transmit FIFO. One call sends one packet:
    /// keeping `buf` within the endpoint's max packet size is the caller's
    /// part.
    pub fn write(&self, regs: &mut UsbRegisters, buf: &[u8]) -> (r: Result<(), UsbError>)
        requires
            self.common.wf(),
            old(regs).wf(),
            buf@.len() <= MAX_TRANSFER_SIZE,
        ensures
            final(regs).wf(),
            write_post(*old(regs), *final(regs), self.common.address.index as int, buf@, r),
    {
        let i = self.common.address.index();
        let mut e = regs.ep_in[i];
        if !e.active {
            return Err(UsbError::InvalidEndpoint);
        }
        if e.packet_count != 0 {
            return Err(UsbError::WouldBlock);
        }
        e.xfer_size = buf.len() as u32;
        e.packet_count = 1;
        e.nak = false;
        e.enabled = true;
        regs.ep_in.set(i, e);
        fifo_write(regs, i, buf);
        Ok(())
    }
}

/// An OUT endpoint and the packet buffer it was given.
#[derive(Clone, Copy, Debug, PartialEq, Eq, Structural)]
pub struct EndpointOut {
    pub common: Endpoint,
    pub buffer: Option<EndpointBuffer>,
}

impl AsEndpoint for EndpointOut {
    open spec fn endpoint_view(&self) -> Endpoint {
        self.common
    }

    fn endpoint(&self) -> (r: &Endpoint) {
        &self.common
    }
}

impl EndpointOut {
    pub fn new(address: EndpointAddress) -> (r: EndpointOut)
        ensures
            r.common == (Endpoint { ep_type: None, max_packet_size: 0, address }),
            r.buffer is None,
    {
        EndpointOut { common: Endpoint::new(address), buffer: None }
    }

    /// Records type, size and the endpoint's packet buffer.
    pub fn initialize(&mut self, ep_type: EndpointType, max_packet_size: u16, buffer: EndpointBuffer)
        ensures
            final(self).common == (Endpoint {
                ep_type: Some(ep_type),
                max_packet_size,
                address: old(self).common.address,
            }),
            final(self).buffer == Some(buffer),
    {
        self.common.initialize(ep_type, max_packet_size);
        self.buffer = Some(buffer);
    }

    /// Takes the packet at the head of the shared receive queue when it
    /// belongs to this endpoint. Fails with `InvalidEndpoint` when the
    /// endpoint is not active in hardware, with `WouldBlock` when the queue
    /// is empty or its head names another endpoint, and with
    /// `BufferOverflow` when `buf` is shorter than the packet; each failure
    /// leaves the queue, the FIFO and `buf` as they were. On success pops the
    /// entry and drains its bytes into the front of `buf`. Each call takes
    /// one packet: a transfer of several packets takes several calls.
    pub fn read(&self, regs: &mut UsbRegisters, buf: &mut [u8]) -> (r: Result<usize, UsbError>)
        requires
            self.common.wf(),
            old(regs).wf(),
        ensures
            final(regs).wf(),
            final(buf)@.len() == old(buf)@.len(),
            read_post(*old(regs), *final(regs), self.common.address.index, old(buf)@, final(buf)@, r),
    {
        let i = self.common.address.index();
        if !regs.ep_out[i].active {
            return Err(UsbError::InvalidEndpoint);
        }
        if regs.rx_status.len() == 0 || regs.rx_status[0].epnum as usize != i {
            return Err(UsbError::WouldBlock);
        }
        let count = regs.rx_status[0].byte_count as usize;
        if count > buf.len() {
            return Err(UsbError::BufferOverflow);
        }
        regs.rx_status.remove(0);
        fifo_read(regs, buf, count);
        proof {
            assert(regs.rx_status@ =~= old(regs).rx_status@.skip(1));
            assert forall|k: int| 0 <= k < regs.rx_status@.len() implies (
            #[trigger] regs.rx_status@[k]).epnum < NUM_ENDPOINTS by {
                assert(regs.rx_status@[k] == old(regs).rx_status@[k + 1]);
            }
        }
        Ok(count)
    }
}

/// A read on an endpoint that the receive-queue head does not name fails
/// with `WouldBlock` and consumes nothing, so a following read on the named
/// endpoint, with room for the packet, still gets it.
pub proof fn lemma_read_keeps_foreign_entry(
    r0: UsbRegisters,
    r1: UsbRegisters,
    r2: UsbRegisters,
    i: u8,
    j: u8,
    a0: Seq<u8>,
    a1: Seq<u8>,
    b0: Seq<u8>,
    b1: Seq<u8>,
    res1: Result<usize, UsbError>,
    res2: Result<usize, UsbError>,
)
    requires
        read_post(r0, r1, i, a0, a1, res1),
        read_post(r1, r2, j, b0, b1, res2),
        r0.rx_status@.len() > 0,
        r0.rx_status@[0].epnum == j,
        i != j,
        r0.ep_out@[i as int].active,
        r0.ep_out@[j as int].active,
        r0.rx_status@[0].byte_count <= b0.len(),
    ensures
        res1 == Err::<usize, UsbError>(UsbError::WouldBlock),
        r1 == r0,
        res2 == Ok::<usize, UsbError>(r0.rx_status@[0].byte_count as usize),
        r2.rx_status@ == r0.rx_status@.skip(1),
{
}

} // verus!
