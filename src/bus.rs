//! The bus controller: owns the endpoint table, the packet-memory allocator
//! and the peripheral's registers; brings the peripheral up, decodes its
//! status into one event per poll and dispatches transfers.
use crate::endpoint::{
    AsEndpoint, Endpoint, EndpointIn, EndpointOut, configured_in, configured_out, deconfigured_in,
    deconfigured_out, read_post, stall_of, valid_ep0_size, write_post, MAX_TRANSFER_SIZE,
};
use crate::endpoint_memory::{EndpointBuffer, EndpointMemoryAllocator, RX_FIFO_SIZE, words_of};
use crate::target::{
    CoreRegs, InEndpointRegs, OutEndpointRegs, RxStatus, UsbRegisters, NUM_ENDPOINTS,
    STS_OUT_COMPLETE, STS_OUT_RECEIVED, STS_SETUP_COMPLETE, STS_SETUP_RECEIVED,
};
use crate::types::{EndpointAddress, EndpointType, PollResult, UsbDirection, UsbError};
use vstd::prelude::*;

verus! {

/// The device address must be set before the status stage of the
/// Set-Address control transfer completes.
pub const QUIRK_SET_ADDRESS_BEFORE_STATUS: bool = true;

/// Depth of the control endpoint's transmit FIFO, in words.
pub const TX0_FIFO_DEPTH: u32 = 16;

/// USB turnaround time programmed at bring-up.
pub const TURNAROUND_TIME: u32 = 6;

/// Device-speed field value for full speed.
pub const FULL_SPEED: u32 = 3;

/// The device-controller driver.
pub struct UsbBus {
    pub regs: UsbRegisters,
    pub endpoints_in: Vec<EndpointIn>,
    pub endpoints_out: Vec<EndpointOut>,
    pub endpoint_allocator: EndpointMemoryAllocator,
}

/// The address of slot `i` in direction `d`.
pub open spec fn slot_address(i: int, d: UsbDirection) -> EndpointAddress {
    EndpointAddress { index: i as u8, direction: d }
}

/// The descriptors of a table of endpoints.
pub open spec fn descriptors<EP: AsEndpoint>(eps: Seq<EP>) -> Seq<Endpoint> {
    eps.map_values(|e: EP| e.endpoint_view())
}

/// Slot `i` of `eps` holds address `i` in direction `d`, for every slot.
pub open spec fn table_wf(eps: Seq<Endpoint>, d: UsbDirection) -> bool {
    &&& eps.len() == NUM_ENDPOINTS
    &&& forall|i: int| 0 <= i < eps.len() ==> (#[trigger] eps[i]).address == slot_address(i, d)
}

/// The first uninitialized slot at or after `k`.
pub open spec fn lowest_free(eps: Seq<Endpoint>, k: int) -> Result<int, UsbError>
    decreases eps.len() - k,
{
    if k >= eps.len() || k < 0 {
        Err(UsbError::EndpointOverflow)
    } else if !eps[k].initialized() {
        Ok(k)
    } else {
        lowest_free(eps, k + 1)
    }
}

/// The slot that a request for `ep_addr` gets in a table of direction `d`:
/// the slot of that exact address if it exists and is free, else the lowest
/// free slot above the control endpoint.
pub open spec fn free_slot(eps: Seq<Endpoint>, d: UsbDirection, ep_addr: Option<EndpointAddress>) -> Result<
    int,
    UsbError,
> {
    match ep_addr {
        Some(a) => if a.direction == d && a.index < eps.len() && !eps[a.index as int].initialized() {
            Ok(a.index as int)
        } else {
            Err(UsbError::InvalidEndpoint)
        },
        None => lowest_free(eps, 1),
    }
}

/// The core registers after `enable`.
pub open spec fn enabled_core(c: CoreRegs) -> CoreRegs {
    CoreRegs {
        clock_enabled: true,
        srp_capable: false,
        turnaround_time: TURNAROUND_TIME,
        force_device_mode: true,
        vbus_sensing_disabled: true,
        phy_clock_stopped: false,
        transceiver_powered: true,
        soft_disconnect: false,
        device_speed: FULL_SPEED,
        device_address: c.device_address,
        rx_fifo_words: RX_FIFO_SIZE,
        tx0_fifo_start: RX_FIFO_SIZE,
        tx0_fifo_depth: TX0_FIFO_DEPTH,
        in_xfer_complete_unmasked: true,
        reset_unmasked: true,
        enum_done_unmasked: true,
        suspend_unmasked: true,
        wakeup_unmasked: true,
        in_endpoint_unmasked: true,
        rx_level_unmasked: true,
        global_interrupt_enabled: true,
        int_reset: false,
        int_enum_done: false,
        int_suspend: false,
        int_wakeup: false,
    }
}

/// Bit `i` of an endpoint mask.
pub open spec fn ep_bit(i: int) -> u16 {
    if i == 0 {
        1
    } else if i == 1 {
        2
    } else if i == 2 {
        4
    } else {
        8
    }
}

/// The mask of the first `n` IN endpoints that are initialized and have a
/// transfer-complete flag set.
pub open spec fn in_complete_mask(eps: Seq<Endpoint>, regs: Seq<InEndpointRegs>, n: int) -> int
    decreases n,
{
    if n <= 0 {
        0
    } else {
        in_complete_mask(eps, regs, n - 1) + if eps[n - 1].initialized() && regs[n - 1].xfer_complete {
            ep_bit(n - 1) as int
        } else {
            0
        }
    }
}

/// The `ep_out` mask that the receive-queue head gives.
pub open spec fn out_mask(q: Seq<RxStatus>) -> u16 {
    if q.len() > 0 && q[0].status == STS_OUT_RECEIVED {
        ep_bit(q[0].epnum as int)
    } else {
        0
    }
}

/// The `ep_setup` mask that the receive-queue head gives.
pub open spec fn setup_mask(q: Seq<RxStatus>) -> u16 {
    if q.len() > 0 && q[0].status == STS_SETUP_RECEIVED {
        ep_bit(q[0].epnum as int)
    } else {
        0
    }
}

/// The event that endpoint activity gives.
pub open spec fn data_event(bus: UsbBus) -> PollResult {
    let q = bus.regs.rx_status@;
    let ep_out = out_mask(q);
    let ep_setup = setup_mask(q);
    let ep_in = in_complete_mask(descriptors(bus.endpoints_in@), bus.regs.ep_in@, 4) as u16;
    if ep_out == 0 && ep_setup == 0 && ep_in == 0 {
        PollResult::NoEvent
    } else {
        PollResult::Data { ep_out, ep_in_complete: ep_in, ep_setup }
    }
}

/// The event a poll reports: enumeration done, wakeup and suspend in this
/// order; else, unless a bus reset was just handled, endpoint activity.
pub open spec fn poll_event(bus: UsbBus) -> PollResult {
    let c = bus.regs.core;
    if c.int_enum_done {
        PollResult::Reset
    } else if c.int_wakeup {
        PollResult::Resume
    } else if c.int_suspend {
        PollResult::Suspend
    } else if c.int_reset {
        PollResult::NoEvent
    } else {
        data_event(bus)
    }
}

/// The core registers after a poll: the reset flag and the flag that gave
/// the event are cleared.
pub open spec fn polled_core(c: CoreRegs) -> CoreRegs {
    CoreRegs {
        int_reset: false,
        int_enum_done: false,
        int_wakeup: if c.int_enum_done { c.int_wakeup } else { false },
        int_suspend: if c.int_enum_done || c.int_wakeup { c.int_suspend } else { false },
        ..c
    }
}

/// The receive queue after decoding: completion and unknown entries are
/// popped, received-data entries stay for `read`.
pub open spec fn polled_rx(q: Seq<RxStatus>) -> Seq<RxStatus> {
    if q.len() > 0 && q[0].status != STS_OUT_RECEIVED && q[0].status != STS_SETUP_RECEIVED {
        q.skip(1)
    } else {
        q
    }
}

pub open spec fn is_completion(q: Seq<RxStatus>) -> bool {
    q.len() > 0 && (q[0].status == STS_OUT_COMPLETE || q[0].status == STS_SETUP_COMPLETE)
}

/// The OUT registers after decoding: a completion entry re-arms its endpoint.
pub open spec fn polled_out(out: Seq<OutEndpointRegs>, q: Seq<RxStatus>) -> Seq<OutEndpointRegs> {
    if is_completion(q) {
        out.update(
            q[0].epnum as int,
            OutEndpointRegs { nak: false, enabled: true, ..out[q[0].epnum as int] },
        )
    } else {
        out
    }
}

/// The IN registers after decoding: reported transfer-complete flags cleared.
pub open spec fn polled_in(eps: Seq<Endpoint>, ins: Seq<InEndpointRegs>) -> Seq<InEndpointRegs> {
    Seq::new(
        ins.len(),
        |i: int|
            if eps[i].initialized() && ins[i].xfer_complete {
                InEndpointRegs { xfer_complete: false, ..ins[i] }
            } else {
                ins[i]
            },
    )
}

/// The transmit FIFOs after decoding: a SETUP packet flushes the control
/// endpoint's FIFO if a packet was still pending there.
pub open spec fn polled_tx(tx: Seq<Seq<u32>>, ins: Seq<InEndpointRegs>, q: Seq<RxStatus>) -> Seq<
    Seq<u32>,
> {
    if q.len() > 0 && q[0].status == STS_SETUP_RECEIVED && ins[q[0].epnum as int].packet_count != 0 {
        tx.update(q[0].epnum as int, Seq::empty())
    } else {
        tx
    }
}

/// Whether the endpoint at `a` exists and is initialized.
pub open spec fn live(bus: UsbBus, a: EndpointAddress) -> bool {
    a.index < NUM_ENDPOINTS && if a.direction == UsbDirection::In {
        bus.endpoints_in@[a.index as int].common.initialized()
    } else {
        bus.endpoints_out@[a.index as int].common.initialized()
    }
}

/// What `alloc_ep` does.
pub open spec fn alloc_ep_post(
    old: UsbBus,
    new: UsbBus,
    dir: UsbDirection,
    ep_addr: Option<EndpointAddress>,
    ep_type: EndpointType,
    max_packet_size: u16,
    r: Result<EndpointAddress, UsbError>,
) -> bool {
    let eps = if dir == UsbDirection::In {
        descriptors(old.endpoints_in@)
    } else {
        descriptors(old.endpoints_out@)
    };
    let slot = free_slot(eps, dir, ep_addr);
    let words = words_of(max_packet_size as int);
    let fits = words <= old.endpoint_allocator.capacity() - old.endpoint_allocator.next();
    let desc = Endpoint {
        ep_type: Some(ep_type),
        max_packet_size,
        address: slot_address(slot->Ok_0, dir),
    };
    &&& slot is Err ==> r == Err::<EndpointAddress, UsbError>(slot->Err_0) && new == old
    &&& slot is Ok && dir == UsbDirection::Out && !fits ==> r == Err::<EndpointAddress, UsbError>(
        UsbError::EndpointOverflow,
    ) && new == old
    &&& slot is Ok && (dir == UsbDirection::In || fits) ==> {
        &&& r == Ok::<EndpointAddress, UsbError>(slot_address(slot->Ok_0, dir))
        &&& new.regs == old.regs
        &&& dir == UsbDirection::In ==> {
            &&& new.endpoints_in@ == old.endpoints_in@.update(slot->Ok_0, EndpointIn { common: desc })
            &&& new.endpoints_out@ == old.endpoints_out@
            &&& new.endpoint_allocator == old.endpoint_allocator
        }
        &&& dir == UsbDirection::Out ==> {
            let buffer = EndpointBuffer {
                offset: old.endpoint_allocator.next() as usize,
                len: words as usize,
            };
            &&& new.endpoints_out@ == old.endpoints_out@.update(
                slot->Ok_0,
                EndpointOut { common: desc, buffer: Some(buffer) },
            )
            &&& new.endpoints_in@ == old.endpoints_in@
            &&& new.endpoint_allocator.issued() == old.endpoint_allocator.issued().push(buffer)
            &&& new.endpoint_allocator.next() == old.endpoint_allocator.next() + words
            &&& new.endpoint_allocator.capacity() == old.endpoint_allocator.capacity()
        }
    }
}

/// Whether `is_stalled` reports the endpoint at `a` stalled: an address
/// past the table reads as stalled.
pub open spec fn reports_stalled(bus: UsbBus, a: EndpointAddress) -> bool {
    if a.index >= NUM_ENDPOINTS {
        true
    } else {
        stall_of(bus.regs, a)
    }
}

/// What `set_stalled` does.
pub open spec fn set_stalled_post(old: UsbBus, new: UsbBus, a: EndpointAddress, stalled: bool) -> bool {
    &&& !live(old, a) || reports_stalled(old, a) == stalled ==> new == old
    &&& live(old, a) ==> reports_stalled(new, a) == stalled
    &&& new.regs.core == old.regs.core
    &&& new.regs.tx_fifos@ == old.regs.tx_fifos@
    &&& new.regs.rx_status@ == old.regs.rx_status@
    &&& new.regs.rx_fifo@ == old.regs.rx_fifo@
    &&& live(old, a) && a.direction == UsbDirection::In ==> {
        &&& new.regs.ep_in@ == old.regs.ep_in@.update(
            a.index as int,
            InEndpointRegs { stall: stalled, ..old.regs.ep_in@[a.index as int] },
        )
        &&& new.regs.ep_out@ == old.regs.ep_out@
    }
    &&& live(old, a) && a.direction == UsbDirection::Out ==> {
        &&& new.regs.ep_out@ == old.regs.ep_out@.update(
            a.index as int,
            OutEndpointRegs { stall: stalled, ..old.regs.ep_out@[a.index as int] },
        )
        &&& new.regs.ep_in@ == old.regs.ep_in@
    }
    &&& new.endpoints_in == old.endpoints_in
    &&& new.endpoints_out == old.endpoints_out
    &&& new.endpoint_allocator == old.endpoint_allocator
}

/// IN registers after every initialized IN endpoint is configured.
pub open spec fn reconfigured_in(eps: Seq<EndpointIn>, r: Seq<InEndpointRegs>) -> Seq<InEndpointRegs> {
    Seq::new(
        r.len(),
        |i: int|
            if eps[i].common.initialized() {
                configured_in(r[i], eps[i].common)
            } else {
                r[i]
            },
    )
}

/// OUT registers after every initialized OUT endpoint is configured.
pub open spec fn reconfigured_out(eps: Seq<EndpointOut>, r: Seq<OutEndpointRegs>) -> Seq<OutEndpointRegs> {
    Seq::new(
        r.len(),
        |i: int|
            if eps[i].common.initialized() {
                configured_out(r[i], eps[i].common)
            } else {
                r[i]
            },
    )
}

/// IN registers after every IN endpoint is deconfigured.
pub open spec fn all_deconfigured_in(r: Seq<InEndpointRegs>) -> Seq<InEndpointRegs> {
    Seq::new(r.len(), |i: int| deconfigured_in(r[i], i as u8))
}

/// OUT registers after every OUT endpoint is deconfigured.
pub open spec fn all_deconfigured_out(r: Seq<OutEndpointRegs>) -> Seq<OutEndpointRegs> {
    Seq::new(r.len(), |i: int| deconfigured_out(r[i], i as u8))
}

/// The result of a transfer call with its byte count dropped.
pub open spec fn unit_result(r: Result<usize, UsbError>) -> Result<(), UsbError> {
    match r {
        Ok(_) => Ok(()),
        Err(e) => Err(e),
    }
}

/// A bound on the first `n` bits of an endpoint mask.
pub open spec fn mask_limit(n: int) -> int {
    if n <= 0 {
        1
    } else if n == 1 {
        2
    } else if n == 2 {
        4
    } else if n == 3 {
        8
    } else {
        16
    }
}

proof fn lemma_mask_bound(eps: Seq<Endpoint>, regs: Seq<InEndpointRegs>, n: int)
    requires
        0 <= n <= NUM_ENDPOINTS,
    ensures
        0 <= in_complete_mask(eps, regs, n) < mask_limit(n),
    decreases n,
{
    if n > 0 {
        lemma_mask_bound(eps, regs, n - 1);
    }
}

proof fn lemma_mask_empty(eps: Seq<Endpoint>, regs: Seq<InEndpointRegs>, n: int)
    requires
        0 <= n <= regs.len(),
        forall|i: int| 0 <= i < regs.len() ==> !(#[trigger] regs[i]).xfer_complete,
    ensures
        in_complete_mask(eps, regs, n) == 0,
    decreases n,
{
    if n > 0 {
        lemma_mask_empty(eps, regs, n - 1);
    }
}

fn ep_bit_of(i: usize) -> (r: u16)
    requires
        i < NUM_ENDPOINTS,
    ensures
        r == ep_bit(i as int),
{
    if i == 0 {
        1
    } else if i == 1 {
        2
    } else if i == 2 {
        4
    } else {
        8
    }
}

/// Finds the slot for a request: the slot of `ep_addr` when one is given,
/// failing with `InvalidEndpoint` when it does not exist or is already
/// initialized; else the lowest uninitialized slot above the control
/// endpoint, failing with `EndpointOverflow` when there is none.
pub fn find_free_endpoint<EP: AsEndpoint>(
    endpoints: &Vec<EP>,
    direction: UsbDirection,
    ep_addr: Option<EndpointAddress>,
) -> (r: Result<usize, UsbError>)
    requires
        table_wf(descriptors(endpoints@), direction),
    ensures
        r matches Ok(i) ==> i < endpoints@.len(),
        r matches Ok(i) ==> (ep_addr matches Some(a) ==> i == a.index) && (ep_addr is None ==> i
            >= 1),
        r matches Ok(i) ==> free_slot(descriptors(endpoints@), direction, ep_addr) == Ok::<
            int,
            UsbError,
        >(i as int),
        r matches Err(e) ==> free_slot(descriptors(endpoints@), direction, ep_addr) == Err::<
            int,
            UsbError,
        >(e),
{
    let ghost eps = descriptors(endpoints@);
    match ep_addr {
        Some(address) => {
            let mut i: usize = 0;
            while i < endpoints.len()
                invariant
                    eps == descriptors(endpoints@),
                    table_wf(eps, direction),
                    i <= endpoints@.len(),
                    forall|j: int| 0 <= j < i ==> eps[j].address != address,
                    ep_addr == Some(address),
                decreases endpoints@.len() - i,
            {
                let ep = endpoints[i].endpoint();
                assert(eps[i as int] == *ep);
                if ep.address == address {
                    if !ep.is_initialized() {
                        return Ok(i);
                    } else {
                        return Err(UsbError::InvalidEndpoint);
                    }
                }
                i = i + 1;
            }
            proof {
                if address.direction == direction && address.index < eps.len() {
                    assert(eps[address.index as int].address == address);
                }
            }
            Err(UsbError::InvalidEndpoint)
        },
        None => {
            let mut i: usize = 1;
            while i < endpoints.len()
                invariant
                    eps == descriptors(endpoints@),
                    table_wf(eps, direction),
                    1 <= i <= endpoints@.len(),
                    lowest_free(eps, 1) == lowest_free(eps, i as int),
                    ep_addr is None,
                decreases endpoints@.len() - i,
            {
                let ep = endpoints[i].endpoint();
                assert(eps[i as int] == *ep);
                if !ep.is_initialized() {
                    return Ok(i);
                }
                i = i + 1;
            }
            Err(UsbError::EndpointOverflow)
        },
    }
}

impl UsbBus {
    pub open spec fn wf(&self) -> bool {
        &&& self.regs.wf()
        &&& table_wf(descriptors(self.endpoints_in@), UsbDirection::In)
        &&& table_wf(descriptors(self.endpoints_out@), UsbDirection::Out)
        &&& self.endpoint_allocator.wf()
        &&& self.endpoints_in@[0].common.initialized() ==> valid_ep0_size(
            self.endpoints_in@[0].common.max_packet_size,
        )
        &&& self.endpoints_out@[0].common.initialized() ==> valid_ep0_size(
            self.endpoints_out@[0].common.max_packet_size,
        )
        &&& forall|i: int|
            0 <= i < NUM_ENDPOINTS ==> ((#[trigger] self.endpoints_out@[i]).buffer is Some
                <==> self.endpoints_out@[i].common.initialized())
    }

    proof fn lemma_descriptors(&self)
        requires
            self.wf(),
        ensures
            forall|i: int|
                0 <= i < NUM_ENDPOINTS ==> (#[trigger] self.endpoints_in@[i]).common.address
                    == slot_address(i, UsbDirection::In),
            forall|i: int|
                0 <= i < NUM_ENDPOINTS ==> (#[trigger] self.endpoints_out@[i]).common.address
                    == slot_address(i, UsbDirection::Out),
    {
        assert forall|i: int| 0 <= i < NUM_ENDPOINTS implies (#[trigger] self.endpoints_in@[i]).common.address
            == slot_address(i, UsbDirection::In) by {
            assert(descriptors(self.endpoints_in@)[i] == self.endpoints_in@[i].common);
        }
        assert forall|i: int| 0 <= i < NUM_ENDPOINTS implies (#[trigger] self.endpoints_out@[i]).common.address
            == slot_address(i, UsbDirection::Out) by {
            assert(descriptors(self.endpoints_out@)[i] == self.endpoints_out@[i].common);
        }
    }

    /// A driver over `regs` with no endpoint initialized and a packet-memory
    /// pool of `ep_memory_words` words.
    pub fn new(regs: UsbRegisters, ep_memory_words: usize) -> (r: UsbBus)
        requires
            regs.wf(),
        ensures
            r.wf(),
            r.regs == regs,
            forall|i: int|
                0 <= i < NUM_ENDPOINTS ==> !(#[trigger] r.endpoints_in@[i]).common.initialized()
                    && !r.endpoints_out@[i].common.initialized(),
            r.endpoint_allocator.capacity() == ep_memory_words,
            r.endpoint_allocator.next() == RX_FIFO_SIZE,
            r.endpoint_allocator.issued().len() == 0,
    {
        let endpoints_in = vec![
            EndpointIn::new(EndpointAddress::from_parts(0, UsbDirection::In)),
            EndpointIn::new(EndpointAddress::from_parts(1, UsbDirection::In)),
            EndpointIn::new(EndpointAddress::from_parts(2, UsbDirection::In)),
            EndpointIn::new(EndpointAddress::from_parts(3, UsbDirection::In)),
        ];
        let endpoints_out = vec![
            EndpointOut::new(EndpointAddress::from_parts(0, UsbDirection::Out)),
            EndpointOut::new(EndpointAddress::from_parts(1, UsbDirection::Out)),
            EndpointOut::new(EndpointAddress::from_parts(2, UsbDirection::Out)),
            EndpointOut::new(EndpointAddress::from_parts(3, UsbDirection::Out)),
        ];
        let bus = UsbBus {
            regs,
            endpoints_in,
            endpoints_out,
            endpoint_allocator: EndpointMemoryAllocator::new(ep_memory_words),
        };
        proof {
            assert(descriptors(bus.endpoints_in@)[1] == bus.endpoints_in@[1].common);
            assert(descriptors(bus.endpoints_in@)[2] == bus.endpoints_in@[2].common);
            assert(descriptors(bus.endpoints_in@)[3] == bus.endpoints_in@[3].common);
            assert(descriptors(bus.endpoints_in@)[0] == bus.endpoints_in@[0].common);
            assert(descriptors(bus.endpoints_out@)[1] == bus.endpoints_out@[1].common);
            assert(descriptors(bus.endpoints_out@)[2] == bus.endpoints_out@[2].common);
            assert(descriptors(bus.endpoints_out@)[3] == bus.endpoints_out@[3].common);
            assert(descriptors(bus.endpoints_out@)[0] == bus.endpoints_out@[0].common);
        }
        bus
    }

    /// Re-applies the hardware configuration of every initialized endpoint
    /// from its retained descriptor.
    pub fn configure_all(&mut self)
        requires
            old(self).wf(),
        ensures
            final(self).wf(),
            final(self).endpoints_in == old(self).endpoints_in,
            final(self).endpoints_out == old(self).endpoints_out,
            final(self).endpoint_allocator == old(self).endpoint_allocator,
            final(self).regs.core == old(self).regs.core,
            final(self).regs.tx_fifos@ == old(self).regs.tx_fifos@,
            final(self).regs.rx_status@ == old(self).regs.rx_status@,
            final(self).regs.rx_fifo@ == old(self).regs.rx_fifo@,
            final(self).regs.ep_in@ == reconfigured_in(old(self).endpoints_in@, old(self).regs.ep_in@),
            final(self).regs.ep_out@ == reconfigured_out(
                old(self).endpoints_out@,
                old(self).regs.ep_out@,
            ),
    {
        proof {
            self.lemma_descriptors();
        }
        let mut i: usize = 0;
        while i < NUM_ENDPOINTS
            invariant
                self.wf(),
                old(self).wf(),
                i <= NUM_ENDPOINTS,
                self.endpoints_in == old(self).endpoints_in,
                self.endpoints_out == old(self).endpoints_out,
                self.endpoint_allocator == old(self).endpoint_allocator,
                self.regs.core == old(self).regs.core,
                self.regs.tx_fifos@ == old(self).regs.tx_fifos@,
                self.regs.rx_status@ == old(self).regs.rx_status@,
                self.regs.rx_fifo@ == old(self).regs.rx_fifo@,
                self.regs.ep_out@ == old(self).regs.ep_out@,
                forall|k: int| 0 <= k < NUM_ENDPOINTS ==> (#[trigger] self.endpoints_in@[k]).common.address
                    == slot_address(k, UsbDirection::In),
                forall|k: int|
                    0 <= k < NUM_ENDPOINTS ==> #[trigger] self.regs.ep_in@[k] == if k < i {
                        reconfigured_in(old(self).endpoints_in@, old(self).regs.ep_in@)[k]
                    } else {
                        old(self).regs.ep_in@[k]
                    },
            decreases NUM_ENDPOINTS - i,
        {
            let ep = self.endpoints_in[i];
            if ep.common.is_initialized() {
                ep.common.configure(&mut self.regs);
            }
            i = i + 1;
        }
        assert(self.regs.ep_in@ =~= reconfigured_in(old(self).endpoints_in@, old(self).regs.ep_in@));
        let mut i: usize = 0;
        while i < NUM_ENDPOINTS
            invariant
                self.wf(),
                old(self).wf(),
                i <= NUM_ENDPOINTS,
                self.endpoints_in == old(self).endpoints_in,
                self.endpoints_out == old(self).endpoints_out,
                self.endpoint_allocator == old(self).endpoint_allocator,
                self.regs.core == old(self).regs.core,
                self.regs.tx_fifos@ == old(self).regs.tx_fifos@,
                self.regs.rx_status@ == old(self).regs.rx_status@,
                self.regs.rx_fifo@ == old(self).regs.rx_fifo@,
                self.regs.ep_in@ == reconfigured_in(old(self).endpoints_in@, old(self).regs.ep_in@),
                forall|k: int| 0 <= k < NUM_ENDPOINTS ==> (#[trigger] self.endpoints_out@[k]).common.address
                    == slot_address(k, UsbDirection::Out),
                forall|k: int|
                    0 <= k < NUM_ENDPOINTS ==> #[trigger] self.regs.ep_out@[k] == if k < i {
                        reconfigured_out(old(self).endpoints_out@, old(self).regs.ep_out@)[k]
                    } else {
                        old(self).regs.ep_out@[k]
                    },
            decreases NUM_ENDPOINTS - i,
        {
            let ep = self.endpoints_out[i];
            if ep.common.is_initialized() {
                ep.common.configure(&mut self.regs);
            }
            i = i + 1;
        }
        assert(self.regs.ep_out@ =~= reconfigured_out(old(self).endpoints_out@, old(self).regs.ep_out@));
    }

    /// Deconfigures every endpoint, initialized or not; descriptors stay.
    pub fn deconfigure_all(&mut self)
        requires
            old(self).wf(),
        ensures
            final(self).wf(),
            final(self).endpoints_in == old(self).endpoints_in,
            final(self).endpoints_out == old(self).endpoints_out,
            final(self).endpoint_allocator == old(self).endpoint_allocator,
            final(self).regs.core == old(self).regs.core,
            final(self).regs.tx_fifos@ == old(self).regs.tx_fifos@,
            final(self).regs.rx_status@ == old(self).regs.rx_status@,
            final(self).regs.rx_fifo@ == old(self).regs.rx_fifo@,
            final(self).regs.ep_in@ == all_deconfigured_in(old(self).regs.ep_in@),
            final(self).regs.ep_out@ == all_deconfigured_out(old(self).regs.ep_out@),
    {
        proof {
            self.lemma_descriptors();
        }
        let mut i: usize = 0;
        while i < NUM_ENDPOINTS
            invariant
                self.wf(),
                old(self).wf(),
                i <= NUM_ENDPOINTS,
                self.endpoints_in == old(self).endpoints_in,
                self.endpoints_out == old(self).endpoints_out,
                self.endpoint_allocator == old(self).endpoint_allocator,
                self.regs.core == old(self).regs.core,
                self.regs.tx_fifos@ == old(self).regs.tx_fifos@,
                self.regs.rx_status@ == old(self).regs.rx_status@,
                self.regs.rx_fifo@ == old(self).regs.rx_fifo@,
                self.regs.ep_out@ == old(self).regs.ep_out@,
                forall|k: int| 0 <= k < NUM_ENDPOINTS ==> (#[trigger] self.endpoints_in@[k]).common.address
                    == slot_address(k, UsbDirection::In),
                forall|k: int|
                    0 <= k < NUM_ENDPOINTS ==> #[trigger] self.regs.ep_in@[k] == if k < i {
                        deconfigured_in(old(self).regs.ep_in@[k], k as u8)
                    } else {
                        old(self).regs.ep_in@[k]
                    },
            decreases NUM_ENDPOINTS - i,
        {
            let ep = self.endpoints_in[i];
            ep.common.deconfigure(&mut self.regs);
            i = i + 1;
        }
        assert(self.regs.ep_in@ =~= all_deconfigured_in(old(self).regs.ep_in@));
        let mut i: usize = 0;
        while i < NUM_ENDPOINTS
            invariant
                self.wf(),
                old(self).wf(),
                i <= NUM_ENDPOINTS,
                self.endpoints_in == old(self).endpoints_in,
                self.endpoints_out == old(self).endpoints_out,
                self.endpoint_allocator == old(self).endpoint_allocator,
                self.regs.core == old(self).regs.core,
                self.regs.tx_fifos@ == old(self).regs.tx_fifos@,
                self.regs.rx_status@ == old(self).regs.rx_status@,
                self.regs.rx_fifo@ == old(self).regs.rx_fifo@,
                self.regs.ep_in@ == all_deconfigured_in(old(self).regs.ep_in@),
                forall|k: int| 0 <= k < NUM_ENDPOINTS ==> (#[trigger] self.endpoints_out@[k]).common.address
                    == slot_address(k, UsbDirection::Out),
                forall|k: int|
                    0 <= k < NUM_ENDPOINTS ==> #[trigger] self.regs.ep_out@[k] == if k < i {
                        deconfigured_out(old(self).regs.ep_out@[k], k as u8)
                    } else {
                        old(self).regs.ep_out@[k]
                    },
            decreases NUM_ENDPOINTS - i,
        {
            let ep = self.endpoints_out[i];
            ep.common.deconfigure(&mut self.regs);
            i = i + 1;
        }
        assert(self.regs.ep_out@ =~= all_deconfigured_out(old(self).regs.ep_out@));
    }

    /// Initializes an endpoint slot of direction `ep_dir` for the stack:
    /// the slot of `ep_addr` when given, else the lowest free slot above
    /// the control endpoint. An OUT endpoint also gets a packet buffer of
    /// `max_packet_size` bytes; when the pool cannot hold it the call fails
    /// with `EndpointOverflow` and nothing changes. The control endpoint's
    /// size must be one the hardware supports.
    pub fn alloc_ep(
        &mut self,
        ep_dir: UsbDirection,
        ep_addr: Option<EndpointAddress>,
        ep_type: EndpointType,
        max_packet_size: u16,
        _interval: u8,
    ) -> (r: Result<EndpointAddress, UsbError>)
        requires
            old(self).wf(),
            ep_addr matches Some(a) && a.index == 0 ==> valid_ep0_size(max_packet_size),
        ensures
            final(self).wf(),
            alloc_ep_post(*old(self), *final(self), ep_dir, ep_addr, ep_type, max_packet_size, r),
    {
        proof {
            self.lemma_descriptors();
        }
        if ep_dir == UsbDirection::In {
            let i = find_free_endpoint(&self.endpoints_in, ep_dir, ep_addr)?;
            let mut ep = self.endpoints_in[i];
            ep.common.initialize(ep_type, max_packet_size);
            self.endpoints_in.set(i, ep);
            proof {
                assert(descriptors(self.endpoints_in@) =~= descriptors(old(self).endpoints_in@).update(
                    i as int,
                    ep.common,
                ));
            }
            Ok(ep.common.address)
        } else {
            let i = find_free_endpoint(&self.endpoints_out, ep_dir, ep_addr)?;
            let buffer = match self.endpoint_allocator.allocate_rx_buffer(max_packet_size as usize) {
                Ok(b) => b,
                Err(e) => {
                    return Err(e);
                },
            };
            let mut ep = self.endpoints_out[i];
            ep.initialize(ep_type, max_packet_size, buffer);
            self.endpoints_out.set(i, ep);
            proof {
                assert(descriptors(self.endpoints_out@) =~= descriptors(
                    old(self).endpoints_out@,
                ).update(i as int, ep.common));
            }
            Ok(ep.common.address)
        }
    }

    /// One-time bring-up: clock gate, device mode and turnaround time, VBUS
    /// sensing off, PHY clock on, soft-disconnect, full speed, FIFO sizes,
    /// interrupt masks, pending flags cleared, global interrupt on,
    /// transceiver powered, and finally soft-disconnect released. The
    /// register model completes each step at once, so the wait for the core
    /// to become idle has nothing to wait for.
    pub fn enable(&mut self)
        requires
            old(self).wf(),
        ensures
            final(self).wf(),
            final(self).regs.core == enabled_core(old(self).regs.core),
            final(self).regs.ep_in == old(self).regs.ep_in,
            final(self).regs.ep_out == old(self).regs.ep_out,
            final(self).regs.tx_fifos == old(self).regs.tx_fifos,
            final(self).regs.rx_status == old(self).regs.rx_status,
            final(self).regs.rx_fifo == old(self).regs.rx_fifo,
            final(self).endpoints_in == old(self).endpoints_in,
            final(self).endpoints_out == old(self).endpoints_out,
            final(self).endpoint_allocator == old(self).endpoint_allocator,
    {
        self.regs.core.clock_enabled = true;
        self.regs.core.srp_capable = false;
        self.regs.core.turnaround_time = TURNAROUND_TIME;
        self.regs.core.force_device_mode = true;
        self.regs.core.vbus_sensing_disabled = true;
        self.regs.core.transceiver_powered = false;
        self.regs.core.phy_clock_stopped = false;
        self.regs.core.soft_disconnect = true;
        self.regs.core.device_speed = FULL_SPEED;
        self.regs.core.rx_fifo_words = RX_FIFO_SIZE;
        self.regs.core.tx0_fifo_depth = TX0_FIFO_DEPTH;
        self.regs.core.tx0_fifo_start = RX_FIFO_SIZE;
        self.regs.core.in_xfer_complete_unmasked = true;
        self.regs.core.reset_unmasked = true;
        self.regs.core.enum_done_unmasked = true;
        self.regs.core.suspend_unmasked = true;
        self.regs.core.wakeup_unmasked = true;
        self.regs.core.in_endpoint_unmasked = true;
        self.regs.core.rx_level_unmasked = true;
        self.regs.core.int_reset = false;
        self.regs.core.int_enum_done = false;
        self.regs.core.int_suspend = false;
        self.regs.core.int_wakeup = false;
        self.regs.core.global_interrupt_enabled = true;
        self.regs.core.transceiver_powered = true;
        self.regs.core.soft_disconnect = false;
    }

    /// Handles a bus reset reported by `poll`: re-arms every initialized
    /// endpoint from its descriptor and clears the device address.
    pub fn reset(&mut self)
        requires
            old(self).wf(),
        ensures
            final(self).wf(),
            final(self).regs.core == (CoreRegs { device_address: 0, ..old(self).regs.core }),
            final(self).regs.ep_in@ == reconfigured_in(old(self).endpoints_in@, old(self).regs.ep_in@),
            final(self).regs.ep_out@ == reconfigured_out(
                old(self).endpoints_out@,
                old(self).regs.ep_out@,
            ),
            final(self).regs.tx_fifos@ == old(self).regs.tx_fifos@,
            final(self).regs.rx_status@ == old(self).regs.rx_status@,
            final(self).regs.rx_fifo@ == old(self).regs.rx_fifo@,
            final(self).endpoints_in == old(self).endpoints_in,
            final(self).endpoints_out == old(self).endpoints_out,
            final(self).endpoint_allocator == old(self).endpoint_allocator,
    {
        self.configure_all();
        self.set_device_address(0);
    }

    /// Writes the device address. The stack must call this before the
    /// status stage of the Set-Address transfer completes.
    pub fn set_device_address(&mut self, addr: u8)
        requires
            old(self).wf(),
        ensures
            final(self).wf(),
            final(self).regs.core == (CoreRegs { device_address: addr, ..old(self).regs.core }),
            final(self).regs.ep_in == old(self).regs.ep_in,
            final(self).regs.ep_out == old(self).regs.ep_out,
            final(self).regs.tx_fifos == old(self).regs.tx_fifos,
            final(self).regs.rx_status == old(self).regs.rx_status,
            final(self).regs.rx_fifo == old(self).regs.rx_fifo,
            final(self).endpoints_in == old(self).endpoints_in,
            final(self).endpoints_out == old(self).endpoints_out,
            final(self).endpoint_allocator == old(self).endpoint_allocator,
    {
        self.regs.core.device_address = addr;
    }

    /// Sends one packet on the IN endpoint at `ep_addr` and returns its
    /// length; an OUT address or one past the table fails with
    /// `InvalidEndpoint`.
    pub fn write(&mut self, ep_addr: EndpointAddress, buf: &[u8]) -> (r: Result<usize, UsbError>)
        requires
            old(self).wf(),
            buf@.len() <= MAX_TRANSFER_SIZE,
        ensures
            final(self).wf(),
            final(self).endpoints_in == old(self).endpoints_in,
            final(self).endpoints_out == old(self).endpoints_out,
            final(self).endpoint_allocator == old(self).endpoint_allocator,
            ep_addr.direction != UsbDirection::In || ep_addr.index >= NUM_ENDPOINTS ==> r == Err::<
                usize,
                UsbError,
            >(UsbError::InvalidEndpoint) && final(self).regs == old(self).regs,
            ep_addr.direction == UsbDirection::In && ep_addr.index < NUM_ENDPOINTS ==> write_post(
                old(self).regs,
                final(self).regs,
                ep_addr.index as int,
                buf@,
                unit_result(r),
            ),
            r matches Ok(n) ==> n == buf@.len(),
    {
        if !ep_addr.is_in() || ep_addr.index() >= NUM_ENDPOINTS {
            return Err(UsbError::InvalidEndpoint);
        }
        proof {
            self.lemma_descriptors();
        }
        let ep = self.endpoints_in[ep_addr.index()];
        match ep.write(&mut self.regs, buf) {
            Ok(()) => Ok(buf.len()),
            Err(e) => Err(e),
        }
    }

    /// Takes one packet for the OUT endpoint at `ep_addr` into `buf` and
    /// returns its length; an IN address or one past the table fails with
    /// `InvalidEndpoint`.
    pub fn read(&mut self, ep_addr: EndpointAddress, buf: &mut [u8]) -> (r: Result<usize, UsbError>)
        requires
            old(self).wf(),
        ensures
            final(self).wf(),
            final(buf)@.len() == old(buf)@.len(),
            final(self).endpoints_in == old(self).endpoints_in,
            final(self).endpoints_out == old(self).endpoints_out,
            final(self).endpoint_allocator == old(self).endpoint_allocator,
            ep_addr.direction != UsbDirection::Out || ep_addr.index >= NUM_ENDPOINTS ==> r == Err::<
                usize,
                UsbError,
            >(UsbError::InvalidEndpoint) && final(self).regs == old(self).regs && final(buf)@ == old(
                buf,
            )@,
            ep_addr.direction == UsbDirection::Out && ep_addr.index < NUM_ENDPOINTS ==> read_post(
                old(self).regs,
                final(self).regs,
                ep_addr.index,
                old(buf)@,
                final(buf)@,
                r,
            ),
    {
        if !ep_addr.is_out() || ep_addr.index() >= NUM_ENDPOINTS {
            return Err(UsbError::InvalidEndpoint);
        }
        proof {
            self.lemma_descriptors();
        }
        let ep = self.endpoints_out[ep_addr.index()];
        ep.read(&mut self.regs, buf)
    }

    /// Sets or clears the stall bit of the endpoint at `ep_addr`; ignored
    /// for an address past the table or an uninitialized endpoint.
    pub fn set_stalled(&mut self, ep_addr: EndpointAddress, stalled: bool)
        requires
            old(self).wf(),
        ensures
            final(self).wf(),
            set_stalled_post(*old(self), *final(self), ep_addr, stalled),
    {
        if ep_addr.index() >= NUM_ENDPOINTS {
            return ;
        }
        proof {
            self.lemma_descriptors();
        }
        if ep_addr.is_in() {
            let ep = self.endpoints_in[ep_addr.index()];
            ep.common.set_stalled(&mut self.regs, stalled);
        } else {
            let ep = self.endpoints_out[ep_addr.index()];
            ep.common.set_stalled(&mut self.regs, stalled);
        }
    }

    /// The stall bit of the endpoint at `ep_addr`; an address past the
    /// table reads as stalled.
    pub fn is_stalled(&self, ep_addr: EndpointAddress) -> (r: bool)
        requires
            self.wf(),
        ensures
            r == reports_stalled(*self, ep_addr),
    {
        if ep_addr.index() >= NUM_ENDPOINTS {
            return true;
        }
        proof {
            self.lemma_descriptors();
        }
        if ep_addr.is_in() {
            self.endpoints_in[ep_addr.index()].common.is_stalled(&self.regs)
        } else {
            self.endpoints_out[ep_addr.index()].common.is_stalled(&self.regs)
        }
    }

    /// Entering suspend needs no hardware action.
    pub fn suspend(&self) {
    }

    /// Leaving suspend needs no hardware action.
    pub fn resume(&self) {
    }

    /// Step 3 of a poll: decodes the receive-queue head and the IN
    /// transfer-complete flags into a `Data` event, or `NoEvent`.
    fn decode_endpoint_activity(&mut self) -> (r: PollResult)
        requires
            old(self).wf(),
        ensures
            final(self).wf(),
            r == data_event(*old(self)),
            final(self).endpoints_in == old(self).endpoints_in,
            final(self).endpoints_out == old(self).endpoints_out,
            final(self).endpoint_allocator == old(self).endpoint_allocator,
            final(self).regs.core == old(self).regs.core,
            final(self).regs.rx_fifo@ == old(self).regs.rx_fifo@,
            final(self).regs.rx_status@ == polled_rx(old(self).regs.rx_status@),
            final(self).regs.ep_out@ == polled_out(old(self).regs.ep_out@, old(self).regs.rx_status@),
            final(self).regs.ep_in@ == polled_in(
                descriptors(old(self).endpoints_in@),
                old(self).regs.ep_in@,
            ),
            final(self).regs.tx_view() == polled_tx(
                old(self).regs.tx_view(),
                old(self).regs.ep_in@,
                old(self).regs.rx_status@,
            ),
    {
        let ghost q = self.regs.rx_status@;
        let mut ep_out: u16 = 0;
        let mut ep_setup: u16 = 0;
        if self.regs.rx_status.len() > 0 {
            let head = self.regs.rx_status[0];
            let n = head.epnum as usize;
            if head.status == STS_OUT_RECEIVED {
                ep_out = ep_bit_of(n);
            } else if head.status == STS_SETUP_RECEIVED {
                if self.regs.ep_in[n].packet_count != 0 {
                    let ghost before = self.regs.tx_view();
                    self.regs.tx_fifos[n].clear();
                    assert(self.regs.tx_view() =~= before.update(n as int, Seq::empty()));
                }
                ep_setup = ep_bit_of(n);
            } else {
                if head.status == STS_OUT_COMPLETE || head.status == STS_SETUP_COMPLETE {
                    let mut e = self.regs.ep_out[n];
                    e.nak = false;
                    e.enabled = true;
                    self.regs.ep_out.set(n, e);
                }
                self.regs.rx_status.remove(0);
                assert(self.regs.rx_status@ =~= q.skip(1));
                assert forall|k: int| 0 <= k < self.regs.rx_status@.len() implies (
                #[trigger] self.regs.rx_status@[k]).epnum < NUM_ENDPOINTS by {
                    assert(self.regs.rx_status@[k] == q[k + 1]);
                }
            }
        }
        assert(self.regs.rx_status@ == polled_rx(q));
        assert(self.regs.ep_out@ =~= polled_out(old(self).regs.ep_out@, q));
        let ghost eps = descriptors(self.endpoints_in@);
        let ghost ins = self.regs.ep_in@;
        proof {
            self.lemma_descriptors();
        }
        let mut ep_in: u16 = 0;
        let mut i: usize = 0;
        while i < NUM_ENDPOINTS
            invariant
                self.regs.wf(),
                old(self).wf(),
                self.endpoints_in == old(self).endpoints_in,
                self.endpoints_out == old(self).endpoints_out,
                self.endpoint_allocator == old(self).endpoint_allocator,
                i <= NUM_ENDPOINTS,
                eps == descriptors(self.endpoints_in@),
                self.endpoints_in@.len() == NUM_ENDPOINTS,
                ins == old(self).regs.ep_in@,
                ins.len() == NUM_ENDPOINTS,
                ep_in as int == in_complete_mask(eps, ins, i as int),
                forall|k: int|
                    0 <= k < NUM_ENDPOINTS ==> #[trigger] self.regs.ep_in@[k] == if k < i {
                        polled_in(eps, ins)[k]
                    } else {
                        ins[k]
                    },
                self.regs.core == old(self).regs.core,
                self.regs.ep_out@ == polled_out(old(self).regs.ep_out@, q),
                self.regs.rx_status@ == polled_rx(q),
                self.regs.rx_fifo@ == old(self).regs.rx_fifo@,
                self.regs.tx_view() == polled_tx(old(self).regs.tx_view(), ins, q),
            decreases NUM_ENDPOINTS - i,
        {
            proof {
                lemma_mask_bound(eps, ins, i as int);
                assert(eps[i as int] == self.endpoints_in@[i as int].common);
            }
            if self.endpoints_in[i].common.is_initialized() && self.regs.ep_in[i].xfer_complete {
                let mut e = self.regs.ep_in[i];
                e.xfer_complete = false;
                self.regs.ep_in.set(i, e);
                ep_in = ep_in + ep_bit_of(i);
            }
            i = i + 1;
        }
        assert(self.regs.ep_in@ =~= polled_in(eps, ins));
        proof {
            lemma_mask_bound(eps, ins, 4);
        }
        if ep_out != 0 || ep_in != 0 || ep_setup != 0 {
            PollResult::Data { ep_out, ep_in_complete: ep_in, ep_setup }
        } else {
            PollResult::NoEvent
        }
    }

    /// Flushes the shared receive FIFO, status entries and data alike. The
    /// register model completes the flush at once.
    fn flush_rx_fifo(&mut self)
        requires
            old(self).wf(),
        ensures
            final(self).wf(),
            final(self).regs.rx_status@.len() == 0,
            final(self).regs.rx_fifo@.len() == 0,
            final(self).regs.core == old(self).regs.core,
            final(self).regs.ep_in == old(self).regs.ep_in,
            final(self).regs.ep_out == old(self).regs.ep_out,
            final(self).regs.tx_fifos == old(self).regs.tx_fifos,
            final(self).endpoints_in == old(self).endpoints_in,
            final(self).endpoints_out == old(self).endpoints_out,
            final(self).endpoint_allocator == old(self).endpoint_allocator,
    {
        self.regs.rx_status.clear();
        self.regs.rx_fifo.clear();
    }

    /// Clears the bus-reset flag, deconfigures every endpoint and flushes
    /// the receive FIFO; afterwards no endpoint activity is pending.
    fn handle_bus_reset(&mut self)
        requires
            old(self).wf(),
        ensures
            final(self).wf(),
            final(self).regs.core == (CoreRegs { int_reset: false, ..old(self).regs.core }),
            final(self).endpoints_in == old(self).endpoints_in,
            final(self).endpoints_out == old(self).endpoints_out,
            final(self).endpoint_allocator == old(self).endpoint_allocator,
            final(self).regs.ep_in@ == all_deconfigured_in(old(self).regs.ep_in@),
            final(self).regs.ep_out@ == all_deconfigured_out(old(self).regs.ep_out@),
            final(self).regs.rx_status@.len() == 0,
            final(self).regs.rx_fifo@.len() == 0,
            final(self).regs.tx_fifos@ == old(self).regs.tx_fifos@,
            data_event(*final(self)) == PollResult::NoEvent,
            polled_in(descriptors(final(self).endpoints_in@), final(self).regs.ep_in@)
                == final(self).regs.ep_in@,
    {
        self.regs.core.int_reset = false;
        self.deconfigure_all();
        self.flush_rx_fifo();
        proof {
            assert forall|i: int| 0 <= i < self.regs.ep_in@.len() implies !(
            #[trigger] self.regs.ep_in@[i]).xfer_complete by {
                assert(self.regs.ep_in@[i] == all_deconfigured_in(old(self).regs.ep_in@)[i]);
            }
            lemma_mask_empty(descriptors(self.endpoints_in@), self.regs.ep_in@, 4);
            assert(polled_in(descriptors(self.endpoints_in@), self.regs.ep_in@) =~= self.regs.ep_in@);
        }
    }

    /// Decodes the peripheral's status into one event. A pending bus reset
    /// is cleared and handled first (every endpoint deconfigured, the
    /// receive FIFO flushed) without ending the call. Then enumeration done
    /// gives `Reset`, wakeup `Resume`, suspend `Suspend`, in this order,
    /// each clearing its own flag. Otherwise the receive-queue head and the
    /// IN transfer-complete flags give `Data`, or `NoEvent`.
    pub fn poll(&mut self) -> (r: PollResult)
        requires
            old(self).wf(),
        ensures
            final(self).wf(),
            r == poll_event(*old(self)),
            final(self).regs.core == polled_core(old(self).regs.core),
            final(self).endpoints_in == old(self).endpoints_in,
            final(self).endpoints_out == old(self).endpoints_out,
            final(self).endpoint_allocator == old(self).endpoint_allocator,
            old(self).regs.core.int_reset ==> {
                &&& final(self).regs.ep_in@ == all_deconfigured_in(old(self).regs.ep_in@)
                &&& final(self).regs.ep_out@ == all_deconfigured_out(old(self).regs.ep_out@)
                &&& final(self).regs.rx_status@.len() == 0
                &&& final(self).regs.rx_fifo@.len() == 0
                &&& final(self).regs.tx_view() == old(self).regs.tx_view()
            },
            !old(self).regs.core.int_reset && (old(self).regs.core.int_enum_done
                || old(self).regs.core.int_wakeup || old(self).regs.core.int_suspend) ==> {
                &&& final(self).regs.ep_in == old(self).regs.ep_in
                &&& final(self).regs.ep_out == old(self).regs.ep_out
                &&& final(self).regs.rx_status == old(self).regs.rx_status
                &&& final(self).regs.rx_fifo == old(self).regs.rx_fifo
                &&& final(self).regs.tx_fifos == old(self).regs.tx_fifos
            },
            !old(self).regs.core.int_reset && !old(self).regs.core.int_enum_done
                && !old(self).regs.core.int_wakeup && !old(self).regs.core.int_suspend ==> {
                let q = old(self).regs.rx_status@;
                &&& final(self).regs.rx_status@ == polled_rx(q)
                &&& final(self).regs.rx_fifo@ == old(self).regs.rx_fifo@
                &&& final(self).regs.ep_out@ == polled_out(old(self).regs.ep_out@, q)
                &&& final(self).regs.ep_in@ == polled_in(
                    descriptors(old(self).endpoints_in@),
                    old(self).regs.ep_in@,
                )
                &&& final(self).regs.tx_view() == polled_tx(
                    old(self).regs.tx_view(),
                    old(self).regs.ep_in@,
                    q,
                )
            },
    {
        let c = self.regs.core;
        if c.int_reset {
            self.handle_bus_reset();
        }
        if c.int_enum_done {
            self.regs.core.int_enum_done = false;
            PollResult::Reset
        } else if c.int_wakeup {
            self.regs.core.int_wakeup = false;
            PollResult::Resume
        } else if c.int_suspend {
            self.regs.core.int_suspend = false;
            PollResult::Suspend
        } else {
            self.decode_endpoint_activity()
        }
    }
}

proof fn lemma_lowest_free(eps: Seq<Endpoint>, k: int)
    requires
        k >= 0,
    ensures
        lowest_free(eps, k) matches Ok(j) ==> k <= j < eps.len() && !eps[j].initialized(),
    decreases eps.len() - k,
{
    if k < eps.len() && eps[k].initialized() {
        lemma_lowest_free(eps, k + 1);
    }
}

/// The slot `free_slot` picks exists and is uninitialized.
proof fn lemma_free_slot(eps: Seq<Endpoint>, d: UsbDirection, ep_addr: Option<EndpointAddress>)
    ensures
        free_slot(eps, d, ep_addr) matches Ok(j) ==> 0 <= j < eps.len() && !eps[j].initialized(),
{
    lemma_lowest_free(eps, 1);
}

/// An address that `alloc_ep` hands out was not live before the call and
/// is live after it; every address live before stays live.
pub proof fn lemma_alloc_ep_fresh(
    s0: UsbBus,
    s1: UsbBus,
    dir: UsbDirection,
    ep_addr: Option<EndpointAddress>,
    ep_type: EndpointType,
    max_packet_size: u16,
    r: Result<EndpointAddress, UsbError>,
)
    requires
        s0.wf(),
        alloc_ep_post(s0, s1, dir, ep_addr, ep_type, max_packet_size, r),
    ensures
        r matches Ok(a) ==> !live(s0, a) && live(s1, a),
        forall|a: EndpointAddress| live(s0, a) ==> live(s1, a),
{
    let eps = if dir == UsbDirection::In {
        descriptors(s0.endpoints_in@)
    } else {
        descriptors(s0.endpoints_out@)
    };
    lemma_free_slot(eps, dir, ep_addr);
    if let Ok(j) = free_slot(eps, dir, ep_addr) {
        assert(eps[j] == if dir == UsbDirection::In {
            s0.endpoints_in@[j].common
        } else {
            s0.endpoints_out@[j].common
        });
    }
}

/// `alloc_ep` never returns a live address twice: two successful calls in
/// a row hand out different addresses.
pub proof fn lemma_alloc_ep_never_repeats(
    s0: UsbBus,
    s1: UsbBus,
    s2: UsbBus,
    dir1: UsbDirection,
    ep_addr1: Option<EndpointAddress>,
    ep_type1: EndpointType,
    size1: u16,
    r1: Result<EndpointAddress, UsbError>,
    dir2: UsbDirection,
    ep_addr2: Option<EndpointAddress>,
    ep_type2: EndpointType,
    size2: u16,
    r2: Result<EndpointAddress, UsbError>,
)
    requires
        s0.wf(),
        s1.wf(),
        alloc_ep_post(s0, s1, dir1, ep_addr1, ep_type1, size1, r1),
        alloc_ep_post(s1, s2, dir2, ep_addr2, ep_type2, size2, r2),
        r1 is Ok,
        r2 is Ok,
    ensures
        r1->Ok_0 != r2->Ok_0,
{
    lemma_alloc_ep_fresh(s0, s1, dir1, ep_addr1, ep_type1, size1, r1);
    lemma_alloc_ep_fresh(s1, s2, dir2, ep_addr2, ep_type2, size2, r2);
}

/// After `set_stalled(a, stalled)` on an initialized endpoint,
/// `is_stalled(a)` reports `stalled`.
pub proof fn lemma_stall_round_trip(s0: UsbBus, s1: UsbBus, a: EndpointAddress, stalled: bool)
    requires
        set_stalled_post(s0, s1, a, stalled),
        live(s0, a),
    ensures
        reports_stalled(s1, a) == stalled,
{
}

/// Asking `set_stalled` for the value the stall bit already has writes no
/// register.
pub proof fn lemma_set_stalled_idempotent(s0: UsbBus, s1: UsbBus, a: EndpointAddress, stalled: bool)
    requires
        set_stalled_post(s0, s1, a, stalled),
        reports_stalled(s0, a) == stalled,
    ensures
        s1 == s0,
{
}

/// Poll priority: enumeration done beats everything and, with a bus reset
/// pending too, both flags end cleared; without those two, wakeup beats
/// suspend.
pub proof fn lemma_poll_priority(bus: UsbBus)
    ensures
        bus.regs.core.int_enum_done ==> poll_event(bus) == PollResult::Reset
            && !polled_core(bus.regs.core).int_enum_done && !polled_core(bus.regs.core).int_reset,
        !bus.regs.core.int_enum_done && bus.regs.core.int_wakeup ==> poll_event(bus)
            == PollResult::Resume && !polled_core(bus.regs.core).int_wakeup,
{
}

/// A receive-queue head with status "SETUP received" sets its endpoint's
/// bit in `ep_setup` and nothing in `ep_out`; "OUT received" the converse.
pub proof fn lemma_setup_and_out_exclusive(q: Seq<RxStatus>)
    requires
        q.len() > 0,
    ensures
        q[0].status == STS_SETUP_RECEIVED ==> setup_mask(q) == ep_bit(q[0].epnum as int)
            && out_mask(q) == 0,
        q[0].status == STS_OUT_RECEIVED ==> out_mask(q) == ep_bit(q[0].epnum as int)
            && setup_mask(q) == 0,
        ep_bit(q[0].epnum as int) != 0,
{
}

/// An OUT endpoint receives at most one buffer: once initialized, its
/// descriptor and buffer are never touched by `alloc_ep` again.
pub proof fn lemma_buffer_assigned_once(
    s0: UsbBus,
    s1: UsbBus,
    dir: UsbDirection,
    ep_addr: Option<EndpointAddress>,
    ep_type: EndpointType,
    max_packet_size: u16,
    r: Result<EndpointAddress, UsbError>,
    j: int,
)
    requires
        s0.wf(),
        alloc_ep_post(s0, s1, dir, ep_addr, ep_type, max_packet_size, r),
        0 <= j < NUM_ENDPOINTS,
        s0.endpoints_out@[j].common.initialized(),
    ensures
        s1.endpoints_out@[j] == s0.endpoints_out@[j],
{
    let eps = descriptors(s0.endpoints_out@);
    lemma_free_slot(eps, dir, ep_addr);
    assert(eps[j] == s0.endpoints_out@[j].common);
}

} // verus!
