//! Register model of the OTG peripheral and word-granular FIFO access.
//!
//! Each field stands for one named hardware bit-field; the driver reads and
//! writes these fields and nothing else. FIFO traffic is word-granular: bytes
//! are packed little-endian into 32-bit words, a trailing partial word padded
//! with zero high-order bytes.
use vstd::prelude::*;

verus! {

/// Number of endpoints per direction.
pub const NUM_ENDPOINTS: usize = 4;

/// Receive-status code: OUT data packet received.
pub const STS_OUT_RECEIVED: u8 = 2;

/// Receive-status code: OUT transfer completed.
pub const STS_OUT_COMPLETE: u8 = 3;

/// Receive-status code: SETUP transaction completed.
pub const STS_SETUP_COMPLETE: u8 = 4;

/// Receive-status code: SETUP data packet received.
pub const STS_SETUP_RECEIVED: u8 = 6;

/// Global and device-level registers (RCC gate, GUSBCFG, GCCFG, PCGCCTL,
/// DCTL, DCFG, FIFO sizes, interrupt masks and sticky status flags).
#[derive(Clone, Copy, Debug, PartialEq, Eq)]
pub struct CoreRegs {
    pub clock_enabled: bool,
    pub srp_capable: bool,
    pub turnaround_time: u32,
    pub force_device_mode: bool,
    pub vbus_sensing_disabled: bool,
    pub phy_clock_stopped: bool,
    pub transceiver_powered: bool,
    pub soft_disconnect: bool,
    pub device_speed: u32,
    pub device_address: u8,
    pub rx_fifo_words: u32,
    pub tx0_fifo_start: u32,
    pub tx0_fifo_depth: u32,
    pub in_xfer_complete_unmasked: bool,
    pub reset_unmasked: bool,
    pub enum_done_unmasked: bool,
    pub suspend_unmasked: bool,
    pub wakeup_unmasked: bool,
    pub in_endpoint_unmasked: bool,
    pub rx_level_unmasked: bool,
    pub global_interrupt_enabled: bool,
    /// Sticky flag: bus reset detected.
    pub int_reset: bool,
    /// Sticky flag: speed enumeration done.
    pub int_enum_done: bool,
    /// Sticky flag: bus suspend detected.
    pub int_suspend: bool,
    /// Sticky flag: resume/remote wakeup detected.
    pub int_wakeup: bool,
}

/// Registers of one IN endpoint (DIEPCTL, DIEPTSIZ, DIEPINT, its DAINTMSK bit).
#[derive(Clone, Copy, Debug, PartialEq, Eq)]
pub struct InEndpointRegs {
    pub active: bool,
    pub stall: bool,
    pub enabled: bool,
    pub nak: bool,
    pub disable_requested: bool,
    pub max_packet_code: u32,
    pub type_code: u32,
    pub xfer_size: u32,
    pub packet_count: u32,
    pub xfer_complete: bool,
    pub int_unmasked: bool,
}

/// Registers of one OUT endpoint (DOEPCTL, DOEPTSIZ, DOEPINT, its DAINTMSK bit).
#[derive(Clone, Copy, Debug, PartialEq, Eq)]
pub struct OutEndpointRegs {
    pub active: bool,
    pub stall: bool,
    pub enabled: bool,
    pub nak: bool,
    pub disable_requested: bool,
    pub max_packet_code: u32,
    pub type_code: u32,
    pub xfer_size: u32,
    pub packet_count: u32,
    pub setup_count: u32,
    pub xfer_complete: bool,
    pub int_unmasked: bool,
}

/// One entry of the receive-status queue (GRXSTSR / GRXSTSP).
#[derive(Clone, Copy, Debug, PartialEq, Eq)]
pub struct RxStatus {
    pub epnum: u8,
    pub byte_count: u16,
    pub status: u8,
}

/// The whole peripheral as seen by the driver. The receive-queue-non-empty
/// flag and the endpoint-interrupt flag are not stored: they are read off the
/// queue and the IN endpoints' transfer-complete flags.
#[derive(Clone, Debug, PartialEq, Eq)]
pub struct UsbRegisters {
    pub core: CoreRegs,
    pub ep_in: Vec<InEndpointRegs>,
    pub ep_out: Vec<OutEndpointRegs>,
    /// Words queued in each IN endpoint's transmit FIFO, oldest first.
    pub tx_fifos: Vec<Vec<u32>>,
    /// The shared receive-status queue, head first.
    pub rx_status: Vec<RxStatus>,
    /// The shared receive FIFO, oldest word first.
    pub rx_fifo: Vec<u32>,
}

impl UsbRegisters {
    /// Four endpoints per direction; queue entries name an existing endpoint.
    pub open spec fn wf(&self) -> bool {
        &&& self.ep_in@.len() == NUM_ENDPOINTS
        &&& self.ep_out@.len() == NUM_ENDPOINTS
        &&& self.tx_fifos@.len() == NUM_ENDPOINTS
        &&& forall|i: int| 0 <= i < self.rx_status@.len() ==> (#[trigger] self.rx_status@[i]).epnum
            < NUM_ENDPOINTS
    }

    pub open spec fn tx_view(&self) -> Seq<Seq<u32>> {
        self.tx_fifos@.map_values(|f: Vec<u32>| f@)
    }

    /// The register image right after power-up: everything cleared.
    pub fn new() -> (r: UsbRegisters)
        ensures
            r.wf(),
            r.core == power_on_core(),
            forall|i: int| 0 <= i < 4 ==> r.ep_in@[i] == idle_in() && r.ep_out@[i] == idle_out(),
            forall|i: int| 0 <= i < 4 ==> (#[trigger] r.tx_fifos@[i])@.len() == 0,
            r.rx_status@.len() == 0,
            r.rx_fifo@.len() == 0,
    {
        let core = CoreRegs {
            clock_enabled: false,
            srp_capable: false,
            turnaround_time: 0,
            force_device_mode: false,
            vbus_sensing_disabled: false,
            phy_clock_stopped: false,
            transceiver_powered: false,
            soft_disconnect: false,
            device_speed: 0,
            device_address: 0,
            rx_fifo_words: 0,
            tx0_fifo_start: 0,
            tx0_fifo_depth: 0,
            in_xfer_complete_unmasked: false,
            reset_unmasked: false,
            enum_done_unmasked: false,
            suspend_unmasked: false,
            wakeup_unmasked: false,
            in_endpoint_unmasked: false,
            rx_level_unmasked: false,
            global_interrupt_enabled: false,
            int_reset: false,
            int_enum_done: false,
            int_suspend: false,
            int_wakeup: false,
        };
        let ep_in = vec![new_in(), new_in(), new_in(), new_in()];
        let ep_out = vec![new_out(), new_out(), new_out(), new_out()];
        let tx_fifos: Vec<Vec<u32>> = vec![Vec::new(), Vec::new(), Vec::new(), Vec::new()];
        let r = UsbRegisters { core, ep_in, ep_out, tx_fifos, rx_status: Vec::new(), rx_fifo: Vec::new() };
        assert(r.ep_in@ =~= seq![idle_in(), idle_in(), idle_in(), idle_in()]);
        r
    }
}

pub open spec fn power_on_core() -> CoreRegs {
    CoreRegs {
        clock_enabled: false,
        srp_capable: false,
        turnaround_time: 0,
        force_device_mode: false,
        vbus_sensing_disabled: false,
        phy_clock_stopped: false,
        transceiver_powered: false,
        soft_disconnect: false,
        device_speed: 0,
        device_address: 0,
        rx_fifo_words: 0,
        tx0_fifo_start: 0,
        tx0_fifo_depth: 0,
        in_xfer_complete_unmasked: false,
        reset_unmasked: false,
        enum_done_unmasked: false,
        suspend_unmasked: false,
        wakeup_unmasked: false,
        in_endpoint_unmasked: false,
        rx_level_unmasked: false,
        global_interrupt_enabled: false,
        int_reset: false,
        int_enum_done: false,
        int_suspend: false,
        int_wakeup: false,
    }
}

pub open spec fn idle_in() -> InEndpointRegs {
    InEndpointRegs {
        active: false,
        stall: false,
        enabled: false,
        nak: false,
        disable_requested: false,
        max_packet_code: 0,
        type_code: 0,
        xfer_size: 0,
        packet_count: 0,
        xfer_complete: false,
        int_unmasked: false,
    }
}

pub open spec fn idle_out() -> OutEndpointRegs {
    OutEndpointRegs {
        active: false,
        stall: false,
        enabled: false,
        nak: false,
        disable_requested: false,
        max_packet_code: 0,
        type_code: 0,
        xfer_size: 0,
        packet_count: 0,
        setup_count: 0,
        xfer_complete: false,
        int_unmasked: false,
    }
}

fn new_in() -> (r: InEndpointRegs)
    ensures
        r == idle_in(),
{
    InEndpointRegs {
        active: false,
        stall: false,
        enabled: false,
        nak: false,
        disable_requested: false,
        max_packet_code: 0,
        type_code: 0,
        xfer_size: 0,
        packet_count: 0,
        xfer_complete: false,
        int_unmasked: false,
    }
}

fn new_out() -> (r: OutEndpointRegs)
    ensures
        r == idle_out(),
{
    OutEndpointRegs {
        active: false,
        stall: false,
        enabled: false,
        nak: false,
        disable_requested: false,
        max_packet_code: 0,
        type_code: 0,
        xfer_size: 0,
        packet_count: 0,
        setup_count: 0,
        xfer_complete: false,
        int_unmasked: false,
    }
}

/// Byte `i` of `s`, or zero past its end.
pub open spec fn byte_at(s: Seq<u8>, i: int) -> int {
    if 0 <= i < s.len() {
        s[i] as int
    } else {
        0
    }
}

/// Number of FIFO words that carry `n` bytes.
pub open spec fn words_for(n: int) -> int {
    (n + 3) / 4
}

/// Word `k` of the little-endian packing of `s`.
pub open spec fn word_of(s: Seq<u8>, k: int) -> u32 {
    (byte_at(s, 4 * k) + 256 * byte_at(s, 4 * k + 1) + 65536 * byte_at(s, 4 * k + 2) + 16777216
        * byte_at(s, 4 * k + 3)) as u32
}

/// The words that carry `s` through a FIFO.
pub open spec fn pack(s: Seq<u8>) -> Seq<u32> {
    Seq::new(words_for(s.len() as int) as nat, |k: int| word_of(s, k))
}

/// Byte `k` (0 = lowest) of a word.
pub open spec fn word_byte(w: u32, k: int) -> u8 {
    if k == 0 {
        (w % 256) as u8
    } else if k == 1 {
        ((w / 256) % 256) as u8
    } else if k == 2 {
        ((w / 65536) % 256) as u8
    } else {
        ((w / 16777216) % 256) as u8
    }
}

/// Word `k` of a FIFO, or zero past its end.
pub open spec fn word_at(f: Seq<u32>, k: int) -> u32 {
    if 0 <= k < f.len() {
        f[k]
    } else {
        0
    }
}

/// The first `n` bytes read out of the FIFO `f`.
pub open spec fn unpack(f: Seq<u32>, n: nat) -> Seq<u8> {
    Seq::new(n, |j: int| word_byte(word_at(f, j / 4), j % 4))
}

/// The FIFO `f` after `n` bytes have been drained from it.
pub open spec fn drained(f: Seq<u32>, n: nat) -> Seq<u32> {
    if words_for(n as int) <= f.len() {
        f.skip(words_for(n as int))
    } else {
        Seq::empty()
    }
}

fn byte_or_zero(buf: &[u8], w: usize, k: usize) -> (r: u32)
    requires
        k < 4,
    ensures
        r as int == byte_at(buf@, 4 * w + k),
{
    let n = buf.len();
    if w < n / 4 || (w == n / 4 && k < n % 4) {
        buf[4 * w + k] as u32
    } else {
        0
    }
}

fn word_count(n: usize) -> (r: usize)
    ensures
        r == words_for(n as int),
{
    n / 4 + if n % 4 > 0 {
        1
    } else {
        0
    }
}

/// Pushes `buf` into the transmit FIFO of IN endpoint `channel`, four bytes
/// per word, the last word zero-padded.
pub fn fifo_write(regs: &mut UsbRegisters, channel: usize, buf: &[u8])
    requires
        old(regs).wf(),
        channel < NUM_ENDPOINTS,
    ensures
        final(regs).wf(),
        final(regs).tx_view() == old(regs).tx_view().update(
            channel as int,
            old(regs).tx_view()[channel as int] + pack(buf@),
        ),
        final(regs).core == old(regs).core,
        final(regs).ep_in@ == old(regs).ep_in@,
        final(regs).ep_out@ == old(regs).ep_out@,
        final(regs).rx_status@ == old(regs).rx_status@,
        final(regs).rx_fifo@ == old(regs).rx_fifo@,
{
    let ghost start = regs.tx_view()[channel as int];
    let nwords = word_count(buf.len());
    let mut w: usize = 0;
    while w < nwords
        invariant
            regs.wf(),
            old(regs).wf(),
            channel < NUM_ENDPOINTS,
            w <= nwords,
            nwords == words_for(buf@.len() as int),
            start == old(regs).tx_view()[channel as int],
            regs.tx_view() == old(regs).tx_view().update(
                channel as int,
                start + pack(buf@).take(w as int),
            ),
            regs.core == old(regs).core,
            regs.ep_in@ == old(regs).ep_in@,
            regs.ep_out@ == old(regs).ep_out@,
            regs.rx_status@ == old(regs).rx_status@,
            regs.rx_fifo@ == old(regs).rx_fifo@,
        decreases nwords - w,
    {
        let b0 = byte_or_zero(buf, w, 0);
        let b1 = byte_or_zero(buf, w, 1);
        let b2 = byte_or_zero(buf, w, 2);
        let b3 = byte_or_zero(buf, w, 3);
        let word: u32 = b0 + 256 * b1 + 65536 * b2 + 16777216 * b3;
        assert(word == word_of(buf@, w as int));
        let ghost before = regs.tx_view();
        assert(before[channel as int] == start + pack(buf@).take(w as int));
        regs.tx_fifos[channel].push(word);
        assert(pack(buf@).take(w as int + 1) =~= pack(buf@).take(w as int).push(word));
        assert(regs.tx_view() =~= before.update(channel as int, before[channel as int].push(word)));
        assert((start + pack(buf@).take(w as int)).push(word) =~= start + pack(buf@).take(
            w as int + 1,
        ));
        assert(regs.tx_view() =~= old(regs).tx_view().update(
            channel as int,
            start + pack(buf@).take(w as int + 1),
        ));
        w = w + 1;
    }
    assert(pack(buf@).take(w as int) =~= pack(buf@));
}

/// Drains `len` bytes from the shared receive FIFO into the front of `buf`.
/// A word the FIFO does not hold reads as zero.
pub fn fifo_read(regs: &mut UsbRegisters, buf: &mut [u8], len: usize)
    requires
        len <= old(buf)@.len(),
    ensures
        final(buf)@.len() == old(buf)@.len(),
        final(buf)@.take(len as int) == unpack(old(regs).rx_fifo@, len as nat),
        final(buf)@.skip(len as int) == old(buf)@.skip(len as int),
        final(regs).rx_fifo@ == drained(old(regs).rx_fifo@, len as nat),
        final(regs).core == old(regs).core,
        final(regs).ep_in@ == old(regs).ep_in@,
        final(regs).ep_out@ == old(regs).ep_out@,
        final(regs).tx_fifos@ == old(regs).tx_fifos@,
        final(regs).rx_status@ == old(regs).rx_status@,
{
    let ghost f = regs.rx_fifo@;
    let nwords = word_count(len);
    let mut w: usize = 0;
    while w < nwords
        invariant
            len <= buf@.len(),
            buf@.len() == old(buf)@.len(),
            w <= nwords,
            nwords == words_for(len as int),
            f == old(regs).rx_fifo@,
            forall|j: int| 0 <= j < 4 * w && j < len ==> buf@[j] == #[trigger] unpack(f, len as nat)[j],
            forall|j: int| len <= j < buf@.len() ==> buf@[j] == old(buf)@[j],
            w <= f.len() ==> regs.rx_fifo@ == f.skip(w as int),
            w > f.len() ==> regs.rx_fifo@.len() == 0,
            regs.core == old(regs).core,
            regs.ep_in@ == old(regs).ep_in@,
            regs.ep_out@ == old(regs).ep_out@,
            regs.tx_fifos@ == old(regs).tx_fifos@,
            regs.rx_status@ == old(regs).rx_status@,
        decreases nwords - w,
    {
        let word: u32 = if regs.rx_fifo.len() > 0 {
            regs.rx_fifo.remove(0)
        } else {
            0
        };
        assert(word == word_at(f, w as int));
        let mut k: usize = 0;
        while k < 4 && (w < len / 4 || k < len % 4)
            invariant
                k <= 4,
                w < nwords,
                nwords == words_for(len as int),
                len <= buf@.len(),
                buf@.len() == old(buf)@.len(),
                word == word_at(f, w as int),
                forall|j: int| 0 <= j < 4 * w + k && j < len ==> buf@[j] == #[trigger] unpack(f, len as nat)[j],
                forall|j: int| len <= j < buf@.len() ==> buf@[j] == old(buf)@[j],
                k < 4 && !(w < len / 4 || k < len % 4) ==> 4 * w + k >= len,
            decreases 4 - k,
        {
            let byte: u8 = if k == 0 {
                (word % 256) as u8
            } else if k == 1 {
                ((word / 256) % 256) as u8
            } else if k == 2 {
                ((word / 65536) % 256) as u8
            } else {
                ((word / 16777216) % 256) as u8
            };
            assert((4 * w + k) as int / 4 == w as int && (4 * w + k) as int % 4 == k as int);
            assert(byte == unpack(f, len as nat)[4 * w + k]);
            buf[4 * w + k] = byte;
            k = k + 1;
        }
        w = w + 1;
    }
    assert(buf@.take(len as int) =~= unpack(f, len as nat));
    assert(buf@.skip(len as int) =~= old(buf)@.skip(len as int));
    proof {
        if !(words_for(len as int) <= f.len()) {
            assert(regs.rx_fifo@ =~= Seq::<u32>::empty());
        }
    }
}

} // verus!
