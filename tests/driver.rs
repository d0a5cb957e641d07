use usb_otg::bus::UsbBus;
use usb_otg::endpoint_memory::{EndpointBuffer, EndpointMemoryAllocator};
use usb_otg::target::{fifo_read, fifo_write, RxStatus, UsbRegisters};
use usb_otg::types::{EndpointAddress, EndpointType, PollResult, UsbDirection, UsbError};

fn addr(index: usize, direction: UsbDirection) -> EndpointAddress {
    EndpointAddress::from_parts(index, direction)
}

/// A bus with the control endpoint (64 bytes) on both directions.
fn control_bus() -> UsbBus {
    let mut bus = UsbBus::new(UsbRegisters::new(), 256);
    let a = bus.alloc_ep(UsbDirection::In, Some(addr(0, UsbDirection::In)), EndpointType::Control, 64, 0);
    assert_eq!(a, Ok(addr(0, UsbDirection::In)));
    let a = bus.alloc_ep(UsbDirection::Out, Some(addr(0, UsbDirection::Out)), EndpointType::Control, 64, 0);
    assert_eq!(a, Ok(addr(0, UsbDirection::Out)));
    bus
}

/// A bus with control endpoints and a bulk OUT endpoint 1, enabled and reset.
fn running_bus() -> UsbBus {
    let mut bus = control_bus();
    let a = bus.alloc_ep(UsbDirection::Out, None, EndpointType::Bulk, 64, 0);
    assert_eq!(a, Ok(addr(1, UsbDirection::Out)));
    bus.enable();
    bus.reset();
    bus
}

#[test]
fn end_to_end_enumeration_reset() {
    let mut bus = control_bus();
    bus.enable();
    bus.regs.core.int_reset = true;
    bus.regs.core.int_enum_done = true;
    assert_eq!(bus.poll(), PollResult::Reset);
    assert!(!bus.regs.core.int_reset);
    assert!(!bus.regs.core.int_enum_done);
    let a = bus.alloc_ep(UsbDirection::In, None, EndpointType::Bulk, 64, 0);
    assert_eq!(a, Ok(addr(1, UsbDirection::In)));
    assert_eq!(a.unwrap().index(), 1);
    let a = bus.alloc_ep(UsbDirection::Out, None, EndpointType::Bulk, 64, 0);
    assert_eq!(a, Ok(addr(1, UsbDirection::Out)));
}

#[test]
fn end_to_end_out_packet() {
    let mut bus = running_bus();
    bus.regs.rx_status.push(RxStatus { epnum: 1, byte_count: 10, status: 2 });
    bus.regs.rx_fifo.push(0x0403_0201);
    bus.regs.rx_fifo.push(0x0807_0605);
    bus.regs.rx_fifo.push(0x0000_0a09);
    assert_eq!(bus.poll(), PollResult::Data { ep_out: 0b10, ep_in_complete: 0, ep_setup: 0 });
    assert_eq!(bus.regs.rx_status.len(), 1);
    let mut buf = [0u8; 32];
    assert_eq!(bus.read(addr(1, UsbDirection::Out), &mut buf), Ok(10));
    assert_eq!(&buf[..10], &[1, 2, 3, 4, 5, 6, 7, 8, 9, 10]);
    assert!(buf[10..].iter().all(|b| *b == 0));
    assert!(bus.regs.rx_status.is_empty());
    assert!(bus.regs.rx_fifo.is_empty());
}

#[test]
fn allocator_bumps_without_overlap() {
    let mut a = EndpointMemoryAllocator::new(64);
    assert_eq!(a.allocate_rx_buffer(64), Ok(EndpointBuffer { offset: 32, len: 16 }));
    assert_eq!(a.allocate_rx_buffer(62), Ok(EndpointBuffer { offset: 48, len: 16 }));
    assert_eq!(a.allocate_rx_buffer(1), Err(UsbError::EndpointOverflow));
    assert_eq!(a.allocate_rx_buffer(0), Ok(EndpointBuffer { offset: 64, len: 0 }));
}

#[test]
fn allocator_failure_keeps_offset() {
    let mut a = EndpointMemoryAllocator::new(40);
    assert_eq!(a.allocate_rx_buffer(40), Err(UsbError::EndpointOverflow));
    assert_eq!(a.allocate_rx_buffer(32), Ok(EndpointBuffer { offset: 32, len: 8 }));
}

#[test]
fn allocator_pool_smaller_than_fifo() {
    let mut a = EndpointMemoryAllocator::new(16);
    assert_eq!(a.allocate_rx_buffer(0), Err(UsbError::EndpointOverflow));
}

#[test]
fn alloc_ep_out_pool_exhausted() {
    let mut bus = UsbBus::new(UsbRegisters::new(), 48);
    let r = bus.alloc_ep(UsbDirection::Out, None, EndpointType::Bulk, 64, 0);
    assert_eq!(r, Ok(addr(1, UsbDirection::Out)));
    assert_eq!(bus.endpoints_out[1].buffer, Some(EndpointBuffer { offset: 32, len: 16 }));
    let r = bus.alloc_ep(UsbDirection::Out, None, EndpointType::Bulk, 64, 0);
    assert_eq!(r, Err(UsbError::EndpointOverflow));
    assert!(!bus.endpoints_out[2].common.is_initialized());
    assert_eq!(bus.endpoints_out[2].buffer, None);
}

#[test]
fn alloc_ep_explicit_address_taken() {
    let mut bus = control_bus();
    let r = bus.alloc_ep(UsbDirection::In, Some(addr(0, UsbDirection::In)), EndpointType::Control, 64, 0);
    assert_eq!(r, Err(UsbError::InvalidEndpoint));
}

#[test]
fn alloc_ep_nonexistent_or_wrong_direction() {
    let mut bus = control_bus();
    let r = bus.alloc_ep(UsbDirection::In, Some(addr(5, UsbDirection::In)), EndpointType::Bulk, 64, 0);
    assert_eq!(r, Err(UsbError::InvalidEndpoint));
    let r = bus.alloc_ep(UsbDirection::In, Some(addr(2, UsbDirection::Out)), EndpointType::Bulk, 64, 0);
    assert_eq!(r, Err(UsbError::InvalidEndpoint));
    let r = bus.alloc_ep(UsbDirection::In, Some(addr(2, UsbDirection::In)), EndpointType::Bulk, 64, 0);
    assert_eq!(r, Ok(addr(2, UsbDirection::In)));
}

#[test]
fn alloc_ep_lowest_free_then_overflow() {
    let mut bus = control_bus();
    let r = bus.alloc_ep(UsbDirection::In, Some(addr(2, UsbDirection::In)), EndpointType::Interrupt, 8, 0);
    assert_eq!(r, Ok(addr(2, UsbDirection::In)));
    let r = bus.alloc_ep(UsbDirection::In, None, EndpointType::Bulk, 64, 0);
    assert_eq!(r, Ok(addr(1, UsbDirection::In)));
    let r = bus.alloc_ep(UsbDirection::In, None, EndpointType::Bulk, 64, 0);
    assert_eq!(r, Ok(addr(3, UsbDirection::In)));
    let r = bus.alloc_ep(UsbDirection::In, None, EndpointType::Bulk, 64, 0);
    assert_eq!(r, Err(UsbError::EndpointOverflow));
}

#[test]
fn alloc_ep_never_repeats_address() {
    let mut bus = UsbBus::new(UsbRegisters::new(), 256);
    let a = bus.alloc_ep(UsbDirection::Out, None, EndpointType::Bulk, 64, 0).unwrap();
    let b = bus.alloc_ep(UsbDirection::Out, None, EndpointType::Bulk, 64, 0).unwrap();
    assert_ne!(a, b);
    assert_eq!(bus.endpoints_out[1].buffer, Some(EndpointBuffer { offset: 32, len: 16 }));
    assert_eq!(bus.endpoints_out[2].buffer, Some(EndpointBuffer { offset: 48, len: 16 }));
}

#[test]
fn enable_programs_core() {
    let mut bus = control_bus();
    bus.regs.core.int_suspend = true;
    bus.enable();
    let c = bus.regs.core;
    assert!(c.clock_enabled && c.force_device_mode && c.vbus_sensing_disabled);
    assert!(c.transceiver_powered && !c.soft_disconnect && !c.phy_clock_stopped);
    assert_eq!(c.turnaround_time, 6);
    assert_eq!(c.device_speed, 3);
    assert_eq!((c.rx_fifo_words, c.tx0_fifo_start, c.tx0_fifo_depth), (32, 32, 16));
    assert!(c.reset_unmasked && c.enum_done_unmasked && c.suspend_unmasked);
    assert!(c.wakeup_unmasked && c.in_endpoint_unmasked && c.rx_level_unmasked);
    assert!(c.in_xfer_complete_unmasked && c.global_interrupt_enabled);
    assert!(!c.int_suspend);
}

#[test]
fn reset_configures_control_endpoint() {
    let mut bus = control_bus();
    bus.enable();
    bus.set_device_address(17);
    assert_eq!(bus.regs.core.device_address, 17);
    bus.reset();
    assert_eq!(bus.regs.core.device_address, 0);
    let i = bus.regs.ep_in[0];
    assert!(i.active && i.nak && !i.enabled && i.int_unmasked);
    assert_eq!((i.max_packet_code, i.xfer_size, i.packet_count), (0, 64, 0));
    let o = bus.regs.ep_out[0];
    assert!(o.active && o.enabled && !o.nak && o.int_unmasked);
    assert_eq!((o.setup_count, o.packet_count, o.xfer_size), (1, 1, 64));
    assert!(!bus.regs.ep_in[1].active);
}

#[test]
fn control_endpoint_size_codes() {
    for (size, code) in [(8u16, 3u32), (16, 2), (32, 1), (64, 0)] {
        let mut bus = UsbBus::new(UsbRegisters::new(), 256);
        let r = bus.alloc_ep(UsbDirection::In, Some(addr(0, UsbDirection::In)), EndpointType::Control, size, 0);
        assert!(r.is_ok());
        bus.reset();
        assert_eq!(bus.regs.ep_in[0].max_packet_code, code);
    }
}

#[test]
fn write_packs_words() {
    let mut bus = running_bus();
    let r = bus.write(addr(0, UsbDirection::In), &[1, 2, 3, 4, 5]);
    assert_eq!(r, Ok(5));
    assert_eq!(bus.regs.tx_fifos[0], vec![0x0403_0201, 0x0000_0005]);
    let e = bus.regs.ep_in[0];
    assert_eq!((e.xfer_size, e.packet_count), (5, 1));
    assert!(e.enabled && !e.nak);
}

#[test]
fn write_in_flight_would_block() {
    let mut bus = running_bus();
    assert_eq!(bus.write(addr(0, UsbDirection::In), &[9; 8]), Ok(8));
    let before = bus.regs.clone();
    assert_eq!(bus.write(addr(0, UsbDirection::In), &[1, 2]), Err(UsbError::WouldBlock));
    assert_eq!(bus.regs, before);
    assert_eq!((bus.regs.ep_in[0].xfer_size, bus.regs.ep_in[0].packet_count), (8, 1));
}

#[test]
fn write_invalid_endpoints() {
    let mut bus = running_bus();
    assert_eq!(bus.write(addr(0, UsbDirection::Out), &[1]), Err(UsbError::InvalidEndpoint));
    assert_eq!(bus.write(addr(4, UsbDirection::In), &[1]), Err(UsbError::InvalidEndpoint));
    assert_eq!(bus.write(addr(2, UsbDirection::In), &[1]), Err(UsbError::InvalidEndpoint));
}

#[test]
fn read_other_endpoint_would_block() {
    let mut bus = running_bus();
    bus.regs.rx_status.push(RxStatus { epnum: 0, byte_count: 4, status: 2 });
    bus.regs.rx_fifo.push(0x6463_6261);
    let mut buf = [0u8; 8];
    assert_eq!(bus.read(addr(1, UsbDirection::Out), &mut buf), Err(UsbError::WouldBlock));
    assert_eq!(bus.regs.rx_status.len(), 1);
    assert_eq!(buf, [0u8; 8]);
    assert_eq!(bus.read(addr(0, UsbDirection::Out), &mut buf), Ok(4));
    assert_eq!(&buf[..4], b"abcd");
}

#[test]
fn read_short_buffer_overflows() {
    let mut bus = running_bus();
    bus.regs.rx_status.push(RxStatus { epnum: 1, byte_count: 10, status: 2 });
    bus.regs.rx_fifo.extend_from_slice(&[1, 2, 3]);
    let mut small = [0u8; 8];
    assert_eq!(bus.read(addr(1, UsbDirection::Out), &mut small), Err(UsbError::BufferOverflow));
    assert_eq!(bus.regs.rx_status.len(), 1);
    assert_eq!(bus.regs.rx_fifo.len(), 3);
    let mut big = [0u8; 10];
    assert_eq!(bus.read(addr(1, UsbDirection::Out), &mut big), Ok(10));
}

#[test]
fn read_invalid_endpoints() {
    let mut bus = running_bus();
    let mut buf = [0u8; 8];
    assert_eq!(bus.read(addr(0, UsbDirection::In), &mut buf), Err(UsbError::InvalidEndpoint));
    assert_eq!(bus.read(addr(9, UsbDirection::Out), &mut buf), Err(UsbError::InvalidEndpoint));
    assert_eq!(bus.read(addr(3, UsbDirection::Out), &mut buf), Err(UsbError::InvalidEndpoint));
}

#[test]
fn read_empty_queue_would_block() {
    let mut bus = running_bus();
    let mut buf = [0u8; 8];
    assert_eq!(bus.read(addr(1, UsbDirection::Out), &mut buf), Err(UsbError::WouldBlock));
}

#[test]
fn stall_round_trip_and_idempotence() {
    let mut bus = running_bus();
    let a = addr(0, UsbDirection::In);
    bus.set_stalled(a, true);
    assert!(bus.is_stalled(a));
    let before = bus.regs.clone();
    bus.set_stalled(a, true);
    assert_eq!(bus.regs, before);
    bus.set_stalled(a, false);
    assert!(!bus.is_stalled(a));
    let o = addr(1, UsbDirection::Out);
    bus.set_stalled(o, true);
    assert!(bus.is_stalled(o));
    assert!(bus.regs.ep_out[1].stall);
    assert!(!bus.regs.ep_in[1].stall);
}

#[test]
fn stall_ignored_on_uninitialized_or_missing() {
    let mut bus = running_bus();
    let before = bus.regs.clone();
    bus.set_stalled(addr(3, UsbDirection::In), true);
    bus.set_stalled(addr(6, UsbDirection::In), true);
    assert_eq!(bus.regs, before);
    assert!(!bus.is_stalled(addr(3, UsbDirection::In)));
    assert!(bus.is_stalled(addr(6, UsbDirection::In)));
}

#[test]
fn poll_reset_beats_everything() {
    let mut bus = running_bus();
    bus.regs.core.int_reset = true;
    bus.regs.core.int_enum_done = true;
    bus.regs.core.int_wakeup = true;
    assert_eq!(bus.poll(), PollResult::Reset);
    assert!(!bus.regs.core.int_reset && !bus.regs.core.int_enum_done);
    assert!(bus.regs.core.int_wakeup);
    assert_eq!(bus.poll(), PollResult::Resume);
}

#[test]
fn poll_wakeup_before_suspend() {
    let mut bus = running_bus();
    bus.regs.core.int_wakeup = true;
    bus.regs.core.int_suspend = true;
    assert_eq!(bus.poll(), PollResult::Resume);
    assert!(bus.regs.core.int_suspend);
    assert_eq!(bus.poll(), PollResult::Suspend);
    assert_eq!(bus.poll(), PollResult::NoEvent);
}

#[test]
fn poll_bus_reset_deconfigures_and_flushes() {
    let mut bus = running_bus();
    bus.regs.ep_in[1].enabled = true;
    bus.regs.ep_in[0].enabled = true;
    bus.regs.ep_in[0].xfer_complete = true;
    bus.regs.rx_status.push(RxStatus { epnum: 1, byte_count: 4, status: 2 });
    bus.regs.rx_fifo.push(7);
    bus.regs.core.int_reset = true;
    assert_eq!(bus.poll(), PollResult::NoEvent);
    assert!(!bus.regs.core.int_reset);
    assert!(bus.regs.rx_status.is_empty() && bus.regs.rx_fifo.is_empty());
    assert!(!bus.regs.ep_in[0].active && !bus.regs.ep_in[0].disable_requested);
    assert!(bus.regs.ep_in[1].disable_requested);
    assert!(!bus.regs.ep_in[0].xfer_complete && !bus.regs.ep_in[0].int_unmasked);
    assert!(bus.endpoints_in[0].common.is_initialized());
    bus.reset();
    assert!(bus.regs.ep_in[0].active);
}

#[test]
fn poll_setup_flushes_pending_in() {
    let mut bus = running_bus();
    assert_eq!(bus.write(addr(0, UsbDirection::In), &[1, 2, 3]), Ok(3));
    bus.regs.rx_status.push(RxStatus { epnum: 0, byte_count: 8, status: 6 });
    assert_eq!(bus.poll(), PollResult::Data { ep_out: 0, ep_in_complete: 0, ep_setup: 1 });
    assert!(bus.regs.tx_fifos[0].is_empty());
    assert_eq!(bus.regs.rx_status.len(), 1);
}

#[test]
fn poll_setup_keeps_idle_in_fifo() {
    let mut bus = running_bus();
    bus.regs.tx_fifos[0].push(42);
    bus.regs.rx_status.push(RxStatus { epnum: 0, byte_count: 8, status: 6 });
    assert_eq!(bus.poll(), PollResult::Data { ep_out: 0, ep_in_complete: 0, ep_setup: 1 });
    assert_eq!(bus.regs.tx_fifos[0], vec![42]);
}

#[test]
fn poll_completion_rearms_and_pops() {
    let mut bus = running_bus();
    bus.regs.ep_out[0].nak = true;
    bus.regs.ep_out[0].enabled = false;
    bus.regs.rx_status.push(RxStatus { epnum: 0, byte_count: 0, status: 4 });
    bus.regs.rx_status.push(RxStatus { epnum: 1, byte_count: 0, status: 3 });
    assert_eq!(bus.poll(), PollResult::NoEvent);
    assert!(!bus.regs.ep_out[0].nak && bus.regs.ep_out[0].enabled);
    assert_eq!(bus.regs.rx_status.len(), 1);
    assert_eq!(bus.poll(), PollResult::NoEvent);
    assert!(bus.regs.rx_status.is_empty());
}

#[test]
fn poll_unknown_status_popped() {
    let mut bus = running_bus();
    bus.regs.rx_status.push(RxStatus { epnum: 1, byte_count: 0, status: 1 });
    assert_eq!(bus.poll(), PollResult::NoEvent);
    assert!(bus.regs.rx_status.is_empty());
}

#[test]
fn poll_in_complete_reported_once() {
    let mut bus = running_bus();
    let r = bus.alloc_ep(UsbDirection::In, None, EndpointType::Bulk, 64, 0);
    assert_eq!(r, Ok(addr(1, UsbDirection::In)));
    bus.regs.ep_in[0].xfer_complete = true;
    bus.regs.ep_in[1].xfer_complete = true;
    bus.regs.ep_in[2].xfer_complete = true;
    assert_eq!(bus.poll(), PollResult::Data { ep_out: 0, ep_in_complete: 0b11, ep_setup: 0 });
    assert!(!bus.regs.ep_in[0].xfer_complete && !bus.regs.ep_in[1].xfer_complete);
    assert!(bus.regs.ep_in[2].xfer_complete);
    assert_eq!(bus.poll(), PollResult::NoEvent);
}

#[test]
fn poll_out_and_in_together() {
    let mut bus = running_bus();
    bus.regs.ep_in[0].xfer_complete = true;
    bus.regs.rx_status.push(RxStatus { epnum: 1, byte_count: 2, status: 2 });
    assert_eq!(bus.poll(), PollResult::Data { ep_out: 0b10, ep_in_complete: 1, ep_setup: 0 });
}

#[test]
fn fifo_write_pads_last_word() {
    let mut regs = UsbRegisters::new();
    fifo_write(&mut regs, 2, &[0xaa, 0xbb, 0xcc]);
    assert_eq!(regs.tx_fifos[2], vec![0x00cc_bbaa]);
    fifo_write(&mut regs, 2, &[]);
    assert_eq!(regs.tx_fifos[2], vec![0x00cc_bbaa]);
    fifo_write(&mut regs, 2, &[1, 2, 3, 4]);
    assert_eq!(regs.tx_fifos[2], vec![0x00cc_bbaa, 0x0403_0201]);
    assert!(regs.tx_fifos[0].is_empty());
}

#[test]
fn fifo_read_drains_words() {
    let mut regs = UsbRegisters::new();
    regs.rx_fifo = vec![0x4433_2211, 0x0000_6655, 0x99];
    let mut buf = [0xffu8; 8];
    fifo_read(&mut regs, &mut buf, 6);
    assert_eq!(buf, [0x11, 0x22, 0x33, 0x44, 0x55, 0x66, 0xff, 0xff]);
    assert_eq!(regs.rx_fifo, vec![0x99]);
}

#[test]
fn fifo_read_past_end_reads_zero() {
    let mut regs = UsbRegisters::new();
    regs.rx_fifo = vec![0x0302_0100];
    let mut buf = [0xffu8; 6];
    fifo_read(&mut regs, &mut buf, 6);
    assert_eq!(buf, [0, 1, 2, 3, 0, 0]);
    assert!(regs.rx_fifo.is_empty());
}

#[test]
fn address_from_parts_masks_index() {
    let a = EndpointAddress::from_parts(130, UsbDirection::In);
    assert_eq!(a.index(), 2);
    assert!(a.is_in() && !a.is_out());
}
