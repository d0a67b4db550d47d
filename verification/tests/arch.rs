use tarnos::arch::gdt::{double_fault_stack_slot_base, double_fault_stack_top, init_bsp, TssWords};
use tarnos::arch::idt::{
    breakpoint_handler, describe_fault, describe_stack_addr, double_fault_handler,
    kernel_fault_report, Fault, KernelContext,
};
use tarnos::arch::interrupts::{init, initial_masks, unmask_irq4, PortWrite, Ticks};
use tarnos::arch::lapic::{
    arm_timer_this_core, broadcast_panic_halt, calibration_finish, calibration_setup, eoi,
    init_this_core, send_ipi, test_ipi_handler, this_lapic_id, Calibration, CalibrationStep,
    RegWrite, TEST_IPI_VECTOR,
};
use tarnos::arch::pci::{
    bar_raw_offset, enable_mmio_and_bus_master, mmio_bar_address, read_u16, read_u8, write_u16,
    CapabilityWalk, PciAddress, PciScan, ScanStep, CAPABILITIES_OFFSET,
};
use tarnos::arch::percpu::{
    assign_slot, core_index, is_booted, new_table, read_own_apic_id, slot, MAX_CORES,
};
use tarnos::arch::smp::{
    bring_up_aps, bring_up_bsp_only, idle_stack_slot_base, idle_stack_top, keep_waiting,
    TIMEOUT_SPINS,
};

fn text(chars: Vec<char>) -> String {
    chars.into_iter().collect()
}

fn tss() -> [TssWords; MAX_CORES] {
    let mut words = [TssWords { low: 0, high: 0 }; MAX_CORES];
    for (core, w) in words.iter_mut().enumerate() {
        w.low = 0x0000_8900_0000_0067 + core as u64;
        w.high = 0xffff_9000 + core as u64;
    }
    words
}

#[test]
fn the_descriptor_table_is_laid_out_for_system_calls() {
    let words = tss();
    let (gdt, selectors) = init_bsp(&words);
    assert_eq!(selectors.kernel_code, 8);
    assert_eq!(selectors.kernel_data, 16);
    assert_eq!(selectors.user_data, 27);
    assert_eq!(selectors.user_code, 35);
    assert_eq!(selectors.tss, [40, 56, 72, 88, 104, 120, 136, 152]);
    let entries: Vec<u64> = gdt.entries().iter().map(|e| e.raw()).collect();
    assert_eq!(entries.len(), 21);
    assert_eq!(
        &entries[..5],
        &[
            0,
            0x00af_9b00_0000_ffff,
            0x00cf_9300_0000_ffff,
            0x00cf_f300_0000_ffff,
            0x00af_fb00_0000_ffff,
        ]
    );
    assert_eq!(entries[5], words[0].low);
    assert_eq!(entries[6], words[0].high);
    assert_eq!(entries[19], words[7].low);
    assert_eq!(entries[20], words[7].high);
}

#[test]
fn a_task_state_of_ring_three_shows_in_its_selector() {
    let mut words = tss();
    words[1].low = 3 << 45;
    let (_, selectors) = init_bsp(&words);
    assert_eq!(selectors.tss[1], 56 + 3);
}

#[test]
fn fault_stacks_lie_above_their_guard() {
    assert_eq!(double_fault_stack_slot_base(0), 0xffff_9400_0000_0000);
    assert_eq!(double_fault_stack_slot_base(1), 0xffff_9400_0000_6000);
    let plan = double_fault_stack_top(1);
    assert_eq!(plan.pages.len(), 5);
    assert_eq!(plan.pages[0], 0xffff_9400_0000_7000);
    assert_eq!(plan.pages[4], 0xffff_9400_0000_b000);
    assert_eq!(plan.top, 0xffff_9400_0000_c000);
    assert!(plan.top <= double_fault_stack_slot_base(2));
}

#[test]
fn idle_stacks_lie_above_their_guard() {
    assert_eq!(idle_stack_slot_base(2), 0xffff_9600_0000_a000);
    let plan = idle_stack_top(0);
    assert_eq!(
        plan.pages,
        vec![
            0xffff_9600_0000_1000,
            0xffff_9600_0000_2000,
            0xffff_9600_0000_3000,
            0xffff_9600_0000_4000,
        ]
    );
    assert_eq!(plan.top, 0xffff_9600_0000_5000);
}

#[test]
fn reported_cores_get_slots_in_order() {
    let up = bring_up_aps(4, &vec![0, 4, 2, 9]);
    assert_eq!(up.starts, vec![0, 2, 3]);
    assert!(!up.ignored);
    assert_eq!(up.table[0].lapic_id, 4);
    assert!(up.table[0].ready);
    assert_eq!(up.table[1].lapic_id, 0);
    assert!(!up.table[1].ready);
    assert_eq!(up.table[2].lapic_id, 2);
    assert_eq!(up.table[3].lapic_id, 9);
    assert!(!is_booted(&up.table, 4));
    assert_eq!(core_index(&up.table, 9), 3);
}

#[test]
fn cores_beyond_the_table_are_ignored() {
    let up = bring_up_aps(0, &(0..12).collect());
    assert_eq!(up.starts, vec![1, 2, 3, 4, 5, 6, 7]);
    assert!(up.ignored);
    assert_eq!(up.table[7].lapic_id, 7);
}

#[test]
fn a_lone_core_registers_itself() {
    let table = bring_up_bsp_only(0x0500_0000);
    assert_eq!(table[0].lapic_id, 5);
    assert!(table[0].ready);
    assert_eq!(core_index(&table, 5), 0);
    assert_eq!(read_own_apic_id(0xAB12_3456), 0xAB);
}

#[test]
fn waiting_for_a_core_is_bounded() {
    assert!(keep_waiting(false, 0));
    assert!(keep_waiting(false, TIMEOUT_SPINS));
    assert!(!keep_waiting(false, TIMEOUT_SPINS + 1));
    assert!(!keep_waiting(true, 0));
}

#[test]
fn slots_are_found_by_their_id() {
    let mut table = new_table();
    assert!(!is_booted(&table, 0));
    assign_slot(&mut table, 3, 77);
    assert!(is_booted(&table, 3));
    assert_eq!(slot(&table, 3).lapic_id(), 77);
    assert_eq!(core_index(&table, 77), 3);
}

#[test]
fn interrupts_are_sent_to_one_core() {
    assert_eq!(
        send_ipi(3, TEST_IPI_VECTOR),
        vec![
            RegWrite {
                reg: 0x310,
                value: 0x0300_0000
            },
            RegWrite {
                reg: 0x300,
                value: 0x4041
            },
        ]
    );
    assert_ne!(send_ipi(1, 0x42), send_ipi(2, 0x42));
    assert_eq!(
        init_this_core(),
        RegWrite {
            reg: 0xF0,
            value: 0x1FF
        }
    );
    assert_eq!(
        eoi(),
        RegWrite {
            reg: 0xB0,
            value: 0
        }
    );
    assert_eq!(this_lapic_id(0x0700_0001), 7);
}

#[test]
fn a_test_interrupt_counts_on_its_core_only() {
    let mut table = bring_up_aps(0, &vec![0, 1, 2]).table;
    table[1].ready = true;
    table[2].ready = true;
    test_ipi_handler(&mut table, 1);
    assert_eq!(table[1].ipi_count, 1);
    assert_eq!(table[0].ipi_count, 0);
    assert_eq!(table[2].ipi_count, 0);
    assert_eq!(tarnos::boot::ipi_verdict(&table, 1), "IPI_OK");
    assert_eq!(tarnos::boot::ipi_verdict(&table, 2), "IPI_FAIL");
    assert_eq!(broadcast_panic_halt(&table, 1), vec![0, 2]);
}

#[test]
fn the_timer_is_measured_over_a_whole_tick() {
    assert_eq!(calibration_setup().len(), 2);
    let mut c = Calibration::calibrate_against_pit(10);
    assert_eq!(c.advance(10), CalibrationStep::Wait);
    assert_eq!(
        c.advance(11),
        CalibrationStep::Write(RegWrite {
            reg: 0x380,
            value: u32::MAX
        })
    );
    assert_eq!(c.advance(11), CalibrationStep::Wait);
    assert_eq!(c.advance(11), CalibrationStep::Wait);
    assert_eq!(c.advance(12), CalibrationStep::Read);
    let (elapsed, stop) = calibration_finish(u32::MAX - 62_500);
    assert_eq!(elapsed, 62_500);
    assert_eq!(
        stop,
        RegWrite {
            reg: 0x380,
            value: 0
        }
    );
    let writes = arm_timer_this_core(elapsed);
    assert_eq!(
        writes[1],
        RegWrite {
            reg: 0x320,
            value: 0x2_0043
        }
    );
    assert_eq!(
        writes[2],
        RegWrite {
            reg: 0x380,
            value: 62_500
        }
    );
}

#[test]
fn the_legacy_timer_runs_at_a_hundred_hertz() {
    assert_eq!(
        init(),
        vec![
            PortWrite {
                port: 0x43,
                value: 0x34
            },
            PortWrite {
                port: 0x40,
                value: 0x9B
            },
            PortWrite {
                port: 0x40,
                value: 0x2E
            },
        ]
    );
    assert_eq!(initial_masks(), (0xFE, 0xFF));
    assert_eq!(unmask_irq4(0xFE, 0xFF), (0xEE, 0xFF));
    assert_eq!(unmask_irq4(0xEE, 0x12), (0xEE, 0x12));
}

#[test]
fn a_heartbeat_comes_once_a_second() {
    let mut ticks = Ticks::new();
    let mut lines: Vec<String> = Vec::new();
    for _ in 0..250 {
        if let Some(line) = ticks.on_timer_tick_bookkeeping() {
            lines.push(text(line));
        }
    }
    assert_eq!(ticks.ticks(), 250);
    assert_eq!(lines, vec!["[timer] 100 ticks", "[timer] 200 ticks"]);
}

#[test]
fn addresses_are_described_by_their_stack() {
    assert_eq!(
        text(describe_stack_addr(0xffff_9800_0000_1000)),
        "kernel-stack slot 0 (offset 0x0 from its own base)"
    );
    assert_eq!(
        text(describe_stack_addr(0xffff_9800_0000_5000 + 0x1abc)),
        "kernel-stack slot 1 (offset 0xabc from its own base)"
    );
    // The guard page belongs to no stack.
    assert_eq!(
        text(describe_stack_addr(0xffff_9800_0000_5000)),
        "outside any kernel stack"
    );
    assert_eq!(text(describe_stack_addr(0)), "outside any kernel stack");
    assert_eq!(text(describe_stack_addr(u64::MAX)), "outside any kernel stack");
}

#[test]
fn kernel_faults_are_reported() {
    let at = KernelContext {
        core: 2,
        current: 0x1_0000_0003,
        rsp: 0xffff_9800_0000_4ff8,
    };
    assert_eq!(
        text(kernel_fault_report(Fault::DivideError { rip: 0x1234 }, at)),
        "divide error at 0x1234"
    );
    assert_eq!(
        text(kernel_fault_report(Fault::InvalidOpcode { rip: 0 }, at)),
        "invalid opcode at 0x0"
    );
    assert_eq!(
        text(kernel_fault_report(
            Fault::GeneralProtection {
                error_code: 0x18,
                rip: 0xabc
            },
            at
        )),
        "general protection fault (error code 0x18) at 0xabc -- core 2 was running raw pid \
         0x100000003; the faulting rip is outside any kernel stack; rsp (0xffff980000004ff8) is \
         kernel-stack slot 0 (offset 0x3ff8 from its own base)"
    );
    assert_eq!(
        text(kernel_fault_report(
            Fault::Page {
                address: 0x2000,
                error_code: 6,
                rip: 0x10
            },
            at
        )),
        "page fault accessing 0x2000 (error PageFaultErrorCode(CAUSED_BY_WRITE | USER_MODE)) at \
         0x10 -- core 2 was running raw pid 0x100000003; the faulting address is outside any \
         kernel stack; rsp (0xffff980000004ff8) is kernel-stack slot 0 (offset 0x3ff8 from its \
         own base)"
    );
    assert_eq!(
        text(describe_fault(
            Fault::Page {
                address: 1,
                error_code: 2,
                rip: 3
            },
            "why"
        )),
        "page fault accessing 0x1 (error why) at 0x3"
    );
}

#[test]
fn double_faults_name_the_stack_only_where_there_is_one() {
    let at = KernelContext {
        core: 0,
        current: 0,
        rsp: 0,
    };
    assert_eq!(
        text(double_fault_handler(0, 0x10, at)),
        "DOUBLE FAULT (error code 0x0) at 0x10 -- core 0 was running raw pid 0x0"
    );
    assert_eq!(
        text(double_fault_handler(1, 0xffff_9800_0000_1010, at)),
        "DOUBLE FAULT (error code 0x1) at 0xffff980000001010 -- core 0 was running raw pid 0x0; \
         the faulting rip is kernel-stack slot 0 (offset 0x10 from its own base)"
    );
    assert_eq!(
        text(breakpoint_handler(0x4004)),
        "[int3] breakpoint at 0x4004"
    );
}

#[test]
fn configuration_words_are_taken_apart() {
    let a = PciAddress {
        bus: 1,
        device: 2,
        function: 3,
    };
    assert_eq!(a.config_address(0x10), 0x8001_1310);
    assert_eq!(read_u16(0xAABB_CCDD, 0), 0xCCDD);
    assert_eq!(read_u16(0xAABB_CCDD, 2), 0xAABB);
    assert_eq!(read_u8(0xAABB_CCDD, 0), 0xDD);
    assert_eq!(read_u8(0xAABB_CCDD, 2), 0xBB);
    assert_eq!(write_u16(0xAABB_CCDD, 2, 0x1122), 0x1122_CCDD);
    assert_eq!(write_u16(0xAABB_CCDD, 4, 0x1122), 0xAABB_1122);
    assert_eq!(bar_raw_offset(4), 0x20);
    assert_eq!(mmio_bar_address(0xFEB0_0004, 0x12), 0x12_FEB0_0000);
    assert_eq!(mmio_bar_address(0xFEB0_0000, 0x12), 0xFEB0_0000);
    assert_eq!(mmio_bar_address(0xFEBD_4000, 0xFE00_000C), 0xFEBD_4000);
    assert_eq!(mmio_bar_address(0xFE00_000C, 8), 0x8_FE00_0000);
    assert_eq!(enable_mmio_and_bus_master(0x0101), 0x0107);
}

fn scan(vendor: u16, device: u16) -> Option<PciAddress> {
    // Two devices: one at 0:3.0, and one with several functions at 1:0, the
    // last of which is the wanted one.
    let read = |selector: u32| -> u32 {
        let place = (selector >> 8) & 0xFF_FFFF & !0x80_0000;
        let offset = selector & 0xFF;
        match (place, offset) {
            (0x0018, 0x00) => 0x1111_1AF4,
            (0x0018, 0x0C) => 0x0000_0000,
            (0x0100, 0x00) => 0x2222_8086,
            (0x0100, 0x0C) => 0x0080_0000,
            (0x0105, 0x00) => 0x1042_1AF4,
            _ => 0xFFFF_FFFF,
        }
    };
    let mut at = PciScan::new(vendor, device);
    loop {
        match at.advance(read(at.wanted())) {
            ScanStep::Continue(next) => at = next,
            ScanStep::Found(found) => return Some(found.address),
            ScanStep::Exhausted => return None,
        }
    }
}

#[test]
fn a_device_is_found_by_its_identity() {
    assert_eq!(
        scan(0x1AF4, 0x1042),
        Some(PciAddress {
            bus: 1,
            device: 0,
            function: 5
        })
    );
    assert_eq!(
        scan(0x1AF4, 0x1111),
        Some(PciAddress {
            bus: 0,
            device: 3,
            function: 0
        })
    );
    assert_eq!(scan(0x1234, 0x5678), None);
}

fn capabilities(space: &[u8; 256]) -> Vec<u8> {
    let mut seen = Vec::new();
    let mut walk = CapabilityWalk::new(space[CAPABILITIES_OFFSET as usize]);
    while let Some(offset) = walk.at {
        seen.push(offset);
        walk.advance(space[offset as usize + 1]);
    }
    seen
}

#[test]
fn capability_lists_are_walked_to_their_end() {
    let mut space = [0u8; 256];
    assert_eq!(capabilities(&space), Vec::<u8>::new());
    space[0x34] = 0x43;
    space[0x41] = 0x84;
    space[0x85] = 0xFC;
    space[0xFD] = 0x3C;
    assert_eq!(capabilities(&space), vec![0x40, 0x84, 0xFC]);
    space[0xFD] = 0x40;
    assert_eq!(capabilities(&space).len(), 48);
}

#[test]
fn a_core_that_is_reported_twice_is_started_at_both_places() {
    let up = bring_up_aps(0, &vec![5, 0, 5]);
    assert_eq!(up.starts, vec![0, 2]);
    assert_eq!((up.table[1].lapic_id, up.table[2].lapic_id), (5, 5));
}
