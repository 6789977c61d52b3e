//! Unit tests for the wire types, the architecture layer, the routing
//! tables, and the helper modules around the kernel.

use kern::abi::{
    dead_response_code, null_region, InterruptNum, InterruptOwner, RegionDesc, Sysnum, TaskDesc,
    TaskId, ULease, FIRST_DEAD_CODE, LEASE_READ, LEASE_WRITE, REGION_DEVICE, REGION_DMA,
    REGION_EXECUTE, REGION_READ, REGION_WRITE, START_AT_BOOT,
};
use kern::aontimer::AonTimer;
use kern::apis::{ExtIntCtrlError, Fan, ResetError, RiscvIntCtrlError};
use kern::arch::{
    apply_memory_protection, disable_irq, enable_irq, reset, Machine, PmpPermission,
};
use kern::interrupts::{get_irq_owner, get_task_irqs, IrqOwnerTable, TaskIrqTable};
use kern::profiling::{
    configure_events_table, event_context_switch, event_isr_enter, event_isr_exit,
    event_syscall_enter, event_timer_isr_enter, EventsTable,
};
use kern::saved_state::SavedState;
use kern::sbi::{
    sbi_get_sbi_version, sbi_get_spec_version, sbi_set_timer, sbi_system_reset, ResetReason,
    ResetType, SBI_EID_BASE, SBI_EID_SYSTEM_RESET, SBI_EID_TIMER,
};
use kern::stringbuf::Stringbuf;
use kern::task::{SchedState, Task, TaskState, TaskTimer};
use kern::taskids::TaskIds;
use kern::header::{compute_image_len, header_bytes, sau_entries, HEADER_MAGIC, SAU_ENTRIES};
use kern::umem::{can_access, USlice, UserRam};

#[test]
fn task_id_packs_index_and_generation() {
    let tid = TaskId::for_index_and_gen(2, 3);
    assert_eq!(tid.0, 2 | (3 << 10));
    assert_eq!(tid.index(), 2);
    assert_eq!(tid.generation(), 3);
}

#[test]
fn dead_code_carries_generation_in_low_byte() {
    let rc = dead_response_code(5);
    assert_eq!(rc, FIRST_DEAD_CODE | 5);
    assert_eq!(rc & 0xff, 5);
}

#[test]
fn sysnum_codes_round_trip() {
    for code in 0..13u32 {
        let s = Sysnum::from_code(code).unwrap();
        assert_eq!(
            Sysnum::from_code(code),
            Some(s),
            "code {} should decode",
            code
        );
    }
    assert_eq!(Sysnum::from_code(13), None);
    assert_eq!(Sysnum::from_code(0), Some(Sysnum::Send));
    assert_eq!(Sysnum::from_code(12), Some(Sysnum::ReplyFault));
}

#[test]
fn lease_constructors_set_attributes() {
    assert_eq!(ULease::read_only(16, 4).attributes, LEASE_READ);
    assert_eq!(
        ULease::read_write(16, 4).attributes,
        LEASE_READ | LEASE_WRITE
    );
    assert_eq!(ULease::write_only(16, 4).attributes, LEASE_WRITE);
    assert_eq!(ULease::read_only(16, 4).base_address, 16);
    assert_eq!(ULease::read_only(16, 4).length, 4);
}

#[test]
fn saved_state_maps_args_and_rets() {
    let mut s = SavedState::default();
    assert_eq!(s.sp(), 0);
    s.set_sp(0x100);
    s.set_pc(0x200);
    assert_eq!(s.sp(), 0x100);
    assert_eq!(s.pc(), 0x200);
    assert_eq!(s.stack_pointer(), 0x100);
    s.ret0(1);
    s.ret1(2);
    s.ret5(6);
    assert_eq!(s.arg0(), 1);
    assert_eq!(s.arg1(), 2);
    assert_eq!(s.arg5(), 6);
    s.a7 = 9;
    assert_eq!(s.arg7(), 9);
    assert_eq!(s.syscall_descriptor(), 9);
}

fn plain_task(regions: Vec<RegionDesc>) -> Task {
    Task {
        save: SavedState::default(),
        descriptor: TaskDesc {
            entry_point: 0,
            initial_stack: 0,
            priority: 1,
            flags: 0,
            index: 0,
        },
        state: TaskState::Healthy(SchedState::Stopped),
        timer: TaskTimer {
            deadline: None,
            to_post: 0,
        },
        notifications_posted: 0,
        notifications_enabled: 0,
        generation: 0,
        region_table: regions,
        queue_stamp: 0,
    }
}

#[test]
fn uslice_construction_and_emptiness() {
    let s = USlice::from_raw(0x1000, 8);
    assert_eq!(s.base, 0x1000);
    assert_eq!(s.len, 8);
    assert!(!s.is_empty());
    assert!(USlice::from_raw(0x1000, 0).is_empty());
}

#[test]
fn region_check_needs_single_covering_region() {
    let regions = vec![
        RegionDesc {
            base: 0x1000,
            size: 0x100,
            attributes: REGION_READ,
        },
        RegionDesc {
            base: 0x1100,
            size: 0x100,
            attributes: REGION_READ | REGION_WRITE,
        },
    ];
    // Fully inside the first region, read only.
    assert!(can_access(
        &regions,
        USlice { base: 0x1010, len: 8 },
        REGION_READ
    ));
    assert!(!can_access(
        &regions,
        USlice { base: 0x1010, len: 8 },
        REGION_WRITE
    ));
    // Straddling the two regions fails even though both are readable.
    assert!(!can_access(
        &regions,
        USlice {
            base: 0x10f0,
            len: 0x20
        },
        REGION_READ
    ));
    // The empty slice is always fine.
    assert!(can_access(&regions, USlice { base: 0, len: 0 }, REGION_WRITE));
    // Device and DMA attributes are carried but grant no data access by
    // themselves.
    let dev = vec![RegionDesc {
        base: 0x5000_0000,
        size: 0x100,
        attributes: REGION_DEVICE | REGION_DMA,
    }];
    assert!(!can_access(
        &dev,
        USlice {
            base: 0x5000_0000,
            len: 4
        },
        REGION_READ
    ));
}

#[test]
fn pmp_translation_emits_tor_pairs() {
    let t = plain_task(vec![
        null_region(),
        RegionDesc {
            base: 0x2000,
            size: 0x1000,
            attributes: REGION_READ | REGION_WRITE,
        },
        RegionDesc {
            base: 0x8000,
            size: 0x1000,
            attributes: REGION_READ | REGION_EXECUTE,
        },
    ]);
    let entries = apply_memory_protection(&t);
    // All eight slots are written: three region pairs, then disabled
    // null-region pairs for the five unused slots.
    assert_eq!(entries.len(), 16);
    // The null region maps to a disabled pair.
    assert!(!entries[0].tor);
    assert!(!entries[1].tor);
    assert_eq!(entries[1].permission, PmpPermission::NoAccess);
    // A real region: base entry disabled, limit entry top-of-range.
    assert!(!entries[2].tor);
    assert_eq!(entries[2].address, 0x2000);
    assert!(entries[3].tor);
    assert_eq!(entries[3].permission, PmpPermission::RW);
    assert_eq!(entries[3].address, 0x3000);
    assert_eq!(entries[5].permission, PmpPermission::RX);
    // An unused slot is a disabled pair bounding the null region.
    assert!(!entries[6].tor);
    assert!(!entries[7].tor);
    assert_eq!(entries[7].permission, PmpPermission::NoAccess);
    assert_eq!(entries[6].address, 0);
    assert_eq!(entries[7].address, 0x20);
    assert_eq!(entries[15].index, 15);
}

#[test]
fn mie_bits_toggle_per_line() {
    let mut m = Machine::at_reset();
    enable_irq(&mut m, 3);
    enable_irq(&mut m, 7);
    assert_eq!(m.mie, (1 << 3) | (1 << 7));
    disable_irq(&mut m, 3);
    assert_eq!(m.mie, 1 << 7);
}

#[test]
fn reset_targets_the_test_device() {
    let r = reset();
    assert_eq!(r.address, 0x0010_0000);
    assert_eq!(r.value, 0x0000_7777);
}

#[test]
fn ram_copy_and_paint() {
    let mut ram = UserRam::new(0x100, 64);
    ram.write_bytes(0x110, &b"abc".to_vec());
    assert_eq!(ram.read_bytes(0x110, 3), b"abc".to_vec());
    assert_eq!(ram.read_u32(0x110), 0x00636261);
    ram.paint(0x120, 0x128);
    assert_eq!(
        ram.read_bytes(0x120, 8),
        vec![0xfe, 0xca, 0xdd, 0xba, 0xfe, 0xca, 0xdd, 0xba]
    );
}

#[test]
fn irq_tables_route_and_reverse() {
    let owner = InterruptOwner {
        task: 4,
        notification: 0b1000,
    };
    let map = IrqOwnerTable::build(16, &vec![(InterruptNum(9), owner)]).unwrap();
    assert_eq!(get_irq_owner(&map, 9), Ok(owner));
    assert_eq!(get_irq_owner(&map, 10), Err(()));
    assert!(map.contains(InterruptNum(9)));
    assert!(!map.contains(InterruptNum(25)));

    let rev = TaskIrqTable::build(16, vec![(owner, vec![InterruptNum(9)])]).unwrap();
    assert_eq!(get_task_irqs(&rev, owner).unwrap(), &vec![InterruptNum(9)]);
    assert!(get_task_irqs(
        &rev,
        InterruptOwner {
            task: 1,
            notification: 1
        }
    )
    .is_err());
}

#[test]
fn irq_table_set_replaces_owner() {
    let owner = InterruptOwner {
        task: 4,
        notification: 0b1000,
    };
    let mut map = IrqOwnerTable::build(16, &vec![(InterruptNum(9), owner)]).unwrap();
    let newer = InterruptOwner {
        task: 5,
        notification: 0b1000,
    };
    assert_eq!(map.set(InterruptNum(9), newer), Ok(()));
    assert_eq!(get_irq_owner(&map, 9), Ok(newer));
    assert_eq!(map.set(InterruptNum(10), newer), Err(()));
}

#[test]
fn stringbuf_wraps_around() {
    let mut b = Stringbuf::new(3);
    b.entry(1);
    b.entry(2);
    b.entry(3);
    assert_eq!(b.buffer, vec![1, 2, 3]);
    assert_eq!(b.last, Some(2));
    b.entry(4);
    assert_eq!(b.buffer, vec![4, 2, 3]);
    assert_eq!(b.last, Some(0));
    b.write_str("xy");
    assert_eq!(b.buffer, vec![4, 120, 121]);
}

#[test]
fn task_ids_resolve_names() {
    let ids = TaskIds::from_names(vec![
        "jefe".to_string(),
        "rtc".to_string(),
        "idle".to_string(),
    ]);
    assert_eq!(ids.get(&"rtc".to_string()), Some(1));
    assert_eq!(ids.get(&"nope".to_string()), None);
    let resolved = ids
        .names_to_ids(&vec!["idle".to_string(), "jefe".to_string()])
        .unwrap();
    assert_eq!(resolved, vec![2, 0]);
    assert_eq!(
        ids.names_to_ids(&vec!["ghost".to_string()]),
        Err(kern::taskids::TaskIdsError::UnknownTask("ghost".to_string()))
    );

    let remapped = ids
        .remap_allowed_caller_names_to_ids(&vec![(
            "set_time".to_string(),
            vec!["jefe".to_string(), "idle".to_string()],
        )])
        .unwrap();
    assert_eq!(remapped.len(), 1);
    assert_eq!(remapped[0].0, "set_time".to_string());
    assert_eq!(remapped[0].1, vec![0, 2]);
}

#[test]
fn aontimer_thresholds_and_lock() {
    // 200 kHz clock: one millisecond is 200 counts.
    let mut t = AonTimer::new(200_000, 2000, 5000).unwrap();
    assert_eq!(t.wdog_bark_thold, 400_000);
    assert_eq!(t.wdog_bite_thold, 1_000_000);
    assert_eq!(t.wdog_count, 0);
    assert_eq!(t.intr_state, 0b11);

    assert_eq!(t.enable(), Ok(()));
    assert_eq!(t.wdog_ctrl & 1, 1);
    t.wdog_count = 77;
    t.feed_sacrifice();
    assert_eq!(t.wdog_count, 0);
    t.intr_state = 0;
    t.clear_wdt_irq();
    assert_eq!(t.intr_state, 0b10);

    assert_eq!(t.enable_and_lock(), Ok(()));
    // Once locked, configuration writes fail.
    assert_eq!(t.set_bark_thold(1000), Err(()));
    assert_eq!(t.disable(), Err(()));

    // A bark past the bite is rejected outright.
    assert!(AonTimer::new(200_000, 6000, 5000).is_err());
    // A threshold beyond the 32-bit register is rejected.
    assert!(AonTimer::new(200_000, 1 << 40, 1 << 41).is_err());
}

#[test]
fn profiling_counts_only_when_enabled() {
    let mut t = EventsTable::new();
    event_isr_enter(&mut t);
    assert_eq!(t.isr_enter, 0);
    configure_events_table(&mut t);
    event_isr_enter(&mut t);
    event_isr_exit(&mut t);
    event_syscall_enter(&mut t, 3);
    event_timer_isr_enter(&mut t);
    event_context_switch(&mut t, 0x1000);
    assert_eq!(t.isr_enter, 1);
    assert_eq!(t.isr_exit, 1);
    assert_eq!(t.syscall_enter, 1);
    assert_eq!(t.timer_isr_enter, 1);
    assert_eq!(t.context_switch, 1);
}

#[test]
fn sbi_calls_carry_identifiers() {
    assert_eq!(sbi_get_spec_version().eid, SBI_EID_BASE);
    assert_eq!(sbi_get_spec_version().fid, 0);
    assert_eq!(sbi_get_sbi_version().fid, 2);
    let c = sbi_set_timer(0x1234);
    assert_eq!(c.eid, SBI_EID_TIMER);
    assert_eq!(c.arg0, 0x1234);
    let r = sbi_system_reset(ResetType::ColdReboot, ResetReason::SystemFailure);
    assert_eq!(r.eid, SBI_EID_SYSTEM_RESET);
    assert_eq!(r.arg0, 1);
    assert_eq!(r.arg1, 1);
}

#[test]
fn api_error_codes_start_at_one() {
    assert_eq!(ExtIntCtrlError::IRQUnassigned.code(), 1);
    assert_eq!(RiscvIntCtrlError::IRQUnassigned.code(), 1);
    assert_eq!(RiscvIntCtrlError::UnknownErr.code(), 2);
    assert_eq!(ResetError::NotImplemented.code(), 1);
    assert_eq!(Fan::from_index(3), Fan(3));
}

#[test]
fn kernel_boot_rejects_bad_configurations() {
    let ram = || UserRam::new(0x4000_0000, 0x1000);
    let region = RegionDesc {
        base: 0x4000_0000,
        size: 0x1000,
        attributes: REGION_READ | REGION_WRITE,
    };
    let desc = |index: u16, priority: u8, flags: u32| TaskDesc {
        entry_point: 0,
        initial_stack: 0x4000_0100,
        priority,
        flags,
        index,
    };
    let tables = || {
        (
            IrqOwnerTable::build(4, &vec![]).unwrap(),
            TaskIrqTable::build(4, vec![]).unwrap(),
        )
    };

    // A good configuration boots: a supervisor and a flagged idle task
    // alone at the largest priority value.
    let (im, tm) = tables();
    assert!(kern::kernel::Kernel::new(
        vec![desc(0, 0, 0), desc(1, 1, START_AT_BOOT)],
        vec![vec![region], vec![region]],
        ram(),
        im,
        tm
    )
    .is_ok());

    // An empty task table does not.
    let (im, tm) = tables();
    assert!(kern::kernel::Kernel::new(vec![], vec![], ram(), im, tm).is_err());

    // A supervisor at nonzero priority does not.
    let (im, tm) = tables();
    assert!(kern::kernel::Kernel::new(
        vec![desc(0, 1, 0), desc(1, 2, START_AT_BOOT)],
        vec![vec![region], vec![region]],
        ram(),
        im,
        tm
    )
    .is_err());

    // A misaligned stack top does not.
    let (im, tm) = tables();
    let mut bad = desc(0, 0, 0);
    bad.initial_stack = 0x4000_0104 + 4;
    assert!(kern::kernel::Kernel::new(
        vec![bad, desc(1, 1, START_AT_BOOT)],
        vec![vec![region], vec![region]],
        ram(),
        im,
        tm
    )
    .is_err());

    // A write-only region has no protection encoding.
    let (im, tm) = tables();
    let wo = RegionDesc {
        base: 0x4000_0000,
        size: 0x1000,
        attributes: REGION_WRITE,
    };
    assert!(kern::kernel::Kernel::new(
        vec![desc(0, 0, 0), desc(1, 1, START_AT_BOOT)],
        vec![vec![wo], vec![region]],
        ram(),
        im,
        tm
    )
    .is_err());

    // Two tasks sharing the largest priority value leave no unique idle
    // task.
    let (im, tm) = tables();
    assert!(kern::kernel::Kernel::new(
        vec![desc(0, 0, 0), desc(1, 3, START_AT_BOOT), desc(2, 3, START_AT_BOOT)],
        vec![vec![region], vec![region], vec![region]],
        ram(),
        im,
        tm
    )
    .is_err());

    // An idle task not flagged to start at boot is rejected too.
    let (im, tm) = tables();
    assert!(kern::kernel::Kernel::new(
        vec![desc(0, 0, 0), desc(1, 1, 0)],
        vec![vec![region], vec![region]],
        ram(),
        im,
        tm
    )
    .is_err());
}

#[test]
fn boot_paints_the_stack() {
    let ram = UserRam::new(0x4000_0000, 0x100);
    let region = RegionDesc {
        base: 0x4000_0000,
        size: 0x100,
        attributes: REGION_READ | REGION_WRITE,
    };
    let k = kern::kernel::Kernel::new(
        vec![
            TaskDesc {
                entry_point: 0x2000_0000,
                initial_stack: 0x4000_0010,
                priority: 0,
                flags: 0,
                index: 0,
            },
            TaskDesc {
                entry_point: 0x2000_1000,
                initial_stack: 0x4000_0020,
                priority: 1,
                flags: START_AT_BOOT,
                index: 1,
            },
        ],
        vec![vec![region], vec![region]],
        ram,
        IrqOwnerTable::build(4, &vec![]).unwrap(),
        TaskIrqTable::build(4, vec![]).unwrap(),
    )
    .unwrap();
    // The word below each stack top carries the sentinel pattern.
    assert_eq!(
        k.ram.read_bytes(0x4000_000c, 4),
        vec![0xfe, 0xca, 0xdd, 0xba]
    );
    assert_eq!(
        k.ram.read_bytes(0x4000_001c, 4),
        vec![0xfe, 0xca, 0xdd, 0xba]
    );
    // Beyond the highest stack top the RAM is untouched.
    assert_eq!(k.ram.read_bytes(0x4000_0020, 4), vec![0, 0, 0, 0]);
    assert_eq!(k.tasks[0].save.sp, 0x4000_0010);
    assert_eq!(k.tasks[0].save.pc, 0x2000_0000);
}

#[test]
fn image_header_layout() {
    // Two plain ranges become two non-secure entries plus the fixed
    // peripheral entry.
    let map = vec![(0x0000_0000u32, 0x0004_0000u32), (0x2000_0000, 0x2001_0000)];
    let entries = sau_entries(&map, None);
    assert_eq!(entries.len(), 3);
    assert_eq!(entries[0].rbar, 0);
    assert_eq!(entries[0].rlar, (0x0003_ffff & !0x1f) | 1);
    assert_eq!(entries[1].rbar, 0x2000_0000);
    assert_eq!(entries[1].rlar, (0x2000_ffff & !0x1f) | 1);
    assert_eq!(entries[2].rbar, 0x4000_0000);
    assert_eq!(entries[2].rlar, 0x4fff_ffe0 | 1);

    // A secure task splits its flash range into three entries, the last
    // of them callable.
    let secure = Some(((0x0002_0000u32, 0x0003_0000u32), (0x0002_f000u32, 0x0003_0000u32)));
    let entries = sau_entries(&vec![(0x0000_0000, 0x0004_0000)], secure);
    assert_eq!(entries.len(), 4);
    assert_eq!(entries[0].rbar, 0);
    assert_eq!(entries[0].rlar, (0x0001_ffff & !0x1f) | 1);
    assert_eq!(entries[1].rbar, 0x0003_0000);
    assert_eq!(entries[1].rlar, (0x0003_ffff & !0x1f) | 1);
    assert_eq!(entries[2].rbar, 0x0002_f000);
    assert_eq!(entries[2].rlar, (0x0002_ffff & !0x1f) | 3);

    // The image length is measured from the flash start to the highest
    // section end inside the window.
    let len = compute_image_len(
        &vec![(0x100, 0x40), (0x300, 0x20), (0x9000, 0x10)],
        0x80,
        0x1000,
    );
    assert_eq!(len, 0x320 - 0x80);

    // The packed header is 48 bytes, magic first, all little endian.
    let mut five = sau_entries(&map, None);
    five.push(kern::header::SauEntry { rbar: 0, rlar: 0 });
    five.push(kern::header::SauEntry { rbar: 0, rlar: 0 });
    assert_eq!(five.len(), SAU_ENTRIES);
    let bytes = header_bytes(0x1234, &five);
    assert_eq!(bytes.len(), 48);
    assert_eq!(
        u32::from_le_bytes([bytes[0], bytes[1], bytes[2], bytes[3]]),
        HEADER_MAGIC
    );
    assert_eq!(
        u32::from_le_bytes([bytes[4], bytes[5], bytes[6], bytes[7]]),
        0x1234
    );
    assert_eq!(
        u32::from_le_bytes([bytes[8], bytes[9], bytes[10], bytes[11]]),
        five[0].rbar
    );
    assert_eq!(
        u32::from_le_bytes([bytes[44], bytes[45], bytes[46], bytes[47]]),
        five[4].rlar
    );
}

#[test]
fn boot_rejects_routing_tables_that_disagree() {
    let region = RegionDesc {
        base: 0x4000_0000,
        size: 0x1000,
        attributes: REGION_READ | REGION_WRITE,
    };
    let descs = vec![
        TaskDesc {
            entry_point: 0,
            initial_stack: 0x4000_0100,
            priority: 0,
            flags: 0,
            index: 0,
        },
        TaskDesc {
            entry_point: 0,
            initial_stack: 0x4000_0100,
            priority: 1,
            flags: START_AT_BOOT,
            index: 1,
        },
    ];
    let owner = InterruptOwner {
        task: 1,
        notification: 0b10,
    };
    // The reverse table claims line 9 for the owner, but the forward table
    // routes nothing: the tables are not mutual inverses.
    let fwd = IrqOwnerTable::build(8, &vec![]).unwrap();
    let rev = TaskIrqTable::build(8, vec![(owner, vec![InterruptNum(9)])]).unwrap();
    assert!(kern::kernel::Kernel::new(
        descs.clone(),
        vec![vec![region], vec![region]],
        UserRam::new(0x4000_0000, 0x1000),
        fwd,
        rev
    )
    .is_err());

    // With the forward route present the same configuration boots.
    let fwd = IrqOwnerTable::build(8, &vec![(InterruptNum(9), owner)]).unwrap();
    let rev = TaskIrqTable::build(8, vec![(owner, vec![InterruptNum(9)])]).unwrap();
    assert!(kern::kernel::Kernel::new(
        descs,
        vec![vec![region], vec![region]],
        UserRam::new(0x4000_0000, 0x1000),
        fwd,
        rev
    )
    .is_ok());
}
