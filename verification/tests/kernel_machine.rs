use rootware::kernel::boot::{boot_banner, boot_info_address};
use rootware::kernel::gdt::{table as gdt_table, table_pointer as gdt_pointer, GDT_LIMIT};
use rootware::kernel::idt::syscall_registers;
use rootware::kernel::scheduler::receiver_round;
use rootware::kernel::idt::{table, table_pointer, IDT_LIMIT};
use rootware::kernel::capability::CapabilityRegistry;
use rootware::kernel::gdt::Descriptor;
use rootware::kernel::idt::{syscall_handler, IdtEntry, IPC_RECEIVE, IPC_REPLY, IPC_SEND};
use rootware::kernel::ipc::{test_message, Ipc};
use rootware::kernel::memory::{init as scan_boot_info, BootScan, ScanOutcome};
use rootware::kernel::scheduler::Scheduler;
use rootware::kernel::serial::{hex32, SerialPort};
use rootware::kernel::service::{service_abi, UserServiceAbi};
use rootware::kernel::timer::{init as timer_setup, Timer};
use rootware::kernel::vmem::{index, valid_address, PageTables, WRITABLE};

#[test]
fn page_mapping_translates_offsets_and_unmaps() {
    let mut tables = PageTables::new(0x1000, 0x2000, 0x3000);
    tables.init();
    assert_eq!(tables.map_page(0x4000_0000, 0x0020_0000, WRITABLE), Ok(()));
    assert_eq!(tables.translate(0x4000_0000 + 37), Some(0x0020_0000 + 37));
    assert_eq!(tables.translate(0x4000_0fff), Some(0x0020_0fff));
    assert_eq!(tables.translate(0x4000_1000), None);
    assert_eq!(tables.unmap_page(0x4000_0000), Ok(()));
    assert_eq!(tables.translate(0x4000_0000), None);
    tables.test();
    assert_eq!(tables.translate(0x4000_0000), None);
}

#[test]
fn page_mapping_rejects_invalid_addresses() {
    let mut tables = PageTables::new(0x1000, 0x2000, 0x3000);
    assert_eq!(tables.map_page(0x4000_0001, 0x0020_0000, 0), Err(()));
    assert_eq!(tables.map_page(0x4000_0000, 1 << 48, 0), Err(()));
    assert_eq!(tables.unmap_page(0x10), Err(()));
    assert_eq!(tables.translate(1 << 48), None);
    assert!(valid_address(0));
    assert!(!valid_address(4095));
    assert!(valid_address((1 << 48) - 4096));
    assert_eq!(index(0x4000_0000, 30), 1);
    assert_eq!(index(u64::MAX, 12), 511);
}

fn boot_image(tags: &[(u32, u32)], total: u32) -> Vec<u8> {
    let mut image = vec![0u8; 8];
    image[..4].copy_from_slice(&total.to_le_bytes());
    for (typ, size) in tags {
        let start = image.len();
        image.extend_from_slice(&typ.to_le_bytes());
        image.extend_from_slice(&size.to_le_bytes());
        let padded = ((*size as usize) + 7) & !7;
        image.resize(start + padded.max(8), 0);
    }
    image.resize(total as usize, 0);
    image
}

#[test]
fn boot_info_walk_reports_memory_maps_and_end() {
    let image = boot_image(&[(1, 9), (6, 16), (6, 24), (0, 8)], 8 + 16 + 16 + 24 + 8);
    assert_eq!(
        scan_boot_info(0x8000, &image),
        BootScan { memory_maps: 2, outcome: ScanOutcome::Done }
    );
}

#[test]
fn boot_info_walk_rejects_bad_input() {
    let image = boot_image(&[(0, 8)], 16);
    assert_eq!(scan_boot_info(0, &image).outcome, ScanOutcome::InvalidAddress);
    assert_eq!(scan_boot_info(0x8004, &image).outcome, ScanOutcome::InvalidAddress);
    let small = boot_image(&[], 8);
    assert_eq!(scan_boot_info(0x8000, &small).outcome, ScanOutcome::InvalidSize);
    assert_eq!(scan_boot_info(u64::MAX - 7, &image).outcome, ScanOutcome::RangeOverflow);
    let short_tag = boot_image(&[(6, 4)], 24);
    assert_eq!(
        scan_boot_info(0x8000, &short_tag),
        BootScan { memory_maps: 0, outcome: ScanOutcome::InvalidTagSize }
    );
    let long_tag = boot_image(&[(6, 64)], 24);
    assert_eq!(
        scan_boot_info(0x8000, &long_tag[..24]),
        BootScan { memory_maps: 1, outcome: ScanOutcome::InvalidTagRange }
    );
    let no_end = boot_image(&[(6, 16)], 28);
    assert_eq!(
        scan_boot_info(0x8000, &no_end),
        BootScan { memory_maps: 1, outcome: ScanOutcome::MissingEndTag }
    );
}

#[test]
fn idt_entry_splits_handler_address() {
    let entry = IdtEntry::new(0x1234_5678_9abc_def0, 0x08, 0x8E);
    assert_eq!(entry.offset_low, 0xdef0);
    assert_eq!(entry.offset_middle, 0x9abc);
    assert_eq!(entry.offset_high, 0x1234_5678);
    assert_eq!(entry.selector, 0x08);
    assert_eq!(entry.type_attr, 0x8E);
    assert_eq!(entry.ist, 0);
    let missing = IdtEntry::missing();
    assert_eq!(missing.offset_low, 0);
    assert_eq!(missing.type_attr, 0);
}

#[test]
fn gdt_descriptors_have_fixed_values() {
    let null = Descriptor::null();
    assert_eq!(null.access, 0);
    let code = Descriptor::kernel_code();
    assert_eq!((code.limit_low, code.access, code.granularity), (0xFFFF, 0x9A, 0xAF));
    let data = Descriptor::kernel_data();
    assert_eq!((data.limit_low, data.access, data.granularity), (0xFFFF, 0x92, 0xCF));
}

#[test]
fn syscalls_send_receive_and_reply() {
    let mut grants = CapabilityRegistry::new();
    grants.init();
    let mut ipc = Ipc::new();
    let message = test_message();
    assert_eq!(syscall_handler(&mut ipc, &grants, IPC_SEND, 0, 0, None, None).0, -1);
    assert_eq!(syscall_handler(&mut ipc, &grants, IPC_SEND, 0x100, 0, Some(message), None).0, 0);
    assert_eq!(syscall_handler(&mut ipc, &grants, IPC_RECEIVE, 2, 0, None, None).0, -1);
    let (status, written) = syscall_handler(&mut ipc, &grants, IPC_RECEIVE, 2, 0x200, None, None);
    assert_eq!(status, 0);
    assert_eq!(written.unwrap().payload, message.payload);
    assert_eq!(syscall_handler(&mut ipc, &grants, IPC_RECEIVE, 2, 0x200, None, None).0, -4);
    assert_eq!(
        syscall_handler(&mut ipc, &grants, IPC_REPLY, 0x100, 0, Some(message), None).0,
        -1
    );
    let mut anonymous = message;
    anonymous.sender = 0;
    assert_eq!(
        syscall_handler(&mut ipc, &grants, IPC_REPLY, 0x100, 0x200, Some(anonymous), Some([0; 32])).0,
        -1
    );
    assert_eq!(
        syscall_handler(&mut ipc, &grants, IPC_REPLY, 0x100, 0x200, Some(message), Some([9; 32])).0,
        -7
    );
    assert_eq!(syscall_handler(&mut ipc, &grants, 99, 0, 0, None, None).0, -6);
}

#[test]
fn timer_reports_whole_seconds() {
    let mut timer = Timer::new();
    for _ in 0..99 {
        assert_eq!(timer.tick(), None);
    }
    assert_eq!(timer.tick(), Some(1));
    assert_eq!(timer.ticks(), 100);
    let setup = timer_setup(0x10);
    assert_eq!(setup.spurious, 0x1FF);
    assert_eq!(setup.divide, 3);
    assert_eq!(setup.lvt_timer, 0x20020);
    assert_eq!(setup.initial_count, 1_000_000);
}

#[test]
fn hex_digits_of_boot_address() {
    assert_eq!(&hex32(0xdead_beef_0123_abcd), b"0123abcd");
    assert_eq!(&hex32(0), b"00000000");
    let _ = SerialPort::new();
}

#[test]
fn scheduler_round_robin_and_spawn() {
    let mut scheduler = Scheduler::new(0xa000, 0xb000);
    assert_eq!(scheduler.yield_now(), (0, 1));
    assert_eq!(scheduler.yield_now(), (1, 0));
    assert_eq!(scheduler.spawn(0xc000, 0xa000, 0x10_0000), Err(()));
    let frame = scheduler.prepare_context(0, 0x10_0000);
    assert_eq!(frame, [0, 0, 0, 0, 0, 0, 0xa000]);
    let mut spawning = Scheduler::new(0xa000, 0xa000);
    let (id, frame) = spawning.spawn(0xc000, 0xa000, 0x20_0000).unwrap();
    assert_eq!(id, 1);
    assert_eq!(frame, [0, 0, 0, 0, 0, 0, 0xc000]);
}

#[test]
fn first_service_abi_is_version_one() {
    assert_eq!(
        service_abi(),
        UserServiceAbi { abi_version: 1, entry_point: 0, stack_pointer: 0 }
    );
}

#[test]
fn interrupt_table_sets_the_five_gates() {
    let t = table(0x1000, 0x2000, 0x3000, 0x4000, 0x1_2345_6789);
    assert_eq!(t[0], IdtEntry::new(0x1000, 0x08, 0x8E));
    assert_eq!(t[8], IdtEntry::new(0x2000, 0x08, 0x8E));
    assert_eq!(t[14], IdtEntry::new(0x3000, 0x08, 0x8E));
    assert_eq!(t[32], IdtEntry::new(0x4000, 0x08, 0x8E));
    assert_eq!(t[128], IdtEntry::new(0x1_2345_6789, 0x08, 0xEE));
    assert_eq!(t[128].offset_high, 1);
    assert_eq!(t[1], IdtEntry::missing());
    assert_eq!(t[255], IdtEntry::missing());
    let p = table_pointer(0xdead_0000);
    assert_eq!((p.size, p.offset), (IDT_LIMIT, 0xdead_0000));
    assert_eq!(IDT_LIMIT as usize, 256 * 16 - 1);
}

#[test]
fn receiving_task_starts_service_from_third_message() {
    let mut rounds = 0usize;
    assert!(!receiver_round(&mut rounds, false));
    assert_eq!(rounds, 0);
    assert!(!receiver_round(&mut rounds, true));
    assert!(!receiver_round(&mut rounds, true));
    assert!(receiver_round(&mut rounds, true));
    assert!(receiver_round(&mut rounds, true));
    assert_eq!(rounds, 4);
    let mut last = usize::MAX;
    assert!(receiver_round(&mut last, true));
    assert_eq!(last, 0);
}

#[test]
fn syscall_registers_enable_the_entry() {
    let r = syscall_registers(0xffff_8000_0012_3456, 0x500, 7);
    assert_eq!((r.lstar_low, r.lstar_high), (0x0012_3456, 0xffff_8000));
    assert_eq!((r.star_low, r.star_high), (0x0008, 0x000b_0008));
    assert_eq!((r.efer_low, r.efer_high), (0x501, 7));
    assert_eq!(syscall_registers(0, 0x501, 0).efer_low, 0x501);
}

#[test]
fn gdt_table_and_pointer() {
    let t = gdt_table();
    assert_eq!(t, [Descriptor::null(), Descriptor::kernel_code(), Descriptor::kernel_data()]);
    let p = gdt_pointer(0x1234);
    assert_eq!((p.size, p.offset), (GDT_LIMIT, 0x1234));
    assert_eq!(GDT_LIMIT, 23);
}

#[test]
fn boot_entry_hands_on_low_address_and_banner() {
    assert_eq!(boot_info_address(0xdead_beef_0001_0000), 0x0001_0000);
    assert_eq!(boot_banner(0xdead_beef_0001_0a00), b"mb_info low: 0x00010a00\n".to_vec());
}
