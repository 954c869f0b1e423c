use batch_kernel::addr::VirtAddr;
use batch_kernel::keyboard::{output_buffer_full, scancode_to_char, KeyPress, KeyboardState};
use batch_kernel::memory::{user_memory_pages, BootInfoFrameAllocator, MemoryRegion};
use batch_kernel::simple_syscall::{handle_syscall, SyscallAction, SYSCALL_EXIT, SYSCALL_PRINT};

#[test]
fn scancodes_of_letters_digits_and_controls() {
    assert_eq!(scancode_to_char(0x1E), Some('a'));
    assert_eq!(scancode_to_char(0x10), Some('q'));
    assert_eq!(scancode_to_char(0x02), Some('1'));
    assert_eq!(scancode_to_char(0x0B), Some('0'));
    assert_eq!(scancode_to_char(0x01), Some(27 as char));
    assert_eq!(scancode_to_char(0x0E), Some('\u{0008}'));
    assert_eq!(scancode_to_char(0x1C), Some('\n'));
    assert_eq!(scancode_to_char(0x39), Some(' '));
    assert_eq!(scancode_to_char(0x2B), Some('\\'));
}

#[test]
fn scancodes_without_character() {
    assert_eq!(scancode_to_char(0x00), None);
    assert_eq!(scancode_to_char(0x1D), None);
    assert_eq!(scancode_to_char(0x2A), None);
    assert_eq!(scancode_to_char(0x3A), None);
    assert_eq!(scancode_to_char(0x9E), None);
    assert_eq!(scancode_to_char(0xFF), None);
}

#[test]
fn distinct_keys_give_distinct_characters() {
    let mut seen: Vec<char> = Vec::new();
    for code in 0u8..=255 {
        if let Some(c) = scancode_to_char(code) {
            assert!(c.is_ascii());
            assert!(!seen.contains(&c));
            seen.push(c);
        }
    }
    assert_eq!(seen.len(), 52);
}

#[test]
fn status_bit_zero_means_data() {
    assert!(output_buffer_full(0x01));
    assert!(output_buffer_full(0x1D));
    assert!(!output_buffer_full(0x1C));
    assert!(!output_buffer_full(0x00));
}

#[test]
fn keyboard_reports_new_codes_once() {
    let mut kb = KeyboardState::new();
    assert_eq!(kb.process_scancode(0x1E), Some(KeyPress { scancode: 0x1E, key: Some('a') }));
    assert_eq!(kb.process_scancode(0x1E), None);
    assert_eq!(kb.process_scancode(0x9E), Some(KeyPress { scancode: 0x9E, key: None }));
    assert_eq!(kb.process_scancode(0x1E), Some(KeyPress { scancode: 0x1E, key: Some('a') }));
}

#[test]
fn keyboard_ignores_controller_codes() {
    let mut kb = KeyboardState::new();
    for code in [0x00u8, 0xa0, 0xaa, 0xee, 0xfa] {
        assert_eq!(kb.process_scancode(code), None);
    }
    assert_eq!(kb.process_scancode(0x10), Some(KeyPress { scancode: 0x10, key: Some('q') }));
    assert_eq!(kb.process_scancode(0xfa), None);
    assert_eq!(kb.process_scancode(0x10), None);
}

#[test]
fn syscall_print() {
    let r = handle_syscall(SYSCALL_PRINT, 0x1000, 13, 0);
    assert_eq!(r.action, SyscallAction::PrintUserBuffer { ptr: 0x1000, len: 13 });
    assert_eq!(r.result, 0);
}

#[test]
fn syscall_print_of_nothing() {
    let null = handle_syscall(SYSCALL_PRINT, 0, 13, 0);
    assert_eq!(null.action, SyscallAction::Ignore);
    assert_eq!(null.result, 0);
    let empty = handle_syscall(SYSCALL_PRINT, 0x1000, 0, 0);
    assert_eq!(empty.action, SyscallAction::Ignore);
    assert_eq!(empty.result, 0);
}

#[test]
fn syscall_exit_returns_code() {
    let r = handle_syscall(SYSCALL_EXIT, 42, 7, 9);
    assert_eq!(r.action, SyscallAction::Exit { code: 42 });
    assert_eq!(r.result, 42);
}

#[test]
fn syscall_unknown() {
    let r = handle_syscall(99, 1, 2, 3);
    assert_eq!(r.action, SyscallAction::Unknown { number: 99 });
    assert_eq!(r.result, u64::MAX);
}

#[test]
fn virt_addr_sign_extends_bit_47() {
    assert_eq!(VirtAddr::new(0x0000_8000_0000_0000).as_u64(), 0xffff_8000_0000_0000);
    assert_eq!(VirtAddr::new(0x0000_7fff_ffff_ffff).as_u64(), 0x0000_7fff_ffff_ffff);
    assert_eq!(VirtAddr::new(0xffff_8000_0000_1234).as_u64(), 0xffff_8000_0000_1234);
    assert!(VirtAddr::try_new(0x0001_0000_0000_0000).is_none());
    assert!(VirtAddr::try_new(0x1234_0000_0000_0000).is_none());
    assert_eq!(VirtAddr::try_new(0x400000).map(|a| a.as_u64()), Some(0x400000));
}

#[test]
fn frames_in_order_then_none() {
    let map = vec![
        MemoryRegion { start_addr: 0x0, end_addr: 0x1000, usable: false },
        MemoryRegion { start_addr: 0x1000, end_addr: 0x3000, usable: true },
        MemoryRegion { start_addr: 0x3000, end_addr: 0x5000, usable: false },
        MemoryRegion { start_addr: 0x5000, end_addr: 0x6000, usable: true },
    ];
    let mut alloc = BootInfoFrameAllocator::init(map);
    assert_eq!(alloc.allocate_frame(), Some(0x1000));
    assert_eq!(alloc.allocate_frame(), Some(0x2000));
    assert_eq!(alloc.allocate_frame(), Some(0x5000));
    assert_eq!(alloc.allocate_frame(), None);
    assert_eq!(alloc.allocate_frame(), None);
}

#[test]
fn frame_of_unaligned_region_start_is_aligned_down() {
    let map = vec![MemoryRegion { start_addr: 0x1234, end_addr: 0x3000, usable: true }];
    let mut alloc = BootInfoFrameAllocator::init(map);
    assert_eq!(alloc.allocate_frame(), Some(0x1000));
    assert_eq!(alloc.allocate_frame(), Some(0x2000));
    assert_eq!(alloc.allocate_frame(), None);
}

#[test]
fn empty_memory_map_has_no_frames() {
    let mut alloc = BootInfoFrameAllocator::init(Vec::new());
    assert_eq!(alloc.allocate_frame(), None);
}

#[test]
fn user_pages_round_size_up() {
    let start = VirtAddr::new(0x400123);
    let pages = user_memory_pages(start, 8193);
    let addrs: Vec<u64> = pages.iter().map(|p| p.as_u64()).collect();
    assert_eq!(addrs, vec![0x400000, 0x401000, 0x402000]);
    assert!(user_memory_pages(start, 0).is_empty());
    assert_eq!(user_memory_pages(VirtAddr::new(0x800000), 4096).len(), 1);
}

#[test]
fn user_pages_cover_unaligned_area() {
    let pages = user_memory_pages(VirtAddr::new(0x400fff), 2);
    let addrs: Vec<u64> = pages.iter().map(|p| p.as_u64()).collect();
    assert_eq!(addrs, vec![0x400000, 0x401000]);
    let one = user_memory_pages(VirtAddr::new(0x400fff), 1);
    assert_eq!(one.len(), 1);
    let pages = user_memory_pages(VirtAddr::new(0x400001), 4096);
    assert_eq!(pages.len(), 2);
}

#[test]
fn allocator_counts_requests() {
    let map = vec![MemoryRegion { start_addr: 0x1000, end_addr: 0x2000, usable: true }];
    let mut alloc = BootInfoFrameAllocator::init(map);
    assert_eq!(alloc.requests(), 0);
    assert_eq!(alloc.allocate_frame(), Some(0x1000));
    assert_eq!(alloc.allocate_frame(), None);
    assert_eq!(alloc.requests(), 2);
}
