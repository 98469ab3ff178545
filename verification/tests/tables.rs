use tm_os::fs::{files, find_file, get_file, list_files};
use tm_os::gdt::{DOUBLE_FAULT_IST_INDEX, STACK_SIZE};
use tm_os::interrupts::{
    init, Handler, InterruptIndex, Recovery, VectorEntry, PIC_1_OFFSET, PIC_2_OFFSET,
};
use tm_os::memory::{is_valid_map, BootInfoFrameAllocator, MemoryRegion};
use tm_os::paging::{identity_map_range, Mapping};
use tm_os::vga_buffer::{Writer, BUFFER_WIDTH};

fn region(start: u64, end: u64, usable: bool) -> MemoryRegion {
    MemoryRegion { start_frame_number: start, end_frame_number: end, usable }
}

#[test]
fn the_file_table_has_two_files() {
    let table = files();
    assert_eq!(table.len(), 2);
    assert_eq!(table[0].name, "readme.txt");
    assert_eq!(table[0].content, "Tm_Os v0.11\nEmbedded RamFS is active!");
    assert_eq!(table[1].name, "hello.rs");
    assert_eq!(table[1].content, "fn main() {\n    println!(\"Hello from RamFS!\");\n}");
}

#[test]
fn get_file_finds_a_file_by_its_exact_name() {
    let file = get_file("readme.txt").expect("the readme");
    assert_eq!(file.content, "Tm_Os v0.11\nEmbedded RamFS is active!");
    let file = get_file("hello.rs").expect("the program");
    assert_eq!(file.name, "hello.rs");
    assert!(get_file("").is_none());
    assert!(get_file("readme").is_none());
    assert!(get_file("README.TXT").is_none());
    assert!(get_file("readme.txt ").is_none());
    let name: Vec<char> = "hello.rs".chars().collect();
    assert_eq!(find_file(&name).expect("the program").name, "hello.rs");
    assert!(find_file(&name[..7]).is_none());
}

#[test]
fn list_files_writes_the_names_on_one_line() {
    let mut writer = Writer::new();
    list_files(&mut writer);
    let line: String =
        (0..BUFFER_WIDTH).map(|col| writer.cell(23, col).ascii_character as char).collect();
    assert_eq!(line.trim_end_matches(' '), "Files: readme.txt  hello.rs");
    assert_eq!(&line[..29], "Files: readme.txt  hello.rs  ");
    assert_eq!(writer.column_position(), 0);
}

#[test]
fn hardware_lines_are_remapped_above_the_exceptions() {
    assert_eq!(PIC_1_OFFSET, 32);
    assert_eq!(PIC_2_OFFSET, 40);
    assert_eq!(InterruptIndex::Timer.as_u8(), 32);
    assert_eq!(InterruptIndex::Keyboard.as_u8(), 33);
}

#[test]
fn the_vector_table_binds_five_handlers() {
    let table = init();
    let mut bound = Vec::new();
    for vector in 0..=255u8 {
        if let Some(entry) = table.entry(vector) {
            bound.push((vector, entry));
        }
    }
    assert_eq!(
        bound,
        vec![
            (3, VectorEntry { handler: Handler::Breakpoint, stack_index: None }),
            (8, VectorEntry { handler: Handler::DoubleFault, stack_index: Some(0) }),
            (14, VectorEntry { handler: Handler::PageFault, stack_index: None }),
            (32, VectorEntry { handler: Handler::Timer, stack_index: None }),
            (33, VectorEntry { handler: Handler::Keyboard, stack_index: None }),
        ]
    );
    assert_eq!(DOUBLE_FAULT_IST_INDEX, 0);
    assert_eq!(STACK_SIZE, 20480);
}

#[test]
fn only_the_two_faults_halt_the_core() {
    assert_eq!(Handler::Breakpoint.after(), Recovery::Resume);
    assert_eq!(Handler::DoubleFault.after(), Recovery::Halt);
    assert_eq!(Handler::PageFault.after(), Recovery::Halt);
    assert_eq!(Handler::Timer.after(), Recovery::Resume);
    assert_eq!(Handler::Keyboard.after(), Recovery::Resume);
}

#[test]
fn frames_are_handed_out_in_order_from_usable_regions_only() {
    let map = vec![
        region(0, 1, false),
        region(1, 3, true),
        region(3, 3, true),
        region(3, 10, false),
        region(16, 18, true),
        region(20, 19, true),
    ];
    assert!(is_valid_map(&map));
    let mut allocator = BootInfoFrameAllocator::init(map);
    assert_eq!(allocator.allocate_frame(), Some(0x1000));
    assert_eq!(allocator.allocate_frame(), Some(0x2000));
    assert_eq!(allocator.allocate_frame(), Some(0x10000));
    allocator.deallocate_frame(0x1000);
    assert_eq!(allocator.allocate_frame(), Some(0x11000));
    assert_eq!(allocator.allocate_frame(), None);
    assert_eq!(allocator.allocate_frame(), None);
}

#[test]
fn an_empty_map_has_no_frame() {
    let mut allocator = BootInfoFrameAllocator::init(Vec::new());
    assert_eq!(allocator.allocate_frame(), None);
}

#[test]
fn memory_maps_are_checked() {
    assert!(is_valid_map(&vec![region(0, 0x100_0000_0000, true)]));
    assert!(!is_valid_map(&vec![region(0, 0x100_0000_0001, true)]));
    assert!(!is_valid_map(&vec![region(0, 0, true)]));
    assert!(region(5, 1, false).is_valid());
    assert!(!region(5, 0, false).is_valid());
    assert!(is_valid_map(&vec![region(5, 0, false)]));
    assert!(is_valid_map(&vec![region(0, 0x100_0000_0001, false), region(1, 2, true)]));
    assert!(!is_valid_map(&vec![region(0x100_0000_0001, 1, true)]));
    assert!(is_valid_map(&vec![region(0, 1, true); 64]));
    assert!(!is_valid_map(&vec![region(0, 1, true); 65]));
}

#[test]
fn the_last_frame_of_a_large_region() {
    let mut allocator =
        BootInfoFrameAllocator::init(vec![region(0x100_0000_0000 - 2, 0x100_0000_0000, true)]);
    assert_eq!(allocator.allocate_frame(), Some(0xf_ffff_ffff_e000));
    assert_eq!(allocator.allocate_frame(), Some(0xf_ffff_ffff_f000));
    assert_eq!(allocator.allocate_frame(), None);
}

#[test]
fn identity_mapping_covers_every_page_of_the_range() {
    let mut range = identity_map_range(0x1800, 0x4001);
    let mut pages = Vec::new();
    while let Some(mapping) = range.next_mapping() {
        assert_eq!(mapping, Mapping { page: mapping.page, frame: mapping.page, flags: 3 });
        pages.push(mapping.page);
    }
    assert_eq!(pages, vec![0x1000, 0x2000, 0x3000, 0x4000]);
    assert!(range.next_mapping().is_none());
}

#[test]
fn identity_mapping_of_short_and_empty_ranges() {
    let mut range = identity_map_range(0x2000, 0x3000);
    assert_eq!(range.next_mapping().map(|m| m.page), Some(0x2000));
    assert!(range.next_mapping().is_none());

    let mut range = identity_map_range(0, 1);
    assert_eq!(range.next_mapping(), Some(Mapping { page: 0, frame: 0, flags: 3 }));
    assert!(range.next_mapping().is_none());

    let mut range = identity_map_range(0x5000, 0x5000);
    assert!(range.next_mapping().is_none());

    let mut range = identity_map_range(0x9000, 0x1000);
    assert!(range.next_mapping().is_none());

    let mut range = identity_map_range(0x7fff_ffff_f000, 0x8000_0000_0000);
    assert_eq!(range.next_mapping().map(|m| m.page), Some(0x7fff_ffff_f000));
    assert!(range.next_mapping().is_none());
}

#[test]
fn regions_that_are_not_usable_are_passed_over_whatever_their_bounds() {
    let map = vec![region(9, 0, false), region(4, 5, true), region(u64::MAX, u64::MAX, false)];
    assert!(is_valid_map(&map));
    let mut allocator = BootInfoFrameAllocator::init(map);
    assert_eq!(allocator.allocate_frame(), Some(0x4000));
    assert_eq!(allocator.allocate_frame(), None);
}
