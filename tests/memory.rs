use syscore::memory::{default_buffer, Memory, HEAP_BASE, SIZE, STACK_TOP};

#[test]
fn fresh_memory_is_zero() {
    let m = Memory::new();
    assert_eq!(m.buffer.len(), SIZE);
    assert!(m.buffer.iter().all(|b| *b == 0));
    assert_eq!(m.heap_ptr, 0x5000);
    assert_eq!(default_buffer().len(), 1024 * 1024);
    assert_eq!(Memory::default().heap_ptr, HEAP_BASE);
}

#[test]
fn bytes_round_trip_and_bounds() {
    let mut m = Memory::new();
    m.write8(10, 0xab);
    assert_eq!(m.read8(10), 0xab);
    m.write8(SIZE, 1);
    assert_eq!(m.read8(SIZE), 0);
}

#[test]
fn words_are_little_endian() {
    let mut m = Memory::new();
    m.write32(0, 0x01020304);
    assert_eq!(&m.buffer[0..4], &[4, 3, 2, 1]);
    assert_eq!(m.read32(0), 0x01020304);
    m.write32(4, -1);
    assert_eq!(m.read32(4), -1);
    m.write32(8, i32::MIN);
    assert_eq!(m.read32(8), i32::MIN);
}

#[test]
fn words_past_the_end_are_dropped() {
    let mut m = Memory::new();
    m.write32(SIZE - 3, 7);
    assert!(m.buffer[SIZE - 3..].iter().all(|b| *b == 0));
    assert_eq!(m.read32(SIZE - 3), 0);
    m.write32(SIZE - 4, 7);
    assert_eq!(m.read32(SIZE - 4), 7);
}

#[test]
fn strings_are_zero_terminated() {
    let mut m = Memory::new();
    m.write8(205, 0x41);
    m.write_string(200, "hello");
    assert_eq!(m.buffer[205], 0);
    assert_eq!(m.read_string(200), "hello");
    assert_eq!(m.read_string(202), "llo");
}

#[test]
fn long_strings_are_cut() {
    let mut m = Memory::new();
    let long = "x".repeat(1500);
    m.write_string(0, &long);
    assert_eq!(m.read_string(0).len(), 1001);
}

#[test]
fn string_at_the_end_of_memory() {
    let mut m = Memory::new();
    m.write_string(SIZE - 2, "abc");
    assert_eq!(m.read_string(SIZE - 2), "ab");
}

#[test]
fn malloc_bumps_the_heap() {
    let mut m = Memory::new();
    assert_eq!(m.malloc(16), Ok(HEAP_BASE));
    assert_eq!(m.malloc(8), Ok(HEAP_BASE + 16));
    assert_eq!(m.get_usage(), 24);
}

#[test]
fn malloc_into_the_stack_fails() {
    let mut m = Memory::new();
    assert_eq!(m.malloc(STACK_TOP - HEAP_BASE), Err("Out of Memory (Heap Collision)".to_string()));
    assert_eq!(m.heap_ptr, STACK_TOP);
}

#[test]
fn reset_clears_everything() {
    let mut m = Memory::new();
    m.write32(100, 5);
    m.malloc(64).unwrap();
    m.reset();
    assert_eq!(m.read32(100), 0);
    assert_eq!(m.get_usage(), 0);
}

#[test]
fn string_ending_at_the_last_address() {
    let mut m = Memory::new();
    m.write_string(SIZE - 1, "q");
    assert_eq!(m.buffer[SIZE - 1], b'q');
}
