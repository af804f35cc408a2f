use chip8::fault::Fault;
use chip8::memory::{Memory, GLYPHS, MAX_MEM, PROGRAM_START_OFFSET};

#[test]
fn new_memory_is_zero() {
    let memory = Memory::initialise();
    assert_eq!(memory.data.len(), 4096);
    assert!(memory.data.iter().all(|b| *b == 0));
}

#[test]
fn get_reads_program_memory_only() {
    let mut memory = Memory::initialise();
    memory.data[0x1FF] = 1;
    memory.data[0x200] = 2;
    memory.data[0xFFF] = 3;
    assert_eq!(memory.get(0x0), Err(Fault::OutOfBounds));
    assert_eq!(memory.get(0x1FF), Err(Fault::OutOfBounds));
    assert_eq!(memory.get(0x200), Ok(2));
    assert_eq!(memory.get(0xFFF), Ok(3));
    assert_eq!(memory.get(0x1000), Err(Fault::OutOfBounds));
    assert_eq!(memory.get(usize::MAX), Err(Fault::OutOfBounds));
}

#[test]
fn write_reaches_the_whole_address_space() {
    let mut memory = Memory::initialise();
    assert_eq!(memory.write(0x0, 0x11), Ok(()));
    assert_eq!(memory.write(0x1FF, 0x22), Ok(()));
    assert_eq!(memory.write(0x200, 0x33), Ok(()));
    assert_eq!(memory.write(0xFFF, 0x44), Ok(()));
    assert_eq!(memory.data[0x0], 0x11);
    assert_eq!(memory.data[0x1FF], 0x22);
    assert_eq!(memory.data[0x200], 0x33);
    assert_eq!(memory.data[0xFFF], 0x44);
    assert_eq!(memory.data.iter().filter(|b| **b != 0).count(), 4);
}

#[test]
fn write_beyond_the_address_space_is_refused() {
    let mut memory = Memory::initialise();
    assert_eq!(memory.write(0x1000, 0x55), Err(Fault::OutOfBounds));
    assert_eq!(memory.write(usize::MAX, 0x55), Err(Fault::OutOfBounds));
    assert!(memory.data.iter().all(|b| *b == 0));
}

#[test]
fn instruction_is_stored_high_byte_first() {
    let mut memory = Memory::initialise();
    assert_eq!(memory.insert_instruction(0x200, 0xABCD), Ok(()));
    assert_eq!(memory.data[0x200], 0xAB);
    assert_eq!(memory.data[0x201], 0xCD);
    assert_eq!(memory.insert_instruction(0xFFE, 0x1234), Ok(()));
    assert_eq!(memory.data[0xFFE], 0x12);
    assert_eq!(memory.data[0xFFF], 0x34);
}

#[test]
fn instruction_that_does_not_fit_is_refused() {
    let mut memory = Memory::initialise();
    assert_eq!(memory.insert_instruction(0xFFF, 0xABCD), Err(Fault::OutOfBounds));
    assert_eq!(memory.insert_instruction(0x1000, 0xABCD), Err(Fault::OutOfBounds));
    assert_eq!(memory.insert_instruction(usize::MAX, 0xABCD), Err(Fault::OutOfBounds));
    assert!(memory.data.iter().all(|b| *b == 0));
}

#[test]
fn program_is_loaded_at_the_program_start() {
    let memory = Memory::load(&[0x60, 0x08, 0x80, 0x06]);
    assert_eq!(PROGRAM_START_OFFSET, 0x200);
    assert_eq!(memory.data[0x1FF], 0);
    assert_eq!(memory.data[0x200], 0x60);
    assert_eq!(memory.data[0x201], 0x08);
    assert_eq!(memory.data[0x202], 0x80);
    assert_eq!(memory.data[0x203], 0x06);
    assert_eq!(memory.data[0x204], 0);
    assert_eq!(memory.data.iter().filter(|b| **b != 0).count(), 4);
}

#[test]
fn empty_program_leaves_memory_zero() {
    let memory = Memory::load(&[]);
    assert!(memory.data.iter().all(|b| *b == 0));
}

#[test]
fn program_that_fills_memory_exactly_is_loaded_whole() {
    let image = vec![0x5A; MAX_MEM - PROGRAM_START_OFFSET];
    let memory = Memory::load(&image);
    assert!(memory.data[..0x200].iter().all(|b| *b == 0));
    assert!(memory.data[0x200..].iter().all(|b| *b == 0x5A));
}

#[test]
fn program_larger_than_memory_is_cut_off() {
    let mut image = vec![0u8; 5000];
    for (i, byte) in image.iter_mut().enumerate() {
        *byte = (i % 251) as u8 + 1;
    }
    let memory = Memory::load(&image);
    assert!(memory.data[..0x200].iter().all(|b| *b == 0));
    for a in 0x200..0x1000 {
        assert_eq!(memory.data[a], image[a - 0x200]);
    }
}

#[test]
fn digit_sprites_are_installed_sixteen_bytes_apart() {
    let mut memory = Memory::initialise();
    memory.setup_digit_sprites();
    assert_eq!(&memory.data[0x00..0x05], &[0xF0, 0x90, 0x90, 0x90, 0xF0]);
    assert_eq!(&memory.data[0x10..0x15], &[0x20, 0x60, 0x20, 0x20, 0x70]);
    assert_eq!(&memory.data[0x70..0x75], &[0xF0, 0x10, 0x20, 0x40, 0x40]);
    assert_eq!(&memory.data[0xA0..0xA5], &[0xF0, 0x90, 0xF0, 0x90, 0x90]);
    assert_eq!(&memory.data[0xF0..0xF5], &[0xF0, 0x80, 0xF0, 0x80, 0x80]);
    for d in 0..16 {
        for r in 0..5 {
            assert_eq!(memory.data[d * 0x10 + r], GLYPHS[d][r]);
            assert_eq!(GLYPHS[d][r] & 0x0F, 0);
        }
        for r in 5..16 {
            assert_eq!(memory.data[d * 0x10 + r], 0);
        }
    }
    assert!(memory.data[0x100..].iter().all(|b| *b == 0));
}

#[test]
fn digit_sprites_leave_the_rest_of_memory_alone() {
    let mut memory = Memory::load(&[1, 2, 3]);
    memory.data[0x05] = 0x77;
    memory.data[0xFF] = 0x88;
    memory.data[0x00] = 0x99;
    memory.setup_digit_sprites();
    assert_eq!(memory.data[0x00], 0xF0);
    assert_eq!(memory.data[0x05], 0x77);
    assert_eq!(memory.data[0xFF], 0x88);
    assert_eq!(&memory.data[0x200..0x203], &[1, 2, 3]);
}
