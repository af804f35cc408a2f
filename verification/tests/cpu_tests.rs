use chip8::cpu::CPU;
use chip8::display::Display;
use chip8::memory::Memory;

fn get_cpu() -> CPU {
    CPU::initialise(Memory::initialise(), Display::initialise())
}

fn load_new_cpu_with_instruction(op: u16) -> CPU {
    let mut cpu = get_cpu();
    cpu.memory.data[0x200] = ((op & 0xFF00) >> 8) as u8;
    cpu.memory.data[0x201] = (op & 0x00FF) as u8;

    cpu
}

#[test]
fn ret() {
    let mut cpu = load_new_cpu_with_instruction(0x00EE);

    cpu.sp = 1;
    cpu.stack[1] = 0x500;

    let _ = cpu.execute_next_instruction();

    assert_eq!(cpu.sp, 0);
    assert_eq!(cpu.pc, 0x500);
}

#[test]
fn cls() {
    let mut cpu = load_new_cpu_with_instruction(0x00E0);
    cpu.display.screen[3][5] = true;
    cpu.display.screen[31][63] = true;

    assert_eq!(cpu.execute_next_instruction(), Ok(()));

    for row in cpu.display.screen.iter() {
        for pixel in row.iter() {
            assert_eq!(*pixel, false);
        }
    }
    assert_eq!(cpu.pc, 0x202);
}

#[test]
fn jp() {
    let mut cpu = load_new_cpu_with_instruction(0x1666);

    let _ = cpu.execute_next_instruction();

    assert_eq!(cpu.pc, 0x666);
}

#[test]
fn call() {
    let mut cpu = load_new_cpu_with_instruction(0x2666);

    let _ = cpu.execute_next_instruction();

    assert_eq!(cpu.sp, 1);
    assert_eq!(cpu.stack[cpu.sp as usize], 0x202);
    assert_eq!(cpu.pc, 0x666);
}

#[test]
fn se_jumps_when_equal() {
    let mut cpu = load_new_cpu_with_instruction(0x3000);

    let _ = cpu.execute_next_instruction();

    assert_eq!(cpu.pc, 0x204);
}

#[test]
fn se_doesnt_jump_when_not_equal() {
    let mut cpu = load_new_cpu_with_instruction(0x3066);

    let _ = cpu.execute_next_instruction();

    assert_eq!(cpu.pc, 0x202);
}

#[test]
fn sne_jumps_when_not_equal() {
    let mut cpu = load_new_cpu_with_instruction(0x4066);

    let _ = cpu.execute_next_instruction();

    assert_eq!(cpu.pc, 0x204);
}

#[test]
fn sne_doesnt_jump_when_equal() {
    let mut cpu = load_new_cpu_with_instruction(0x4000);

    let _ = cpu.execute_next_instruction();

    assert_eq!(cpu.pc, 0x202);
}

#[test]
fn se_r_jumps_when_equal() {
    let mut cpu = load_new_cpu_with_instruction(0x5000);

    let _ = cpu.execute_next_instruction();

    assert_eq!(cpu.pc, 0x204);
}

#[test]
fn se_r_doesnt_jump_when_not_equal() {
    let mut cpu = load_new_cpu_with_instruction(0x5010);
    cpu.v[1] = 1;

    let _ = cpu.execute_next_instruction();

    assert_eq!(cpu.pc, 0x202);
}

#[test]
fn ld_r() {
    let mut cpu = load_new_cpu_with_instruction(0x6066);

    let _ = cpu.execute_next_instruction();

    assert_eq!(cpu.v[0], 0x66);
}

#[test]
fn add() {
    let mut cpu = load_new_cpu_with_instruction(0x7066);

    cpu.v[0] = 0x10;
    let _ = cpu.execute_next_instruction();

    assert_eq!(cpu.v[0], 0x76);
}

#[test]
fn ld_xy() {
    let mut cpu = load_new_cpu_with_instruction(0x8010);

    cpu.v[1] = 0x10;
    let _ = cpu.execute_next_instruction();

    assert_eq!(cpu.v[0], 0x10);
}

#[test]
fn or_xy() {
    let mut cpu = load_new_cpu_with_instruction(0x8011);
    cpu.v[0] = 0x01;
    cpu.v[1] = 0x10;

    let _ = cpu.execute_next_instruction();

    assert_eq!(cpu.v[0], 0x11);
}

#[test]
fn or_xy_inverse() {
    let mut cpu = load_new_cpu_with_instruction(0x8011);
    cpu.v[0] = 0x11;
    cpu.v[1] = 0x11;

    let _ = cpu.execute_next_instruction();

    assert_eq!(cpu.v[0], 0x11);
}

#[test]
fn and_xy() {
    let mut cpu = load_new_cpu_with_instruction(0x8012);
    cpu.v[0] = 0x01;
    cpu.v[1] = 0x10;

    let _ = cpu.execute_next_instruction();

    assert_eq!(cpu.v[0], 0x00);
}

#[test]
fn xor_xy() {
    let mut cpu = load_new_cpu_with_instruction(0x8013);
    cpu.v[0] = 0x11;
    cpu.v[1] = 0x11;

    let _ = cpu.execute_next_instruction();

    assert_eq!(cpu.v[0], 0x00);
}

#[test]
fn xor_xy_inverse() {
    let mut cpu = load_new_cpu_with_instruction(0x8013);
    cpu.v[0] = 0x01;
    cpu.v[1] = 0x10;

    let _ = cpu.execute_next_instruction();

    assert_eq!(cpu.v[0], 0x11);
}

#[test]
fn add_xy_no_carry() {
    let mut cpu = load_new_cpu_with_instruction(0x8014);
    cpu.v[0] = 0xF0;
    cpu.v[1] = 0x0F;

    let _ = cpu.execute_next_instruction();

    assert_eq!(cpu.v[0], 0xFF);
    assert_eq!(cpu.vf, 0x0);
}

#[test]
fn add_xy_carry() {
    let mut cpu = load_new_cpu_with_instruction(0x8014);
    cpu.v[0] = 0xFF;
    cpu.v[1] = 0x01;

    let _ = cpu.execute_next_instruction();

    assert_eq!(cpu.v[0], 0x0);
    assert_eq!(cpu.vf, 0x1);
}

#[test]
fn shr() {
    let mut cpu = load_new_cpu_with_instruction(0x8006);
    cpu.v[0] = 0x08;

    let _ = cpu.execute_next_instruction();

    assert_eq!(cpu.v[0], 0x4);
}

#[test]
fn shr_vf_set_when_odd() {
    let mut cpu = load_new_cpu_with_instruction(0x8006);
    cpu.v[0] = 0x09;

    let _ = cpu.execute_next_instruction();

    assert_eq!(cpu.v[0], 0x4);
    assert_eq!(cpu.vf, 0x1);
}

#[test]
fn sne_xy_skip_when_not_equal() {
    let mut cpu = load_new_cpu_with_instruction(0x9010);
    cpu.v[0] = 0x08;
    cpu.v[1] = 0x80;

    let _ = cpu.execute_next_instruction();

    assert_eq!(cpu.pc, 0x204);
}

#[test]
fn sne_xy_dont_skip_when_equal() {
    let mut cpu = load_new_cpu_with_instruction(0x9010);
    cpu.v[0] = 0x08;
    cpu.v[1] = 0x08;

    let _ = cpu.execute_next_instruction();

    assert_eq!(cpu.pc, 0x202);
}

#[test]
fn ld_i() {
    let mut cpu = load_new_cpu_with_instruction(0xA666);

    let _ = cpu.execute_next_instruction();

    assert_eq!(cpu.vi, 0x666);
}

#[test]
fn jp_v0() {
    let mut cpu = load_new_cpu_with_instruction(0xB666);
    cpu.v[0] = 0x4;

    let _ = cpu.execute_next_instruction();

    assert_eq!(cpu.pc, 0x66A);
}

#[test]
fn drw() {
    let mut cpu = get_cpu();

    cpu.memory.data[0x600] = 0xFF;
    cpu.vi = 0x600;
    // The corner of the sprite is at column V1, row V1.
    cpu.v[1] = 1;
    assert_eq!(cpu.memory.insert_instruction(0x200, 0xD111), Ok(()));

    let _ = cpu.execute_next_instruction();

    assert_eq!(cpu.display.screen[1][1], true);
    assert_eq!(cpu.display.screen[1][2], true);
    assert_eq!(cpu.display.screen[1][3], true);
    assert_eq!(cpu.display.screen[1][4], true);
    assert_eq!(cpu.display.screen[1][5], true);
    assert_eq!(cpu.display.screen[1][6], true);
    assert_eq!(cpu.display.screen[1][7], true);
    assert_eq!(cpu.display.screen[1][8], true);
}

#[test]
fn add_i() {
    let mut cpu = load_new_cpu_with_instruction(0xF01E);
    cpu.vi = 0x6;
    cpu.v[0] = 0x4;

    let _ = cpu.execute_next_instruction();

    assert_eq!(cpu.vi, 0xA);
}

#[test]
fn ld_b() {
    let mut cpu = load_new_cpu_with_instruction(0xF033);
    cpu.vi = 0x600;
    cpu.v[0] = 123;

    let _ = cpu.execute_next_instruction();

    assert_eq!(cpu.memory.get(0x600), Ok(1));
    assert_eq!(cpu.memory.get(0x601), Ok(2));
    assert_eq!(cpu.memory.get(0x602), Ok(3));
}

#[test]
fn ld_mem_i() {
    let mut cpu = load_new_cpu_with_instruction(0xF455);
    cpu.vi = 0x600;
    cpu.v[0] = 0x1;
    cpu.v[1] = 0x2;
    cpu.v[2] = 0x3;
    cpu.v[3] = 0x4;
    cpu.v[4] = 0x5;

    let _ = cpu.execute_next_instruction();

    assert_eq!(cpu.memory.get(0x600), Ok(0x1));
    assert_eq!(cpu.memory.get(0x601), Ok(0x2));
    assert_eq!(cpu.memory.get(0x602), Ok(0x3));
    assert_eq!(cpu.memory.get(0x603), Ok(0x4));
    assert_eq!(cpu.memory.get(0x604), Ok(0x5));
}
