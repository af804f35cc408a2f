//! The execution engine: registers, program counter, call stack and timers,
//! and the fetch-decode-execute cycle over memory and display.

use rand::Rng;
use vstd::prelude::*;
use crate::display::{blank_screen, Display};
use crate::fault::Fault;
use crate::machine::{
    after_fetch, bcd_stored, call_spec, can_fetch, cycle_halts, cycle_passes, drw_spec,
    execute_spec, fetched_word, flag_of, is_run, is_trace, ops_8_spec, ops_f_spec, regs_stored,
    ret_spec, rnd_spec, sprite_rows, step_spec, Machine, FLAG_REGISTER, REGISTER_COUNT,
    STACK_DEPTH, STACK_SLOTS,
};
use crate::memory::{Memory, MAX_MEM, PROGRAM_START_OFFSET};
use crate::opcode::{word_kk, word_n, word_nnn, word_x, word_y, OpCode};

verus! {

/// The machine: memory, display, and the engine's own state.
#[derive(Debug)]
pub struct CPU {
    pub memory: Memory,
    pub display: Display,
    /// The general purpose registers V0 to VE.
    pub v: [u8; 15],
    /// The flag register, VF.
    pub vf: u8,
    /// The address register.
    pub vi: u16,
    /// The delay timer.
    pub delay: u8,
    /// The sound timer.
    pub sound_timer: u8,
    /// Address of the next instruction.
    pub pc: u16,
    /// Number of return addresses on the call stack; the newest is
    /// `stack[sp]`.
    pub sp: u8,
    /// The call stack. Slot 0 is never used.
    pub stack: [u16; STACK_SLOTS],
}

impl View for CPU {
    type V = Machine;

    open spec fn view(&self) -> Machine {
        Machine {
            memory: self.memory@,
            screen: self.display@,
            regs: self.v@.push(self.vf),
            vi: self.vi,
            delay: self.delay,
            sound_timer: self.sound_timer,
            pc: self.pc,
            sp: self.sp,
            stack: self.stack@,
        }
    }
}

/// Draws a byte from the thread's random number generator
/// (`rand::thread_rng().gen_range(0..=255)`). Nothing is claimed of the byte.
#[verifier::external_body]
fn random_byte() -> (byte: u8) {
    rand::thread_rng().gen_range(0..=255)
}

impl CPU {
    /// The stack pointer is within the stack's depth.
    pub open spec fn wf(&self) -> bool {
        self.sp <= STACK_DEPTH
    }

    /// A well-formed engine has a well-formed state.
    pub proof fn lemma_view_wf(&self)
        requires
            self.wf(),
        ensures
            self@.wf(),
    {
    }

    /// An engine at rest over the given memory and display: registers,
    /// timers and stack zero, the program counter at the program start.
    pub fn initialise(memory: Memory, display: Display) -> (cpu: Self)
        ensures
            cpu.wf(),
            cpu@ == (Machine {
                memory: memory@,
                screen: display@,
                regs: Seq::new(REGISTER_COUNT as nat, |i: int| 0u8),
                vi: 0,
                delay: 0,
                sound_timer: 0,
                pc: PROGRAM_START_OFFSET as u16,
                sp: 0,
                stack: Seq::new(STACK_SLOTS as nat, |i: int| 0u16),
            }),
    {
        let cpu = CPU {
            memory,
            display,
            v: [0;15],
            vf: 0x0,
            vi: 0x0,
            delay: 0x0,
            sound_timer: 0x0,
            pc: 0x200,
            sp: 0x0,
            stack: [0x0;STACK_SLOTS],
        };
        assert(cpu@.regs =~= Seq::new(REGISTER_COUNT as nat, |i: int| 0u8));
        assert(cpu@.stack =~= Seq::new(STACK_SLOTS as nat, |i: int| 0u16));
        cpu
    }

    /// The value of register `i`.
    fn reg(&self, i: u8) -> (val: u8)
        requires
            i < REGISTER_COUNT,
        ensures
            val == self@.regs[i as int],
    {
        if i < 15 {
            self.v[i as usize]
        } else {
            self.vf
        }
    }

    /// Sets register `i` to `val`.
    fn set_reg(&mut self, i: u8, val: u8)
        requires
            i < REGISTER_COUNT,
        ensures
            final(self)@ == old(self)@.with_reg(i as int, val),
    {
        if i < 15 {
            self.v[i as usize] = val;
        } else {
            self.vf = val;
        }
        assert(self@.regs =~= old(self)@.regs.update(i as int, val));
    }

    /// Sets the flag register to `val`.
    fn set_flag(&mut self, val: u8)
        ensures
            final(self)@ == old(self)@.with_flag(val),
    {
        self.vf = val;
        assert(self@.regs =~= old(self)@.regs.update(FLAG_REGISTER as int, val));
    }

    /// Moves the program counter past one more instruction.
    fn skip(&mut self)
        ensures
            final(self)@ == old(self)@.skip_if(true),
    {
        self.pc = ((self.pc as u32 + 2) % 0x10000) as u16;
    }

    /// Counts the delay timer down by one; at zero it stays.
    pub fn decrement_delay_timer(&mut self)
        ensures
            final(self)@ == (Machine {
                delay: if old(self).delay > 0 {
                    (old(self).delay - 1) as u8
                } else {
                    0
                },
                ..old(self)@
            }),
    {
        if self.delay > 0 {
            self.delay -= 1;
        }
    }

    /// Counts the sound timer down by one; at zero it stays. The result
    /// says whether the timer is still running, that is, whether sound is
    /// due.
    pub fn decrement_sound_timer(&mut self) -> (sounding: bool)
        ensures
            final(self)@ == (Machine {
                sound_timer: if old(self).sound_timer > 0 {
                    (old(self).sound_timer - 1) as u8
                } else {
                    0
                },
                ..old(self)@
            }),
            sounding == (final(self).sound_timer > 0),
    {
        if self.sound_timer > 0 {
            self.sound_timer -= 1;
        }
        self.sound_timer > 0
    }

    /// Fetches the instruction at the program counter, high byte first, and
    /// moves the program counter past it. Where either byte lies outside
    /// program memory nothing is fetched and nothing changes.
    fn get_op(&mut self) -> (fetched: Option<OpCode>)
        ensures
            can_fetch(old(self)@) ==> fetched.is_some() && fetched.unwrap()@ == fetched_word(
                old(self)@,
            ) && final(self)@ == after_fetch(old(self)@),
            !can_fetch(old(self)@) ==> fetched.is_none() && final(self)@ == old(self)@,
    {
        let at: usize = self.pc as usize;
        let hi = match self.memory.get(at) {
            Ok(byte) => byte,
            Err(_) => {
                return None;
            },
        };
        let lo = match self.memory.get(at + 1) {
            Ok(byte) => byte,
            Err(_) => {
                return None;
            },
        };
        self.pc += 2;
        Some(OpCode::new(((hi as u16) << 8) | (lo as u16)))
    }

    /// Asks the display to clear the screen.
    fn cls(&mut self)
        ensures
            final(self)@ == (Machine { screen: blank_screen(), ..old(self)@ }),
    {
        self.display.clear_screen();
    }

    /// Returns from a subroutine.
    fn ret(&mut self) -> (r: Result<(), Fault>)
        requires
            old(self).wf(),
        ensures
            (final(self)@, r) == ret_spec(old(self)@),
    {
        if self.sp == 0 {
            return Err(Fault::StackUnderflow);
        }
        self.pc = self.stack[self.sp as usize];
        self.sp -= 1;
        Ok(())
    }

    /// Jumps to the address NNN.
    fn jp(&mut self, op: &OpCode)
        ensures
            final(self)@ == (Machine { pc: word_nnn(op@), ..old(self)@ }),
    {
        self.pc = op.nnn();
    }

    /// Calls the subroutine at the address NNN.
    fn call(&mut self, op: &OpCode) -> (r: Result<(), Fault>)
        requires
            old(self).wf(),
        ensures
            (final(self)@, r) == call_spec(old(self)@, word_nnn(op@)),
    {
        if self.sp as usize >= STACK_DEPTH {
            return Err(Fault::StackOverflow);
        }
        self.sp += 1;
        self.stack[self.sp as usize] = self.pc;
        self.pc = op.nnn();
        Ok(())
    }

    /// Skips the next instruction if V[X] equals KK.
    fn se(&mut self, op: &OpCode)
        ensures
            final(self)@ == old(self)@.skip_if(old(self)@.regs[word_x(op@) as int] == word_kk(op@)),
    {
        if self.reg(op.x()) == op.kk() {
            self.skip();
        }
    }

    /// Skips the next instruction if V[X] differs from KK.
    fn sne(&mut self, op: &OpCode)
        ensures
            final(self)@ == old(self)@.skip_if(old(self)@.regs[word_x(op@) as int] != word_kk(op@)),
    {
        if self.reg(op.x()) != op.kk() {
            self.skip();
        }
    }

    /// Skips the next instruction if V[X] equals V[Y].
    fn se_r(&mut self, op: &OpCode)
        ensures
            final(self)@ == old(self)@.skip_if(
                old(self)@.regs[word_x(op@) as int] == old(self)@.regs[word_y(op@) as int],
            ),
    {
        if self.reg(op.x()) == self.reg(op.y()) {
            self.skip();
        }
    }

    /// Skips the next instruction if V[X] differs from V[Y].
    fn sne_xy(&mut self, op: &OpCode)
        ensures
            final(self)@ == old(self)@.skip_if(
                old(self)@.regs[word_x(op@) as int] != old(self)@.regs[word_y(op@) as int],
            ),
    {
        let x = op.x();
        let y = op.y();

        let vx = self.reg(x);
        let vy = self.reg(y);

        if vx != vy {
            self.skip();
        }
    }

    /// Loads KK into V[X].
    fn ld_r(&mut self, op: &OpCode)
        ensures
            final(self)@ == old(self)@.with_reg(word_x(op@) as int, word_kk(op@)),
    {
        self.set_reg(op.x(), op.kk());
    }

    /// Adds KK to V[X], wrapping; the flag register is left alone.
    fn add(&mut self, op: &OpCode)
        ensures
            final(self)@ == old(self)@.with_reg(
                word_x(op@) as int,
                ((old(self)@.regs[word_x(op@) as int] + word_kk(op@)) % 256) as u8,
            ),
    {
        let x = op.x();
        let sum: u16 = self.reg(x) as u16 + op.kk() as u16;
        self.set_reg(x, (sum % 256) as u8);
    }

    /// Loads the address NNN into the address register.
    fn ld_i(&mut self, op: &OpCode)
        ensures
            final(self)@ == (Machine { vi: word_nnn(op@), ..old(self)@ }),
    {
        let addr = op.nnn();

        self.vi = addr;
    }

    /// Jumps to the address NNN plus V[0].
    fn jp_v0(&mut self, op: &OpCode)
        ensures
            final(self)@ == (Machine {
                pc: (old(self)@.regs[0] + word_nnn(op@)) as u16,
                ..old(self)@
            }),
    {
        let addr = op.nnn();

        self.pc = (self.reg(0) as u16) + addr;
    }

    /// Loads into V[X] the byte `random` masked by KK.
    pub fn rnd_with(&mut self, op: &OpCode, random: u8)
        ensures
            final(self)@ == rnd_spec(old(self)@, op@, random),
    {
        let x = op.x();
        let kk = op.kk();
        let res = random & kk;

        self.set_reg(x, res);
    }

    /// Loads into V[X] a random byte masked by KK.
    fn rnd(&mut self, op: &OpCode)
        ensures
            exists|random: u8| final(self)@ == #[trigger] rnd_spec(old(self)@, op@, random),
    {
        let rand_number: u8 = random_byte();
        self.rnd_with(op, rand_number);
    }

    /// Loads V[Y] into V[X].
    fn ld_xy(&mut self, op: &OpCode)
        ensures
            final(self)@ == old(self)@.with_reg(
                word_x(op@) as int,
                old(self)@.regs[word_y(op@) as int],
            ),
    {
        let vy = self.reg(op.y());
        self.set_reg(op.x(), vy);
    }

    /// Stores V[X] | V[Y] in V[X].
    fn or_xy(&mut self, op: &OpCode)
        ensures
            final(self)@ == old(self)@.with_reg(
                word_x(op@) as int,
                old(self)@.regs[word_x(op@) as int] | old(self)@.regs[word_y(op@) as int],
            ),
    {
        let val = self.reg(op.x()) | self.reg(op.y());
        self.set_reg(op.x(), val);
    }

    /// Stores V[X] & V[Y] in V[X].
    fn and_xy(&mut self, op: &OpCode)
        ensures
            final(self)@ == old(self)@.with_reg(
                word_x(op@) as int,
                old(self)@.regs[word_x(op@) as int] & old(self)@.regs[word_y(op@) as int],
            ),
    {
        let val = self.reg(op.x()) & self.reg(op.y());
        self.set_reg(op.x(), val);
    }

    /// Stores V[X] ^ V[Y] in V[X].
    fn xor_xy(&mut self, op: &OpCode)
        ensures
            final(self)@ == old(self)@.with_reg(
                word_x(op@) as int,
                old(self)@.regs[word_x(op@) as int] ^ old(self)@.regs[word_y(op@) as int],
            ),
    {
        let val = self.reg(op.x()) ^ self.reg(op.y());
        self.set_reg(op.x(), val);
    }

    /// Adds V[Y] to V[X] and keeps the low byte of the sum in V[X]. The
    /// flag register says whether the sum went beyond 255.
    fn add_xy(&mut self, op: &OpCode)
        ensures
            final(self)@ == old(self)@.with_flag(
                flag_of(
                    old(self)@.regs[word_x(op@) as int] + old(self)@.regs[word_y(op@) as int]
                        > 255,
                ),
            ).with_reg(
                word_x(op@) as int,
                ((old(self)@.regs[word_x(op@) as int] + old(self)@.regs[word_y(op@) as int])
                    % 256) as u8,
            ),
    {
        let x = op.x();
        let y = op.y();

        let vx = self.reg(x) as u16;
        let vy = self.reg(y) as u16;

        let res = vx + vy;

        if res > 255 {
            self.set_flag(1);
        } else {
            self.set_flag(0);
        }

        self.set_reg(x, (res % 256) as u8);
    }

    /// Subtracts V[Y] from V[X] and keeps the low byte of the difference in
    /// V[X]. The flag register says whether V[X] was greater than V[Y].
    fn sub_xy(&mut self, op: &OpCode)
        ensures
            final(self)@ == old(self)@.with_flag(
                flag_of(old(self)@.regs[word_x(op@) as int] > old(self)@.regs[word_y(op@) as int]),
            ).with_reg(
                word_x(op@) as int,
                ((old(self)@.regs[word_x(op@) as int] - old(self)@.regs[word_y(op@) as int])
                    % 256) as u8,
            ),
    {
        let x = op.x();
        let y = op.y();

        let vx = self.reg(x) as u16;
        let vy = self.reg(y) as u16;

        let res = (vx + 256 - vy) % 256;

        if vx > vy {
            self.set_flag(1);
        } else {
            self.set_flag(0);
        }

        self.set_reg(x, res as u8);
    }

    /// Subtracts V[X] from V[Y] and keeps the low byte of the difference in
    /// V[X]. The flag register says whether V[Y] was greater than V[X].
    fn subn_yx(&mut self, op: &OpCode)
        ensures
            final(self)@ == old(self)@.with_flag(
                flag_of(old(self)@.regs[word_y(op@) as int] > old(self)@.regs[word_x(op@) as int]),
            ).with_reg(
                word_x(op@) as int,
                ((old(self)@.regs[word_y(op@) as int] - old(self)@.regs[word_x(op@) as int])
                    % 256) as u8,
            ),
    {
        let x = op.x();
        let y = op.y();

        let vx = self.reg(x) as u16;
        let vy = self.reg(y) as u16;

        let res = (vy + 256 - vx) % 256;

        if vy > vx {
            self.set_flag(1);
        } else {
            self.set_flag(0);
        }

        self.set_reg(x, res as u8);
    }

    /// Shifts V[X] right by one bit. The flag register takes the bit that
    /// falls off, the least significant one.
    fn shr(&mut self, op: &OpCode)
        ensures
            final(self)@ == old(self)@.with_flag(old(self)@.regs[word_x(op@) as int] & 1).with_reg(
                word_x(op@) as int,
                old(self)@.regs[word_x(op@) as int] >> 1,
            ),
    {
        let x = op.x();
        let vx = self.reg(x);

        self.set_flag(vx & 1);
        self.set_reg(x, vx >> 1);
    }

    /// Shifts V[X] left by one bit. The flag register takes the bit that
    /// falls off, the most significant one.
    fn shl(&mut self, op: &OpCode)
        ensures
            final(self)@ == old(self)@.with_flag(old(self)@.regs[word_x(op@) as int] >> 7).with_reg(
                word_x(op@) as int,
                ((old(self)@.regs[word_x(op@) as int] * 2) % 256) as u8,
            ),
    {
        let x = op.x();
        let vx = self.reg(x);

        self.set_flag(vx >> 7);
        self.set_reg(x, ((vx as u16 * 2) % 256) as u8);
    }

    /// Carries out an instruction of class 8, chosen by the word's low
    /// nibble.
    fn ops_8(&mut self, op: &OpCode) -> (r: Result<(), Fault>)
        ensures
            (final(self)@, r) == ops_8_spec(old(self)@, op@),
    {
        let sub = op.n();
        if sub == 0x0 {
            self.ld_xy(op);
        } else if sub == 0x1 {
            self.or_xy(op);
        } else if sub == 0x2 {
            self.and_xy(op);
        } else if sub == 0x3 {
            self.xor_xy(op);
        } else if sub == 0x4 {
            self.add_xy(op);
        } else if sub == 0x5 {
            self.sub_xy(op);
        } else if sub == 0x6 {
            self.shr(op);
        } else if sub == 0x7 {
            self.subn_yx(op);
        } else if sub == 0xE {
            self.shl(op);
        } else {
            return Err(Fault::UnimplementedOpcode);
        }
        Ok(())
    }

    /// Adds V[X] to the address register, wrapping; no flag is set.
    fn add_i(&mut self, op: &OpCode)
        ensures
            final(self)@ == (Machine {
                vi: ((old(self)@.vi + old(self)@.regs[word_x(op@) as int]) % 0x10000) as u16,
                ..old(self)@
            }),
    {
        let sum: u32 = self.vi as u32 + self.reg(op.x()) as u32;
        self.vi = (sum % 0x10000) as u16;
    }

    /// Stores the decimal digits of V[X] at the address register and the
    /// two addresses after it, hundreds first.
    fn ld_b(&mut self, op: &OpCode) -> (r: Result<(), Fault>)
        ensures
            (final(self)@, r) == (if old(self)@.vi + 2 < MAX_MEM {
                (
                    Machine {
                        memory: bcd_stored(
                            old(self)@.memory,
                            old(self)@.vi as int,
                            old(self)@.regs[word_x(op@) as int],
                        ),
                        ..old(self)@
                    },
                    Ok::<(), Fault>(()),
                )
            } else {
                (old(self)@, Err::<(), Fault>(Fault::OutOfBounds))
            }),
    {
        let value = self.reg(op.x());
        let hund = value / 100;
        let tens = (value / 10) % 10;
        let ones = value % 10;

        let addr = self.vi as usize;
        if addr + 2 >= MAX_MEM {
            return Err(Fault::OutOfBounds);
        }
        self.memory.write(addr, hund)?;
        self.memory.write(addr + 1, tens)?;
        self.memory.write(addr + 2, ones)?;
        Ok(())
    }

    /// Stores the registers V[0] to V[X] from the address register on.
    fn ld_mem_i(&mut self, op: &OpCode) -> (r: Result<(), Fault>)
        ensures
            (final(self)@, r) == (if old(self)@.vi + word_x(op@) < MAX_MEM {
                (
                    Machine {
                        memory: regs_stored(
                            old(self)@.memory,
                            old(self)@.vi as int,
                            old(self)@.regs,
                            word_x(op@) as int,
                        ),
                        ..old(self)@
                    },
                    Ok::<(), Fault>(()),
                )
            } else {
                (old(self)@, Err::<(), Fault>(Fault::OutOfBounds))
            }),
    {
        let max = op.x();
        let addr = self.vi as usize;
        if addr + max as usize >= MAX_MEM {
            return Err(Fault::OutOfBounds);
        }
        let mut x: u8 = 0;
        while x <= max
            invariant
                max < REGISTER_COUNT,
                x <= max + 1,
                addr == old(self)@.vi,
                addr + max < MAX_MEM,
                self@ == (Machine { memory: self@.memory, ..old(self)@ }),
                self@.memory.len() == MAX_MEM,
                forall|a: int|
                    0 <= a < MAX_MEM ==> self@.memory[a] == (if addr <= a < addr + x {
                        old(self)@.regs[a - addr]
                    } else {
                        old(self)@.memory[a]
                    }),
            decreases max + 1 - x,
        {
            let val = self.reg(x);
            self.memory.write(addr + x as usize, val)?;
            x += 1;
        }
        assert(self@.memory =~= regs_stored(
            old(self)@.memory,
            old(self)@.vi as int,
            old(self)@.regs,
            word_x(op@) as int,
        ));
        Ok(())
    }

    /// Carries out an instruction of class F, chosen by the word's low
    /// byte.
    fn ops_f(&mut self, op: &OpCode) -> (r: Result<(), Fault>)
        ensures
            (final(self)@, r) == ops_f_spec(old(self)@, op@),
    {
        let sub = op.kk();
        if sub == 0x1E {
            self.add_i(op);
            Ok(())
        } else if sub == 0x33 {
            self.ld_b(op)
        } else if sub == 0x55 {
            self.ld_mem_i(op)
        } else {
            Err(Fault::UnimplementedOpcode)
        }
    }

    /// Draws the sprite whose rows are the N bytes of memory from the
    /// address register on, with its corner at column V[X], row V[Y]. The
    /// flag register says whether it collided. Where a row cannot be read
    /// nothing is drawn.
    fn drw(&mut self, op: &OpCode) -> (r: Result<(), Fault>)
        ensures
            (final(self)@, r) == drw_spec(old(self)@, op@),
    {
        let x = op.x();
        let y = op.y();
        let n = op.n();

        let mut sprite: Vec<u8> = Vec::new();
        let mut i: u8 = 0;
        while i < n
            invariant
                i <= n,
                n < 16,
                n == word_n(op@),
                self@ == old(self)@,
                i > 0 ==> PROGRAM_START_OFFSET <= self.vi && self.vi + i <= MAX_MEM,
                sprite@ =~= sprite_rows(self@.memory, self.vi as int, i as int),
            decreases n - i,
        {
            match self.memory.get(self.vi as usize + i as usize) {
                Ok(byte) => {
                    sprite.push(byte);
                },
                Err(fault) => {
                    return Err(fault);
                },
            }
            i += 1;
        }

        let ox = self.reg(x) as usize;
        let oy = self.reg(y) as usize;
        let collided = self.display.display_sprite((&ox, &oy), sprite.as_slice());
        self.set_flag(
            if collided {
                1
            } else {
                0
            },
        );
        Ok(())
    }

    /// Carries out a decoded instruction, with `random` as the byte that
    /// the random instruction draws. The program counter is taken to be
    /// past the instruction already.
    pub fn execute_op_with(&mut self, op: &OpCode, random: u8) -> (r: Result<(), Fault>)
        requires
            old(self).wf(),
        ensures
            final(self).wf(),
            (final(self)@, r) == execute_spec(old(self)@, op@, random),
    {
        let id = op.id();
        if id == 0x0 {
            if op.raw() == 0x00e0 {
                self.cls();
                Ok(())
            } else if op.raw() == 0x00ee {
                self.ret()
            } else {
                Err(Fault::UnimplementedOpcode)
            }
        } else if id == 0x1 {
            self.jp(op);
            Ok(())
        } else if id == 0x2 {
            self.call(op)
        } else if id == 0x3 {
            self.se(op);
            Ok(())
        } else if id == 0x4 {
            self.sne(op);
            Ok(())
        } else if id == 0x5 {
            self.se_r(op);
            Ok(())
        } else if id == 0x6 {
            self.ld_r(op);
            Ok(())
        } else if id == 0x7 {
            self.add(op);
            Ok(())
        } else if id == 0x8 {
            self.ops_8(op)
        } else if id == 0x9 {
            self.sne_xy(op);
            Ok(())
        } else if id == 0xa {
            self.ld_i(op);
            Ok(())
        } else if id == 0xb {
            self.jp_v0(op);
            Ok(())
        } else if id == 0xc {
            self.rnd_with(op, random);
            Ok(())
        } else if id == 0xd {
            self.drw(op)
        } else if id == 0xf {
            self.ops_f(op)
        } else {
            Err(Fault::UnimplementedOpcode)
        }
    }

    /// Carries out a decoded instruction. The random instruction draws its
    /// byte from the random number generator.
    fn execute_op(&mut self, op: OpCode) -> (r: Result<(), Fault>)
        requires
            old(self).wf(),
        ensures
            final(self).wf(),
            exists|random: u8| (final(self)@, r) == #[trigger] execute_spec(old(self)@, op@, random),
    {
        if op.id() == 0xc {
            self.rnd(&op);
            proof {
                let random = choose|random: u8| self@ == #[trigger] rnd_spec(old(self)@, op@, random);
                assert((self@, Ok::<(), Fault>(())) == execute_spec(old(self)@, op@, random));
            }
            Ok(())
        } else {
            self.execute_op_with(&op, 0)
        }
    }

    /// Runs one cycle: fetches the instruction at the program counter and
    /// carries it out. Where no instruction can be fetched, nothing changes
    /// and the fault is `OutOfBounds`.
    pub fn execute_next_instruction(&mut self) -> (r: Result<(), Fault>)
        requires
            old(self).wf(),
        ensures
            final(self).wf(),
            exists|random: u8| (final(self)@, r) == #[trigger] step_spec(old(self)@, random),
    {
        match self.get_op() {
            Some(op) => {
                let ghost fetched = self@;
                let r = self.execute_op(op);
                proof {
                    let random = choose|random: u8|
                        (self@, r) == #[trigger] execute_spec(fetched, op@, random);
                    assert((self@, r) == step_spec(old(self)@, random));
                }
                r
            },
            None => {
                assert((self@, Err::<(), Fault>(Fault::OutOfBounds)) == step_spec(old(self)@, 0));
                Err(Fault::OutOfBounds)
            },
        }
    }

    /// Runs cycle after cycle until one is refused with a fault other than
    /// an unimplemented instruction, which is passed over, or until
    /// `max_cycles` cycles are done. A program that runs off the end of
    /// program memory ends with `OutOfBounds`. The result is the fault that
    /// ended the run, if one did.
    pub fn execute(&mut self, max_cycles: usize) -> (halt: Option<Fault>)
        requires
            old(self).wf(),
        ensures
            final(self).wf(),
            exists|trace: Seq<Machine>| #[trigger]
                is_run(trace, old(self)@, max_cycles as int, final(self)@, halt),
    {
        let ghost mut trace: Seq<Machine> = seq![self@];
        let mut cycles: usize = 0;
        while cycles < max_cycles
            invariant
                self.wf(),
                cycles <= max_cycles,
                trace.len() == cycles + 1,
                trace[0] == old(self)@,
                trace.last() == self@,
                is_trace(trace),
            decreases max_cycles - cycles,
        {
            let ghost before = self@;
            let r = self.execute_next_instruction();
            proof {
                let random = choose|random: u8| (self@, r) == #[trigger] step_spec(before, random);
                assert(step_spec(before, random).0 == self@);
            }
            match r {
                Ok(_) => {},
                Err(Fault::UnimplementedOpcode) => {},
                Err(fault) => {
                    assert(cycle_halts(before, self@, fault));
                    assert(is_run(trace, old(self)@, max_cycles as int, self@, Some(fault)));
                    return Some(fault);
                },
            }
            proof {
                assert(cycle_passes(before, self@));
                trace = trace.push(self@);
            }
            cycles += 1;
        }
        assert(is_run(trace, old(self)@, max_cycles as int, self@, None));
        None
    }
}

} // verus!
