//! The machine as a mathematical value, and what each instruction does to it.
//!
//! Everything here is specification: the executable engine is proved to
//! follow these definitions.

use vstd::prelude::*;
use crate::display::{blank_screen, draw_rows, is_screen, rows_collide, Pixels};
use crate::fault::Fault;
use crate::opcode::{word_id, word_kk, word_n, word_nnn, word_of, word_x, word_y};

verus! {

/// Number of return addresses the call stack can hold.
pub const STACK_DEPTH: usize = 16;

/// Slots of the array behind the call stack. Slot 0 is never used: the live
/// return addresses are slots 1 to `sp`.
pub const STACK_SLOTS: usize = 17;

/// Number of registers, the flag register included.
pub const REGISTER_COUNT: usize = 16;

/// Index of the flag register.
pub const FLAG_REGISTER: usize = 15;

/// The whole state of the machine.
pub struct Machine {
    /// The 4096 bytes of memory.
    pub memory: Seq<u8>,
    /// The framebuffer.
    pub screen: Pixels,
    /// The sixteen registers; the last is the flag register.
    pub regs: Seq<u8>,
    /// The address register.
    pub vi: u16,
    /// The delay timer.
    pub delay: u8,
    /// The sound timer.
    pub sound_timer: u8,
    /// Address of the next instruction.
    pub pc: u16,
    /// Number of return addresses on the call stack.
    pub sp: u8,
    /// The slots of the call stack.
    pub stack: Seq<u16>,
}

/// What an instruction leaves behind: the new state, and whether it was
/// carried out.
pub type Outcome = (Machine, Result<(), Fault>);

impl Machine {
    /// Every part has its fixed size and the stack pointer is within the
    /// stack's depth.
    pub open spec fn wf(self) -> bool {
        &&& self.memory.len() == 0x1000
        &&& is_screen(self.screen)
        &&& self.regs.len() == REGISTER_COUNT
        &&& self.stack.len() == STACK_SLOTS
        &&& self.sp <= STACK_DEPTH
    }

    /// The state with register `i` set to `val`.
    pub open spec fn with_reg(self, i: int, val: u8) -> Machine {
        Machine { regs: self.regs.update(i, val), ..self }
    }

    /// The state with the flag register set to `val`.
    pub open spec fn with_flag(self, val: u8) -> Machine {
        self.with_reg(FLAG_REGISTER as int, val)
    }

    /// The state with the program counter moved past one more instruction
    /// if `taken` holds.
    pub open spec fn skip_if(self, taken: bool) -> Machine {
        if taken {
            Machine { pc: ((self.pc + 2) % 0x10000) as u16, ..self }
        } else {
            self
        }
    }
}

/// The instruction was carried out and left `m`.
pub open spec fn done(m: Machine) -> Outcome {
    (m, Ok(()))
}

/// The instruction was refused for `fault` and left `m`.
pub open spec fn refused(m: Machine, fault: Fault) -> Outcome {
    (m, Err(fault))
}

/// 1 if `b` holds, else 0.
pub open spec fn flag_of(b: bool) -> u8 {
    if b {
        1
    } else {
        0
    }
}

/// Return from a subroutine: the newest return address becomes the program
/// counter and leaves the stack. With an empty stack the return is refused.
pub open spec fn ret_spec(m: Machine) -> Outcome {
    if m.sp == 0 {
        refused(m, Fault::StackUnderflow)
    } else {
        done(Machine { pc: m.stack[m.sp as int], sp: (m.sp - 1) as u8, ..m })
    }
}

/// Call a subroutine: the program counter goes on the stack and `nnn` takes
/// its place. With a full stack the call is refused.
pub open spec fn call_spec(m: Machine, nnn: u16) -> Outcome {
    if m.sp >= STACK_DEPTH {
        refused(m, Fault::StackOverflow)
    } else {
        done(
            Machine {
                pc: nnn,
                sp: (m.sp + 1) as u8,
                stack: m.stack.update(m.sp + 1, m.pc),
                ..m
            },
        )
    }
}

/// The instructions of class 8, which combine registers X and Y into X.
/// Where an instruction sets the flag register, the flag is written first
/// and X after it, so with X the flag register itself the result stays.
pub open spec fn ops_8_spec(m: Machine, raw: u16) -> Outcome {
    let x = word_x(raw) as int;
    let vx = m.regs[x];
    let vy = m.regs[word_y(raw) as int];
    let sub = word_n(raw);
    if sub == 0x0 {
        done(m.with_reg(x, vy))
    } else if sub == 0x1 {
        done(m.with_reg(x, vx | vy))
    } else if sub == 0x2 {
        done(m.with_reg(x, vx & vy))
    } else if sub == 0x3 {
        done(m.with_reg(x, vx ^ vy))
    } else if sub == 0x4 {
        done(m.with_flag(flag_of(vx + vy > 255)).with_reg(x, ((vx + vy) % 256) as u8))
    } else if sub == 0x5 {
        done(m.with_flag(flag_of(vx > vy)).with_reg(x, ((vx - vy) % 256) as u8))
    } else if sub == 0x6 {
        done(m.with_flag(vx & 1).with_reg(x, vx >> 1))
    } else if sub == 0x7 {
        done(m.with_flag(flag_of(vy > vx)).with_reg(x, ((vy - vx) % 256) as u8))
    } else if sub == 0xE {
        done(m.with_flag(vx >> 7).with_reg(x, ((vx * 2) % 256) as u8))
    } else {
        refused(m, Fault::UnimplementedOpcode)
    }
}

/// Memory after the decimal digits of `value` are stored at `at`, `at + 1`
/// and `at + 2`, hundreds first.
pub open spec fn bcd_stored(memory: Seq<u8>, at: int, value: u8) -> Seq<u8> {
    memory.update(at, (value / 100) as u8).update(at + 1, ((value / 10) % 10) as u8).update(
        at + 2,
        (value % 10) as u8,
    )
}

/// Memory after registers 0 to `last` are stored from `at` on.
pub open spec fn regs_stored(memory: Seq<u8>, at: int, regs: Seq<u8>, last: int) -> Seq<u8> {
    Seq::new(
        memory.len(),
        |a: int|
            if at <= a <= at + last {
                regs[a - at]
            } else {
                memory[a]
            },
    )
}

/// The instructions of class F. A store that would reach beyond the end of
/// memory is refused as a whole.
pub open spec fn ops_f_spec(m: Machine, raw: u16) -> Outcome {
    let x = word_x(raw) as int;
    let sub = word_kk(raw);
    if sub == 0x1E {
        done(Machine { vi: ((m.vi + m.regs[x]) % 0x10000) as u16, ..m })
    } else if sub == 0x33 {
        if m.vi + 2 < 0x1000 {
            done(Machine { memory: bcd_stored(m.memory, m.vi as int, m.regs[x]), ..m })
        } else {
            refused(m, Fault::OutOfBounds)
        }
    } else if sub == 0x55 {
        if m.vi + x < 0x1000 {
            done(Machine { memory: regs_stored(m.memory, m.vi as int, m.regs, x), ..m })
        } else {
            refused(m, Fault::OutOfBounds)
        }
    } else {
        refused(m, Fault::UnimplementedOpcode)
    }
}

/// The rows of a sprite of `n` rows can be read from `vi` on: there are
/// none, or all of them lie in program memory.
pub open spec fn sprite_readable(vi: u16, n: int) -> bool {
    n == 0 || (0x200 <= vi && vi + n <= 0x1000)
}

/// The `n` bytes of memory from `at` on.
pub open spec fn sprite_rows(memory: Seq<u8>, at: int, n: int) -> Seq<u8> {
    Seq::new(n as nat, |j: int| memory[at + j])
}

/// The random instruction: V[X] becomes the byte drawn, masked by KK.
pub open spec fn rnd_spec(m: Machine, raw: u16, random: u8) -> Machine {
    m.with_reg(word_x(raw) as int, random & word_kk(raw))
}

/// Draw a sprite: its rows are the `n` bytes of memory from the address
/// register on, its corner is at column V[X], row V[Y], and the flag
/// register says whether it collided.
pub open spec fn drw_spec(m: Machine, raw: u16) -> Outcome {
    let n = word_n(raw) as int;
    let ox = m.regs[word_x(raw) as int] as int;
    let oy = m.regs[word_y(raw) as int] as int;
    if sprite_readable(m.vi, n) {
        let rows = sprite_rows(m.memory, m.vi as int, n);
        done(
            Machine { screen: draw_rows(m.screen, ox, oy, rows, n as nat), ..m }.with_flag(
                flag_of(rows_collide(m.screen, ox, oy, rows, n as nat)),
            ),
        )
    } else {
        refused(m, Fault::OutOfBounds)
    }
}

/// What the instruction word `raw` does to the state `m`, which already has
/// its program counter past the word. `random` is the byte drawn for the
/// random instruction; no other instruction looks at it.
pub open spec fn execute_spec(m: Machine, raw: u16, random: u8) -> Outcome {
    let id = word_id(raw);
    let x = word_x(raw) as int;
    let y = word_y(raw) as int;
    let kk = word_kk(raw);
    let nnn = word_nnn(raw);
    if id == 0x0 {
        if raw == 0x00E0 {
            done(Machine { screen: blank_screen(), ..m })
        } else if raw == 0x00EE {
            ret_spec(m)
        } else {
            refused(m, Fault::UnimplementedOpcode)
        }
    } else if id == 0x1 {
        done(Machine { pc: nnn, ..m })
    } else if id == 0x2 {
        call_spec(m, nnn)
    } else if id == 0x3 {
        done(m.skip_if(m.regs[x] == kk))
    } else if id == 0x4 {
        done(m.skip_if(m.regs[x] != kk))
    } else if id == 0x5 {
        done(m.skip_if(m.regs[x] == m.regs[y]))
    } else if id == 0x6 {
        done(m.with_reg(x, kk))
    } else if id == 0x7 {
        done(m.with_reg(x, ((m.regs[x] + kk) % 256) as u8))
    } else if id == 0x8 {
        ops_8_spec(m, raw)
    } else if id == 0x9 {
        done(m.skip_if(m.regs[x] != m.regs[y]))
    } else if id == 0xA {
        done(Machine { vi: nnn, ..m })
    } else if id == 0xB {
        done(Machine { pc: (m.regs[0] + nnn) as u16, ..m })
    } else if id == 0xC {
        done(rnd_spec(m, raw, random))
    } else if id == 0xD {
        drw_spec(m, raw)
    } else if id == 0xF {
        ops_f_spec(m, raw)
    } else {
        refused(m, Fault::UnimplementedOpcode)
    }
}

/// An instruction can be fetched: both of its bytes lie in program memory.
pub open spec fn can_fetch(m: Machine) -> bool {
    0x200 <= m.pc && m.pc + 1 < 0x1000
}

/// The instruction word at the program counter, high byte first.
pub open spec fn fetched_word(m: Machine) -> u16 {
    word_of(m.memory[m.pc as int], m.memory[m.pc + 1])
}

/// The state after the fetch: the program counter is past the word.
pub open spec fn after_fetch(m: Machine) -> Machine {
    Machine { pc: (m.pc + 2) as u16, ..m }
}

/// One cycle: fetch the word at the program counter, move the program
/// counter past it, and carry the word out. Where no word can be fetched
/// the state stays and the cycle is refused.
pub open spec fn step_spec(m: Machine, random: u8) -> Outcome {
    if can_fetch(m) {
        execute_spec(after_fetch(m), fetched_word(m), random)
    } else {
        refused(m, Fault::OutOfBounds)
    }
}

/// A run passes over an instruction that is not implemented; every other
/// fault ends it.
pub open spec fn is_fatal(fault: Fault) -> bool {
    fault != Fault::UnimplementedOpcode
}

/// A cycle leads from `a` to `b` without a fault that would end a run.
pub open spec fn cycle_passes(a: Machine, b: Machine) -> bool {
    exists|random: u8|
        (#[trigger] step_spec(a, random)).0 == b && (match step_spec(a, random).1 {
            Ok(_) => true,
            Err(fault) => !is_fatal(fault),
        })
}

/// A cycle from `a` is refused with `fault`, which ends a run, and leaves
/// `b`.
pub open spec fn cycle_halts(a: Machine, b: Machine, fault: Fault) -> bool {
    is_fatal(fault) && exists|random: u8|
        #[trigger] step_spec(a, random) == (b, Err::<(), Fault>(fault))
}

/// Each state of the trace leads to the next by a cycle that passes.
pub open spec fn is_trace(trace: Seq<Machine>) -> bool {
    forall|i: int|
        0 <= i < trace.len() - 1 ==> cycle_passes(#[trigger] trace[i], trace[i + 1])
}

/// The trace is a run from `start` of at most `max` cycles. With no fault
/// reported, the run took all `max` cycles and ended in `end`; with one, the
/// cycle after the trace was refused with it and left `end`.
pub open spec fn is_run(
    trace: Seq<Machine>,
    start: Machine,
    max: int,
    end: Machine,
    halt: Option<Fault>,
) -> bool {
    &&& trace.len() >= 1
    &&& trace[0] == start
    &&& is_trace(trace)
    &&& match halt {
        None => trace.len() - 1 == max && trace.last() == end,
        Some(fault) => trace.len() - 1 < max && cycle_halts(trace.last(), end, fault),
    }
}

} // verus!
