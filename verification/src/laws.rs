//! Laws of the machine: statements about whole cycles and about drawing,
//! proved from the definitions of the instructions.

use vstd::prelude::*;
use crate::display::{
    bit_collides, draw_rows, flips, is_screen, lemma_pixel_after, offset_from, row_collides,
    row_hits, rows_collide, sprite_bit, target_row, Pixels, SCREEN_HEIGHT, SCREEN_WIDTH,
};
use crate::fault::Fault;
use crate::machine::{
    after_fetch, can_fetch, done, execute_spec, fetched_word, sprite_rows, step_spec, Machine,
    FLAG_REGISTER, REGISTER_COUNT, STACK_DEPTH,
};
use crate::opcode::{
    lemma_fields_of_bytes, lemma_word_fields, word_id, word_n, word_nnn, word_x, word_y,
};

verus! {

/// Load immediate: where the two bytes at the program counter are `0x6X`
/// and `KK`, a cycle leaves `KK` in register X, moves the program counter
/// on by exactly two, and changes nothing else.
pub proof fn lemma_load_immediate(m: Machine, x: u8, kk: u8, random: u8)
    requires
        m.wf(),
        x < REGISTER_COUNT,
        can_fetch(m),
        m.memory[m.pc as int] == 0x60 + x,
        m.memory[m.pc + 1] == kk,
    ensures
        step_spec(m, random) == done(
            Machine { pc: (m.pc + 2) as u16, regs: m.regs.update(x as int, kk), ..m },
        ),
        step_spec(m, random).0.regs[x as int] == kk,
        step_spec(m, random).0.pc == m.pc + 2,
{
    lemma_fields_of_bytes((0x60 + x) as u8, kk);
}

/// Add with carry: for every pair of values in V[X] and V[Y], with X not
/// the flag register itself, the flag register becomes 1 if the sum is
/// beyond 255 and 0 if it is not, and V[X] becomes the low eight bits of
/// the sum.
pub proof fn lemma_add_with_carry(m: Machine, raw: u16, random: u8)
    requires
        m.wf(),
        word_id(raw) == 0x8,
        word_n(raw) == 0x4,
        word_x(raw) != FLAG_REGISTER,
    ensures
        execute_spec(m, raw, random).1 == Ok::<(), Fault>(()),
        execute_spec(m, raw, random).0.regs[FLAG_REGISTER as int] == (if m.regs[word_x(raw) as int]
            + m.regs[word_y(raw) as int] > 255 {
            1u8
        } else {
            0u8
        }),
        execute_spec(m, raw, random).0.regs[word_x(raw) as int] == (m.regs[word_x(raw) as int]
            + m.regs[word_y(raw) as int]) % 256,
{
    lemma_word_fields(raw);
}

/// Call and return: where a cycle calls the subroutine at NNN with room on
/// the stack, and the instruction at NNN is a return, the cycle after it
/// puts the program counter just behind the call and the stack pointer
/// back where it was. Of the whole state only the stack slot that held the
/// return address may differ from before the call.
pub proof fn lemma_call_then_return(m: Machine, r1: u8, r2: u8)
    requires
        m.wf(),
        can_fetch(m),
        word_id(fetched_word(m)) == 0x2,
        m.sp < STACK_DEPTH,
        can_fetch(step_spec(m, r1).0),
        fetched_word(step_spec(m, r1).0) == 0x00EE,
    ensures
        step_spec(m, r1).1 == Ok::<(), Fault>(()),
        step_spec(m, r1).0.pc == word_nnn(fetched_word(m)),
        step_spec(step_spec(m, r1).0, r2) == done(
            Machine {
                pc: (m.pc + 2) as u16,
                stack: m.stack.update(m.sp + 1, (m.pc + 2) as u16),
                ..m
            },
        ),
        step_spec(step_spec(m, r1).0, r2).0.pc == m.pc + 2,
        step_spec(step_spec(m, r1).0, r2).0.sp == m.sp,
{
    lemma_word_fields(fetched_word(m));
    assert(word_id(0x00EEu16) == 0) by (bit_vector);
}

/// The parts of the state keep their sizes and the stack pointer stays
/// within the stack's depth, whatever instruction is carried out and
/// whether or not it is refused.
pub proof fn lemma_execute_keeps_wf(m: Machine, raw: u16, random: u8)
    requires
        m.wf(),
    ensures
        execute_spec(m, raw, random).0.wf(),
{
    lemma_word_fields(raw);
    let ox = m.regs[word_x(raw) as int] as int;
    let oy = m.regs[word_y(raw) as int] as int;
    let n = word_n(raw) as int;
    lemma_pixel_after(m.screen, ox, oy, sprite_rows(m.memory, m.vi as int, n), n as nat, 0, 0);
}

/// A cycle keeps the state well-formed.
pub proof fn lemma_step_keeps_wf(m: Machine, random: u8)
    requires
        m.wf(),
    ensures
        step_spec(m, random).0.wf(),
{
    if can_fetch(m) {
        lemma_execute_keeps_wf(after_fetch(m), fetched_word(m), random);
    }
}

/// Instructions stay on even addresses: a cycle that starts at an even
/// program counter ends at one, unless it jumps, calls or returns, in which
/// case the program counter is whatever the program asked for.
pub proof fn lemma_step_keeps_alignment(m: Machine, random: u8)
    requires
        m.wf(),
        m.pc % 2 == 0,
        can_fetch(m),
        word_id(fetched_word(m)) != 0x1,
        word_id(fetched_word(m)) != 0x2,
        word_id(fetched_word(m)) != 0xB,
        fetched_word(m) != 0x00EE,
    ensures
        step_spec(m, random).0.pc % 2 == 0,
        step_spec(m, random).0.pc == m.pc + 2 || step_spec(m, random).0.pc == m.pc + 4,
{
    lemma_word_fields(fetched_word(m));
}

/// Drawing is its own inverse: a sprite drawn twice at the same place
/// leaves the framebuffer as it was before the first draw.
pub proof fn lemma_draw_twice_restores(s: Pixels, ox: int, oy: int, rows: Seq<u8>)
    requires
        is_screen(s),
    ensures
        draw_rows(draw_rows(s, ox, oy, rows, rows.len()), ox, oy, rows, rows.len()) == s,
{
    let n = rows.len();
    let once = draw_rows(s, ox, oy, rows, n);
    let twice = draw_rows(once, ox, oy, rows, n);
    lemma_pixel_after(s, ox, oy, rows, n, 0, 0);
    lemma_pixel_after(once, ox, oy, rows, n, 0, 0);
    assert forall|r: int, c: int| 0 <= r < SCREEN_HEIGHT && 0 <= c < SCREEN_WIDTH implies twice[r][c]
        == s[r][c] by {
        lemma_pixel_after(s, ox, oy, rows, n, r, c);
        lemma_pixel_after(once, ox, oy, rows, n, r, c);
    }
    assert(twice =~~= s);
}

/// While the sprite is drawn a second time, from row `j` on: by the time
/// the first `k` rows are done, either a collision has been seen, or an odd
/// number of on-bits that fall on the pixel are still to come. The pixel is
/// one that was off before the first draw and that an on-bit of row `j`
/// falls on.
proof fn lemma_second_draw_progress(
    s: Pixels,
    ox: int,
    oy: int,
    rows: Seq<u8>,
    j: int,
    r: int,
    c: int,
    k: nat,
)
    requires
        is_screen(s),
        0 <= r < SCREEN_HEIGHT,
        0 <= c < SCREEN_WIDTH,
        !s[r][c],
        0 <= j < k <= rows.len(),
        row_hits(ox, oy, rows, j, r, c),
    ensures
        rows_collide(draw_rows(s, ox, oy, rows, rows.len()), ox, oy, rows, k) || (flips(
            ox,
            oy,
            rows,
            rows.len(),
            r,
            c,
        ) ^ flips(ox, oy, rows, k, r, c)),
    decreases k,
{
    let n = rows.len();
    let once = draw_rows(s, ox, oy, rows, n);
    let before = (k - 1) as nat;
    lemma_pixel_after(s, ox, oy, rows, n, r, c);
    lemma_pixel_after(once, ox, oy, rows, before, r, c);
    if before > j {
        lemma_second_draw_progress(s, ox, oy, rows, j, r, c, before);
    }
    if row_hits(ox, oy, rows, before as int, r, c) && draw_rows(once, ox, oy, rows, before)[r][c] {
        reveal(row_collides);
        let bit = offset_from(ox, c);
        assert(bit_collides(
            draw_rows(once, ox, oy, rows, before),
            ox,
            target_row(oy, before as int),
            rows[before as int],
            bit,
        ));
    }
}

/// A second draw collides: where some on-bit of the sprite falls on a pixel
/// that was off before the first draw, drawing the sprite again at the same
/// place reports a collision. Bit `k` of row `j` is such a bit.
pub proof fn lemma_second_draw_collides(
    s: Pixels,
    ox: int,
    oy: int,
    rows: Seq<u8>,
    j: int,
    k: int,
)
    requires
        is_screen(s),
        0 <= j < rows.len(),
        0 <= k < 8,
        sprite_bit(rows[j], k),
        !s[target_row(oy, j)][(ox + k) % (SCREEN_WIDTH as int)],
    ensures
        rows_collide(draw_rows(s, ox, oy, rows, rows.len()), ox, oy, rows, rows.len()),
{
    let r = target_row(oy, j);
    let c = (ox + k) % (SCREEN_WIDTH as int);
    assert(offset_from(ox, c) == k);
    lemma_second_draw_progress(s, ox, oy, rows, j, r, c, rows.len());
}

} // verus!
