//! The machine's addressable memory.

use vstd::prelude::*;
use crate::fault::Fault;
use crate::opcode::{high_byte, low_byte};

verus! {

/// Size of the address space in bytes.
pub const MAX_MEM: usize = 0x1000;

/// First address a program occupies; everything below is reserved.
pub const PROGRAM_START_OFFSET: usize = 0x200;

/// Number of built-in digit glyphs.
pub const GLYPH_COUNT: usize = 16;

/// Rows in one glyph, one byte per row.
pub const GLYPH_ROWS: usize = 5;

/// Distance in memory between the first rows of two consecutive glyphs.
pub const GLYPH_STRIDE: usize = 0x10;

/// The rows of the sixteen hexadecimal digit glyphs. Only the high four bits
/// of a row are ever set.
pub const GLYPHS: [[u8; 5]; 16] = [
    [0xF0, 0x90, 0x90, 0x90, 0xF0],
    [0x20, 0x60, 0x20, 0x20, 0x70],
    [0xF0, 0x10, 0xF0, 0x80, 0xF0],
    [0xF0, 0x10, 0xF0, 0x10, 0xF0],
    [0x90, 0x90, 0xF0, 0x10, 0x10],
    [0xF0, 0x80, 0xF0, 0x10, 0xF0],
    [0xF0, 0x80, 0xF0, 0x90, 0xF0],
    [0xF0, 0x10, 0x20, 0x40, 0x40],
    [0xF0, 0x90, 0xF0, 0x90, 0xF0],
    [0xF0, 0x90, 0xF0, 0x10, 0xF0],
    [0xF0, 0x90, 0xF0, 0x90, 0x90],
    [0xE0, 0x90, 0xE0, 0x90, 0xE0],
    [0xF0, 0x80, 0x80, 0x80, 0xF0],
    [0xE0, 0x90, 0x90, 0x90, 0xE0],
    [0xF0, 0x80, 0xF0, 0x80, 0xF0],
    [0xF0, 0x80, 0xF0, 0x80, 0x80],
];

/// Only the high four bits of a glyph's row are significant: the low four
/// are zero in every row of every glyph.
pub proof fn lemma_glyph_rows_are_four_bits_wide(d: int, r: int)
    requires
        0 <= d < GLYPH_COUNT,
        0 <= r < GLYPH_ROWS,
    ensures
        GLYPHS[d][r] % 16 == 0,
{
}

/// The whole address space.
#[derive(Debug)]
pub struct Memory {
    pub data: [u8; MAX_MEM],
}

impl View for Memory {
    type V = Seq<u8>;

    /// Memory is the sequence of its 4096 bytes.
    open spec fn view(&self) -> Seq<u8> {
        self.data@
    }
}

impl Memory {
    /// A memory with every byte zero.
    pub fn initialise() -> (memory: Self)
        ensures
            memory@.len() == MAX_MEM,
            forall|a: int| 0 <= a < MAX_MEM ==> memory@[a] == 0,
    {
        Memory { data: [0; MAX_MEM] }
    }

    /// Reads the byte at `index`, which must lie in program memory: at or
    /// above the program start and below the end of the address space.
    pub fn get(&self, index: usize) -> (r: Result<u8, Fault>)
        ensures
            PROGRAM_START_OFFSET <= index < MAX_MEM ==> r == Ok::<u8, Fault>(self@[index as int]),
            !(PROGRAM_START_OFFSET <= index < MAX_MEM) ==> r == Err::<u8, Fault>(Fault::OutOfBounds),
    {
        if index >= MAX_MEM || index < PROGRAM_START_OFFSET {
            return Err(Fault::OutOfBounds);
        }
        Ok(self.data[index])
    }

    /// Stores `val` at `index`. Any address of the address space may be
    /// written, the reserved region included; an address beyond it is
    /// refused and memory stays as it was.
    pub fn write(&mut self, index: usize, val: u8) -> (r: Result<(), Fault>)
        ensures
            index < MAX_MEM ==> r.is_ok() && final(self)@ == old(self)@.update(index as int, val),
            index >= MAX_MEM ==> r == Err::<(), Fault>(Fault::OutOfBounds) && final(self)@ == old(self)@,
    {
        if index >= MAX_MEM {
            return Err(Fault::OutOfBounds);
        }
        self.data[index] = val;
        Ok(())
    }

    /// A memory that holds a program image from the program start on. The
    /// part of the image that does not fit is left out; every byte that the
    /// image does not reach is zero.
    pub fn load(image: &[u8]) -> (memory: Self)
        ensures
            memory@.len() == MAX_MEM,
            forall|a: int|
                0 <= a < MAX_MEM ==> memory@[a] == (if PROGRAM_START_OFFSET <= a
                    < PROGRAM_START_OFFSET + image@.len() {
                    image@[a - PROGRAM_START_OFFSET]
                } else {
                    0u8
                }),
    {
        let mut memory = Self::initialise();
        let mut i: usize = 0;
        while i < image.len() && i < MAX_MEM - PROGRAM_START_OFFSET
            invariant
                i <= image@.len(),
                i <= MAX_MEM - PROGRAM_START_OFFSET,
                memory@.len() == MAX_MEM,
                forall|a: int|
                    0 <= a < MAX_MEM ==> memory@[a] == (if PROGRAM_START_OFFSET <= a
                        < PROGRAM_START_OFFSET + i {
                        image@[a - PROGRAM_START_OFFSET]
                    } else {
                        0u8
                    }),
            decreases image@.len() - i,
        {
            memory.data[PROGRAM_START_OFFSET + i] = image[i];
            i += 1;
        }
        memory
    }

    /// Stores an instruction word at `index`, high byte first. Both bytes
    /// must fall inside the address space, or nothing is written.
    pub fn insert_instruction(&mut self, index: usize, ins: u16) -> (r: Result<(), Fault>)
        ensures
            index + 1 < MAX_MEM ==> r.is_ok() && final(self)@ == old(self)@.update(
                index as int,
                high_byte(ins),
            ).update(index + 1, low_byte(ins)),
            index + 1 >= MAX_MEM ==> r == Err::<(), Fault>(Fault::OutOfBounds) && final(self)@ == old(
                self,
            )@,
    {
        if index >= MAX_MEM - 1 {
            return Err(Fault::OutOfBounds);
        }
        self.data[index] = ((ins & 0xFF00) >> 8) as u8;
        self.data[index + 1] = (ins & 0x00FF) as u8;
        Ok(())
    }

    /// Installs the digit glyphs in the reserved region: glyph `d` occupies
    /// the five bytes from `d * 0x10`. Every other byte keeps its value.
    pub fn setup_digit_sprites(&mut self)
        ensures
            final(self)@.len() == MAX_MEM,
            forall|d: int, r: int| 0 <= d < GLYPH_COUNT && 0 <= r < GLYPH_ROWS
                ==> final(self)@[d * GLYPH_STRIDE + r] == GLYPHS[d][r],
            forall|a: int| 0 <= a < MAX_MEM && !(a / (GLYPH_STRIDE as int) < GLYPH_COUNT && a % (GLYPH_STRIDE as int) < GLYPH_ROWS)
                ==> final(self)@[a] == old(self)@[a],
    {
        let mut d: usize = 0;
        while d < GLYPH_COUNT
            invariant
                d <= GLYPH_COUNT,
                forall|e: int, r: int| 0 <= e < d && 0 <= r < GLYPH_ROWS
                    ==> self@[e * GLYPH_STRIDE + r] == GLYPHS[e][r],
                forall|a: int| 0 <= a < MAX_MEM && !(a / (GLYPH_STRIDE as int) < GLYPH_COUNT && a % (GLYPH_STRIDE as int) < GLYPH_ROWS)
                    ==> self@[a] == old(self)@[a],
            decreases GLYPH_COUNT - d,
        {
            let mut r: usize = 0;
            while r < GLYPH_ROWS
                invariant
                    d < GLYPH_COUNT,
                    r <= GLYPH_ROWS,
                    forall|e: int, q: int| 0 <= e < d && 0 <= q < GLYPH_ROWS
                        ==> self@[e * GLYPH_STRIDE + q] == GLYPHS[e][q],
                    forall|q: int| 0 <= q < r ==> self@[d * GLYPH_STRIDE + q] == GLYPHS[d as int][q],
                    forall|a: int| 0 <= a < MAX_MEM && !(a / (GLYPH_STRIDE as int) < GLYPH_COUNT && a % (GLYPH_STRIDE as int) < GLYPH_ROWS)
                        ==> self@[a] == old(self)@[a],
                decreases GLYPH_ROWS - r,
            {
                self.data[d * GLYPH_STRIDE + r] = GLYPHS[d][r];
                r += 1;
            }
            d += 1;
        }
    }
}

} // verus!
