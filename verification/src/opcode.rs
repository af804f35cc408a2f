//! Decoding of 16-bit instruction words into their fields.

use vstd::prelude::*;

verus! {

/// The opcode class of a word: bits 15 to 12.
pub open spec fn word_id(raw: u16) -> u8 {
    ((raw & 0xF000) >> 12) as u8
}

/// The register index X of a word: bits 11 to 8.
pub open spec fn word_x(raw: u16) -> u8 {
    ((raw & 0x0F00) >> 8) as u8
}

/// The register index Y of a word: bits 7 to 4.
pub open spec fn word_y(raw: u16) -> u8 {
    ((raw & 0x00F0) >> 4) as u8
}

/// The immediate byte KK of a word: bits 7 to 0.
pub open spec fn word_kk(raw: u16) -> u8 {
    (raw & 0x00FF) as u8
}

/// The address NNN of a word: bits 11 to 0.
pub open spec fn word_nnn(raw: u16) -> u16 {
    raw & 0x0FFF
}

/// The low nibble N of a word: bits 3 to 0.
pub open spec fn word_n(raw: u16) -> u8 {
    (raw & 0x000F) as u8
}

/// Every field of a word lies in the range its width allows, and the fields
/// together determine the word.
pub proof fn lemma_word_fields(raw: u16)
    ensures
        word_id(raw) < 16,
        word_x(raw) < 16,
        word_y(raw) < 16,
        word_n(raw) < 16,
        word_nnn(raw) < 0x1000,
        word_id(raw) == raw / 0x1000,
        word_x(raw) == (raw / 0x100) % 16,
        word_y(raw) == (raw / 0x10) % 16,
        word_n(raw) == raw % 16,
        word_kk(raw) == raw % 0x100,
        word_nnn(raw) == raw % 0x1000,
        raw == word_id(raw) * 0x1000 + word_nnn(raw),
        word_nnn(raw) == word_x(raw) * 0x100 + word_kk(raw),
        word_kk(raw) == word_y(raw) * 0x10 + word_n(raw),
{
    assert(((raw & 0xF000) >> 12) < 16 && ((raw & 0xF000) >> 12) == raw / 0x1000) by (bit_vector);
    assert(((raw & 0x0F00) >> 8) < 16 && ((raw & 0x0F00) >> 8) == (raw / 0x100) % 16) by (bit_vector);
    assert(((raw & 0x00F0) >> 4) < 16 && ((raw & 0x00F0) >> 4) == (raw / 0x10) % 16) by (bit_vector);
    assert((raw & 0x000F) < 16 && (raw & 0x000F) == raw % 16) by (bit_vector);
    assert((raw & 0x00FF) < 256 && (raw & 0x00FF) == raw % 0x100) by (bit_vector);
    assert((raw & 0x0FFF) < 0x1000 && (raw & 0x0FFF) == raw % 0x1000) by (bit_vector);
}

/// The word whose high byte is `hi` and whose low byte is `lo`.
pub open spec fn word_of(hi: u8, lo: u8) -> u16 {
    ((hi as u16) << 8) | (lo as u16)
}

/// The high byte of a word.
pub open spec fn high_byte(raw: u16) -> u8 {
    ((raw & 0xFF00) >> 8) as u8
}

/// The low byte of a word.
pub open spec fn low_byte(raw: u16) -> u8 {
    (raw & 0x00FF) as u8
}

/// Splitting a word into bytes and joining them again gives the word back,
/// and the other way round.
pub proof fn lemma_word_bytes(raw: u16, hi: u8, lo: u8)
    ensures
        word_of(high_byte(raw), low_byte(raw)) == raw,
        high_byte(word_of(hi, lo)) == hi,
        low_byte(word_of(hi, lo)) == lo,
        word_of(hi, lo) == hi * 0x100 + lo,
{
    assert(((((raw & 0xFF00) >> 8) as u8 as u16) << 8) | ((raw & 0x00FF) as u8 as u16) == raw)
        by (bit_vector);
    assert((((((hi as u16) << 8) | (lo as u16)) & 0xFF00) >> 8) as u8 == hi) by (bit_vector);
    assert(((((hi as u16) << 8) | (lo as u16)) & 0x00FF) as u8 == lo) by (bit_vector);
    assert(((hi as u16) << 8) | (lo as u16) == (hi as u16) * 0x100 + (lo as u16)) by (bit_vector);
}

/// The fields of a word in terms of its two bytes: the class and X are the
/// nibbles of the high byte, Y and N those of the low byte, which is KK.
pub proof fn lemma_fields_of_bytes(hi: u8, lo: u8)
    ensures
        word_id(word_of(hi, lo)) == hi / 16,
        word_x(word_of(hi, lo)) == hi % 16,
        word_y(word_of(hi, lo)) == lo / 16,
        word_n(word_of(hi, lo)) == lo % 16,
        word_kk(word_of(hi, lo)) == lo,
        word_nnn(word_of(hi, lo)) == (hi % 16) * 0x100 + lo,
{
    let raw = word_of(hi, lo);
    lemma_word_bytes(raw, hi, lo);
    lemma_word_fields(raw);
}

/// A decoded instruction word.
#[derive(Debug)]
pub struct OpCode {
    inner: u16,
    id: u8,
    x: u8,
    y: u8,
    kk: u8,
    nnn: u16,
}

impl View for OpCode {
    type V = u16;

    /// An opcode stands for the word it was decoded from.
    closed spec fn view(&self) -> u16 {
        self.inner
    }
}

impl OpCode {
    /// The fields are those of the word held in `inner`.
    #[verifier::type_invariant]
    spec fn decoded(self) -> bool {
        &&& self.id == word_id(self.inner)
        &&& self.x == word_x(self.inner)
        &&& self.y == word_y(self.inner)
        &&& self.kk == word_kk(self.inner)
        &&& self.nnn == word_nnn(self.inner)
    }

    /// Decodes a word. Every word decodes.
    pub fn new(raw_opcode: u16) -> (op: Self)
        ensures
            op@ == raw_opcode,
    {
        Self {
            inner: raw_opcode,
            id: #[verifier::truncate]
            (((raw_opcode & 0xF000) >> 12) as u8),
            x: #[verifier::truncate]
            (((raw_opcode & 0x0F00) >> 8) as u8),
            y: #[verifier::truncate]
            (((raw_opcode & 0x00F0) >> 4) as u8),
            kk: #[verifier::truncate]
            ((raw_opcode & 0x00FF) as u8),
            nnn: (raw_opcode & 0x0FFF),
        }
    }

    /// The word this opcode was decoded from.
    pub fn raw(&self) -> (r: u16)
        ensures
            r == self@,
    {
        self.inner
    }

    /// The opcode class, below 16.
    pub fn id(&self) -> (r: u8)
        ensures
            r == word_id(self@),
            r < 16,
    {
        proof {
            use_type_invariant(self);
            lemma_word_fields(self.inner);
        }
        self.id
    }

    /// The register index X, below 16.
    pub fn x(&self) -> (r: u8)
        ensures
            r == word_x(self@),
            r < 16,
    {
        proof {
            use_type_invariant(self);
            lemma_word_fields(self.inner);
        }
        self.x
    }

    /// The register index Y, below 16.
    pub fn y(&self) -> (r: u8)
        ensures
            r == word_y(self@),
            r < 16,
    {
        proof {
            use_type_invariant(self);
            lemma_word_fields(self.inner);
        }
        self.y
    }

    /// The immediate byte KK.
    pub fn kk(&self) -> (r: u8)
        ensures
            r == word_kk(self@),
    {
        proof {
            use_type_invariant(self);
        }
        self.kk
    }

    /// The low nibble N, below 16.
    pub fn n(&self) -> (r: u8)
        ensures
            r == word_n(self@),
            r < 16,
    {
        proof {
            lemma_word_fields(self.inner);
        }
        #[verifier::truncate]
        ((self.inner & 0x000F) as u8)
    }

    /// The address NNN, below 0x1000.
    pub fn nnn(&self) -> (r: u16)
        ensures
            r == word_nnn(self@),
            r < 0x1000,
    {
        proof {
            use_type_invariant(self);
            lemma_word_fields(self.inner);
        }
        self.nnn
    }
}

} // verus!
