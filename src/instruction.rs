use vstd::prelude::*;

verus! {

/// The primary opcode: the top nibble of an instruction word.
pub open spec fn op_code_of(w: u16) -> int {
    w as int / 0x1000
}

/// The second nibble, a register index.
pub open spec fn x_of(w: u16) -> int {
    (w as int / 0x100) % 0x10
}

/// The third nibble, a register index.
pub open spec fn y_of(w: u16) -> int {
    (w as int / 0x10) % 0x10
}

/// The bottom nibble.
pub open spec fn n_of(w: u16) -> int {
    w as int % 0x10
}

/// The bottom byte.
pub open spec fn nn_of(w: u16) -> int {
    w as int % 0x100
}

/// The bottom twelve bits, an address.
pub open spec fn nnn_of(w: u16) -> int {
    w as int % 0x1000
}

/// One 16-bit instruction word; its fields are recomputed on each request.
#[derive(Clone, Copy, Debug, PartialEq, Eq, Structural)]
pub struct Instruction {
    pub instruction: u16,
}

impl Instruction {
    pub fn new(instruction: u16) -> (r: Self)
        ensures
            r.instruction == instruction,
    {
        Self { instruction }
    }

    pub fn op_code(&self) -> (r: u8)
        ensures
            r as int == op_code_of(self.instruction),
    {
        let w = self.instruction;
        assert((0xF000u16 & w) >> 12u16 == w / 0x1000) by (bit_vector);
        ((0xF000 & w) >> 12) as u8
    }

    pub fn x(&self) -> (r: usize)
        ensures
            r as int == x_of(self.instruction),
            r < 16,
    {
        let w = self.instruction;
        assert((w & 0x0F00u16) >> 8u16 == (w / 0x100) % 0x10) by (bit_vector);
        ((w & 0x0F00) >> 8) as usize
    }

    pub fn y(&self) -> (r: usize)
        ensures
            r as int == y_of(self.instruction),
            r < 16,
    {
        let w = self.instruction;
        assert((w & 0x00F0u16) >> 4u16 == (w / 0x10) % 0x10) by (bit_vector);
        ((w & 0x00F0) >> 4) as usize
    }

    pub fn xy(&self) -> (r: [usize; 2])
        ensures
            r[0] as int == x_of(self.instruction),
            r[1] as int == y_of(self.instruction),
            r[0] < 16,
            r[1] < 16,
    {
        [self.x(), self.y()]
    }

    pub fn n(&self) -> (r: u8)
        ensures
            r as int == n_of(self.instruction),
    {
        let w = self.instruction;
        assert(w & 0xFu16 == w % 0x10) by (bit_vector);
        (w & 0xF) as u8
    }

    pub fn nn(&self) -> (r: u8)
        ensures
            r as int == nn_of(self.instruction),
    {
        let w = self.instruction;
        assert(w & 0x00FFu16 == w % 0x100) by (bit_vector);
        (w & 0x00FF) as u8
    }

    pub fn nnn(&self) -> (r: u16)
        ensures
            r as int == nnn_of(self.instruction),
    {
        let w = self.instruction;
        assert(w & 0x0FFFu16 == w % 0x1000) by (bit_vector);
        w & 0x0FFF
    }
}

} // verus!
