use vstd::prelude::*;

verus! {

pub const OPCODE_SYSTEM: usize = 0b1110011;
pub const FUNCT3_CSRRS: usize = 0b010;
pub const FUNCT3_CSRRW: usize = 0b001;
pub const FUNCT7_SRET: usize = 0b0001000;
pub const FUNCT7_MRET: usize = 0b0011000;
pub const FUNCT7_MNRET: usize = 0b0111000;
pub const RS2_TRAP_RETURN: usize = 0b00010;
pub const COMPRESSED_INSTRUCTION: usize = 0b01;

/// A raw 32-bit RISC-V instruction word.
pub struct Instruction(pub u32);


impl Instruction {
    pub open spec fn opcode(self) -> nat {
        (self.0 as nat) % 128
    }

    pub open spec fn rd(self) -> nat {
        ((self.0 as nat) / 128) % 32
    }

    pub open spec fn funct3(self) -> nat {
        ((self.0 as nat) / 4096) % 8
    }

    pub open spec fn rs1(self) -> nat {
        ((self.0 as nat) / 32768) % 32
    }

    pub open spec fn rs2(self) -> nat {
        ((self.0 as nat) / 1048576) % 32
    }

    pub open spec fn funct7(self) -> nat {
        (self.0 as nat) / 33554432
    }

    pub open spec fn funct12(self) -> nat {
        (self.0 as nat) / 1048576
    }

    pub open spec fn compression(self) -> nat {
        (self.0 as nat) % 4
    }

    pub fn new(instruction: u32) -> (r: Self)
        ensures
            r.0 == instruction,
    {
        Self(instruction)
    }

    /// Opcode field, bits 0..=6.
    pub fn get_opcode(&self) -> (r: usize)
        ensures
            r == self.opcode(),
    {
        let x = self.0;
        let v = x & 0x7f;
        assert(v == x % 128) by (bit_vector)
            requires
                v == x & 0x7f,
        ;
        v as usize
    }

    /// Destination register field, bits 7..=11.
    pub fn get_rd(&self) -> (r: usize)
        ensures
            r == self.rd(),
    {
        let x = self.0;
        let v = (x & (0x1fu32 << 7)) >> 7;
        assert(v == (x / 128) % 32) by (bit_vector)
            requires
                v == (x & (0x1fu32 << 7)) >> 7,
        ;
        v as usize
    }

    /// funct3 field, bits 12..=14.
    pub fn get_funct3(&self) -> (r: usize)
        ensures
            r == self.funct3(),
    {
        let x = self.0;
        let v = (x & (0x7u32 << 12)) >> 12;
        assert(v == (x / 4096) % 8) by (bit_vector)
            requires
                v == (x & (0x7u32 << 12)) >> 12,
        ;
        v as usize
    }

    /// First source register field, bits 15..=19.
    pub fn get_rs1(&self) -> (r: usize)
        ensures
            r == self.rs1(),
    {
        let x = self.0;
        let v = (x & (0x1fu32 << 15)) >> 15;
        assert(v == (x / 32768) % 32) by (bit_vector)
            requires
                v == (x & (0x1fu32 << 15)) >> 15,
        ;
        v as usize
    }

    /// Second source register field, bits 20..=24.
    pub fn get_rs2(&self) -> (r: usize)
        ensures
            r == self.rs2(),
    {
        let x = self.0;
        let v = (x & (0x1fu32 << 20)) >> 20;
        assert(v == (x / 1048576) % 32) by (bit_vector)
            requires
                v == (x & (0x1fu32 << 20)) >> 20,
        ;
        v as usize
    }

    /// funct7 field, bits 25..=31.
    pub fn get_funct7(&self) -> (r: usize)
        ensures
            r == self.funct7(),
    {
        let x = self.0;
        let v = (x & (0x7fu32 << 25)) >> 25;
        assert(v == x / 33554432) by (bit_vector)
            requires
                v == (x & (0x7fu32 << 25)) >> 25,
        ;
        v as usize
    }

    /// funct12 field (the CSR number of a CSR instruction), bits 20..=31.
    pub fn get_funct12(&self) -> (r: usize)
        ensures
            r == self.funct12(),
    {
        let x = self.0;
        let v = (x & (0xfffu32 << 20)) >> 20;
        assert(v == x / 1048576) by (bit_vector)
            requires
                v == (x & (0xfffu32 << 20)) >> 20,
        ;
        v as usize
    }

    /// The two low bits, which tell compressed encodings apart.
    pub fn get_compression(&mut self) -> (r: usize)
        ensures
            r == old(self).compression(),
            *final(self) == *old(self),
    {
        let x = self.0;
        let v = x & 0x3;
        assert(v == x % 4) by (bit_vector)
            requires
                v == x & 0x3,
        ;
        v as usize
    }

    pub fn is_valid_instruction(&mut self) -> (r: bool)
        ensures
            r == (old(self).0 != 0),
            *final(self) == *old(self),
    {
        self.0 != 0
    }

    pub fn is_csrrw_instruction(&self) -> (r: bool)
        ensures
            r == (self.opcode() == OPCODE_SYSTEM && self.funct3() == FUNCT3_CSRRW),
    {
        self.get_opcode() == OPCODE_SYSTEM && self.get_funct3() == FUNCT3_CSRRW
    }

    pub fn is_csrrs_instruction(&self) -> (r: bool)
        ensures
            r == (self.opcode() == OPCODE_SYSTEM && self.funct3() == FUNCT3_CSRRS),
    {
        self.get_opcode() == OPCODE_SYSTEM && self.get_funct3() == FUNCT3_CSRRS
    }

    pub fn is_sret(&self) -> (r: bool)
        ensures
            r == (self.opcode() == OPCODE_SYSTEM && self.rs2() == RS2_TRAP_RETURN
                && self.funct7() == FUNCT7_SRET),
    {
        self.get_opcode() == OPCODE_SYSTEM && self.get_rs2() == RS2_TRAP_RETURN
            && self.get_funct7() == FUNCT7_SRET
    }

    pub fn is_compression_instruction(&mut self) -> (r: bool)
        ensures
            r == (old(self).compression() == COMPRESSED_INSTRUCTION),
            *final(self) == *old(self),
    {
        let compression = self.get_compression();
        compression == COMPRESSED_INSTRUCTION
    }
}

} // verus!
