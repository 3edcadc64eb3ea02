//! The register file.

use vstd::prelude::*;

verus! {

/// The registers of the machine: sixteen general-purpose bytes V0 to VF, the
/// index register and the program counter.
#[derive(Debug)]
pub struct Registers {
    /// General-purpose registers. VF doubles as the flag register.
    pub general: [u8; 16],
    /// Index register, used for addressing memory.
    pub index: u16,
    /// Program counter: the address of the instruction to execute next.
    pub program_counter: u16,
}

impl Registers {
    /// All registers zero, the program counter at the start of program memory.
    pub fn new() -> (registers: Registers)
        ensures
            registers.general@ == Seq::new(16, |i: int| 0u8),
            registers.index == 0,
            registers.program_counter == crate::PROGRAM_START,
    {
        let registers = Registers { general: [0; 16], index: 0, program_counter: 0x200 };
        assert(registers.general@ =~= Seq::new(16, |i: int| 0u8));
        registers
    }

    /// Sets the register `id` to `value`.
    pub fn set(&mut self, id: u8, value: u8)
        requires
            id < 16,
        ensures
            final(self).general@ == old(self).general@.update(id as int, value),
            final(self).index == old(self).index,
            final(self).program_counter == old(self).program_counter,
    {
        self.general[id as usize] = value;
    }

    /// Returns the value of the register `id`.
    pub fn get(&self, id: u8) -> (value: u8)
        requires
            id < 16,
        ensures
            value == self.general@[id as int],
    {
        self.general[id as usize]
    }

    /// Returns the general-purpose registers.
    pub fn get_registers(&self) -> (general: &[u8; 16])
        ensures
            *general == self.general,
    {
        &self.general
    }

    /// Returns the general-purpose registers for writing.
    pub fn get_mut_registers(&mut self) -> (general: &mut [u8; 16])
        ensures
            *general == old(self).general,
            final(self).general == *final(general),
            final(self).index == old(self).index,
            final(self).program_counter == old(self).program_counter,
    {
        &mut self.general
    }

    /// Returns the value of the register `id`, widened to 16 bits.
    pub fn get_u16(&self, id: u8) -> (value: u16)
        requires
            id < 16,
        ensures
            value == self.general@[id as int],
    {
        self.get(id) as u16
    }
}

} // verus!
