//! Interrupt vectors of the two chained programmable interrupt controllers.
use vstd::prelude::*;

verus! {

/// The vector of the first controller's line 0; its eight lines follow.
pub const PIC_1_OFFS: u8 = 32;

/// The vector of the second controller's line 0.
pub const PIC_2_OFFS: u8 = PIC_1_OFFS + 8;

/// The interrupts the kernel handles.
#[derive(Debug, Clone, Copy, PartialEq, Eq, Structural)]
pub enum InterruptIndex {
    Timer,
    Keyboard,
    Mouse,
}

/// The vector of each interrupt: timer and keyboard on the first
/// controller's lines 0 and 1, the mouse on the second controller's line 4.
pub open spec fn vector_of(i: InterruptIndex) -> u8 {
    match i {
        InterruptIndex::Timer => PIC_1_OFFS,
        InterruptIndex::Keyboard => (PIC_1_OFFS + 1) as u8,
        InterruptIndex::Mouse => (PIC_1_OFFS + 12) as u8,
    }
}

impl InterruptIndex {
    pub fn as_u8(self) -> (r: u8)
        ensures
            r == vector_of(self),
    {
        match self {
            InterruptIndex::Timer => PIC_1_OFFS,
            InterruptIndex::Keyboard => PIC_1_OFFS + 1,
            InterruptIndex::Mouse => PIC_1_OFFS + 12,
        }
    }

    pub fn as_usize(self) -> (r: usize)
        ensures
            r == vector_of(self) as usize,
    {
        self.as_u8() as usize
    }
}

} // verus!
