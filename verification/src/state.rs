use vstd::prelude::*;

use crate::{FONT_BYTES, NUM_KEYS, NUM_REGS, RAM_SIZE, SCREEN_HEIGHT, SCREEN_WIDTH, STACK_DEPTH,
    START_ADDR};

verus! {

/// Mathematical model of the whole machine: every contract of the library is
/// stated over values of this type.
#[verifier::ext_equal]
pub ghost struct MachineView {
    /// Program counter: address of the next instruction to fetch.
    pub pc: u16,
    /// Stack pointer: number of return addresses currently on the call stack.
    pub sp: u16,
    /// The 4096 bytes of memory.
    pub ram: Seq<u8>,
    /// The 64 x 32 framebuffer, row-major; true means the pixel is lit.
    pub screen: Seq<bool>,
    /// The sixteen general-purpose registers V0..VF.
    pub v_registers: Seq<u8>,
    /// The 16-bit index register used as a memory address base.
    pub i_register: u16,
    /// The sixteen call-stack slots; only the first `sp` hold live return addresses.
    pub stack: Seq<u16>,
    /// Sound countdown timer.
    pub sound_timer: u8,
    /// Delay countdown timer.
    pub delay_timer: u8,
    /// Key-held state of the sixteen keys.
    pub keys: Seq<bool>,
}

impl MachineView {
    /// Structural invariant: the fixed sizes of the state arrays, and the stack
    /// pointer never past the stack's capacity.
    pub open spec fn wf(self) -> bool {
        &&& self.ram.len() == RAM_SIZE
        &&& self.screen.len() == SCREEN_WIDTH * SCREEN_HEIGHT
        &&& self.v_registers.len() == NUM_REGS
        &&& self.stack.len() == STACK_DEPTH
        &&& self.keys.len() == NUM_KEYS
        &&& self.sp <= STACK_DEPTH
    }

    /// The constructed state: program counter at the load address, font in the
    /// low memory bytes, everything else zeroed, blank screen, no keys held.
    pub open spec fn initial() -> MachineView {
        MachineView {
            pc: START_ADDR,
            sp: 0,
            ram: Seq::new(RAM_SIZE as nat, |j: int| if j < FONT_BYTES { font()[j] } else { 0u8 }),
            screen: Seq::new((SCREEN_WIDTH * SCREEN_HEIGHT) as nat, |j: int| false),
            v_registers: Seq::new(NUM_REGS as nat, |j: int| 0u8),
            i_register: 0,
            stack: Seq::new(STACK_DEPTH as nat, |j: int| 0u16),
            sound_timer: 0,
            delay_timer: 0,
            keys: Seq::new(NUM_KEYS as nat, |j: int| false),
        }
    }
}

/// The built-in bitmap font: one five-byte glyph for each hexadecimal digit,
/// glyph `d` starting at byte `5 * d`.
pub open spec fn font() -> Seq<u8> {
    seq![
        0xF0u8, 0x90, 0x90, 0x90, 0xF0, // 0
        0x20, 0x60, 0x20, 0x20, 0x70, // 1
        0xF0, 0x10, 0xF0, 0x80, 0xF0, // 2
        0xF0, 0x10, 0xF0, 0x10, 0xF0, // 3
        0x90, 0x90, 0xF0, 0x10, 0x10, // 4
        0xF0, 0x80, 0xF0, 0x10, 0xF0, // 5
        0xF0, 0x80, 0xF0, 0x90, 0xF0, // 6
        0xF0, 0x10, 0x20, 0x40, 0x40, // 7
        0xF0, 0x90, 0xF0, 0x90, 0xF0, // 8
        0xF0, 0x90, 0xF0, 0x10, 0xF0, // 9
        0xF0, 0x90, 0xF0, 0x90, 0x90, // A
        0xE0, 0x90, 0xE0, 0x90, 0xE0, // B
        0xF0, 0x80, 0x80, 0x80, 0xF0, // C
        0xE0, 0x90, 0x90, 0x90, 0xE0, // D
        0xF0, 0x80, 0xF0, 0x80, 0xF0, // E
        0xF0, 0x80, 0xF0, 0x80, 0x80, // F
    ]
}

} // verus!
