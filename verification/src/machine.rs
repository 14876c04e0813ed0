use vstd::prelude::*;

use crate::error::Chip8Error;
use crate::instr::{decode, spec_decode, Instr};
use crate::semantics::{
    draw_screen, hits_lit_upto, flips_pixel_upto, last_key_below, lemma_draw_scan_row,
    lemma_draw_scan_step, lemma_draw_scan_zero, lemma_draw_target_bounds, opcode_at, spec_execute,
    spec_step, wrap_add_u16, wrap_add_u8, wrap_sub_u8,
};
use crate::state::{font, MachineView};
use crate::{FONT_BYTES, NUM_KEYS, NUM_REGS, RAM_SIZE, SCREEN_HEIGHT, SCREEN_WIDTH, STACK_DEPTH,
    START_ADDR};

verus! {

/// Relies on fastrand::u8 over the full byte range: some byte comes back;
/// nothing is assumed about which one.
#[verifier::external_body]
fn random_byte() -> u8 {
    fastrand::u8(..)
}

/// The CHIP-8 machine: memory, registers, call stack, framebuffer, keys and
/// timers, driven one instruction at a time. Its abstract value is a
/// `MachineView`; every operation states its exact effect on that view.
pub struct Emulator {
    pc: u16,
    sp: u16,
    ram: [u8; RAM_SIZE],
    screen: [bool; 2048],
    v_registers: [u8; NUM_REGS],
    i_register: u16,
    stack: [u16; STACK_DEPTH],
    sound_timer: u8,
    delay_timer: u8,
    keys: [bool; NUM_KEYS],
}

impl View for Emulator {
    type V = MachineView;

    closed spec fn view(&self) -> MachineView {
        MachineView {
            pc: self.pc,
            sp: self.sp,
            ram: self.ram@,
            screen: self.screen@,
            v_registers: self.v_registers@,
            i_register: self.i_register,
            stack: self.stack@,
            sound_timer: self.sound_timer,
            delay_timer: self.delay_timer,
            keys: self.keys@,
        }
    }
}

impl Emulator {
    /// The font bitmap as a table in memory order.
    fn font_table() -> (r: [u8; FONT_BYTES])
        ensures
            r@ == font(),
    {
        let f: [u8; FONT_BYTES] = [
            0xF0, 0x90, 0x90, 0x90, 0xF0, // 0
            0x20, 0x60, 0x20, 0x20, 0x70, // 1
            0xF0, 0x10, 0xF0, 0x80, 0xF0, // 2
            0xF0, 0x10, 0xF0, 0x10, 0xF0, // 3
            0x90, 0x90, 0xF0, 0x10, 0x10, // 4
            0xF0, 0x80, 0xF0, 0x10, 0xF0, // 5
            0xF0, 0x80, 0xF0, 0x90, 0xF0, // 6
            0xF0, 0x10, 0x20, 0x40, 0x40, // 7
            0xF0, 0x90, 0xF0, 0x90, 0xF0, // 8
            0xF0, 0x90, 0xF0, 0x10, 0xF0, // 9
            0xF0, 0x90, 0xF0, 0x90, 0x90, // A
            0xE0, 0x90, 0xE0, 0x90, 0xE0, // B
            0xF0, 0x80, 0x80, 0x80, 0xF0, // C
            0xE0, 0x90, 0x90, 0x90, 0xE0, // D
            0xF0, 0x80, 0xF0, 0x80, 0xF0, // E
            0xF0, 0x80, 0xF0, 0x80, 0x80, // F
        ];
        proof {
            assert(f@ =~= font());
        }
        f
    }

    /// Copies the font bitmap into the low bytes of memory.
    fn write_font(&mut self)
        ensures
            final(self)@ == (MachineView { ram: final(self)@.ram, ..old(self)@ }),
            forall|j: int| 0 <= j < FONT_BYTES ==> final(self)@.ram[j] == font()[j],
            forall|j: int| FONT_BYTES <= j < RAM_SIZE ==> final(self)@.ram[j] == old(self)@.ram[j],
    {
        let f = Self::font_table();
        let mut k: usize = 0;
        while k < FONT_BYTES
            invariant
                k <= FONT_BYTES,
                f@ == font(),
                self@ == (MachineView { ram: self@.ram, ..old(self)@ }),
                forall|j: int| 0 <= j < k ==> self@.ram[j] == font()[j],
                forall|j: int| k <= j < RAM_SIZE ==> self@.ram[j] == old(self)@.ram[j],
            decreases FONT_BYTES - k,
        {
            self.ram[k] = f[k];
            k += 1;
        }
    }

    /// A machine in the constructed state: program counter at the load
    /// address, font in low memory, all else zeroed, screen blank, no keys
    /// held.
    pub fn new() -> (r: Emulator)
        ensures
            r@ == MachineView::initial(),
            r@.wf(),
    {
        let mut e = Emulator {
            pc: START_ADDR,
            sp: 0,
            ram: [0u8; 4096],
            screen: [false; 2048],
            v_registers: [0u8; 16],
            i_register: 0,
            stack: [0u16; 16],
            sound_timer: 0,
            delay_timer: 0,
            keys: [false; 16],
        };
        e.write_font();
        proof {
            assert(e@ =~~= MachineView::initial());
        }
        e
    }

    /// Returns the machine to exactly the constructed state, whatever has
    /// happened to it since.
    pub fn reset(&mut self)
        ensures
            final(self)@ == MachineView::initial(),
            final(self)@.wf(),
    {
        self.pc = START_ADDR;
        self.ram = [0u8; 4096];
        self.screen = [false; 2048];
        self.v_registers = [0u8; 16];
        self.i_register = 0;
        self.sp = 0;
        self.stack = [0u16; 16];
        self.sound_timer = 0;
        self.delay_timer = 0;
        self.keys = [false; 16];
        self.write_font();
        proof {
            assert(self@ =~~= MachineView::initial());
        }
    }

    /// Read-only access to the framebuffer, row-major, 64 x 32 cells.
    pub fn get_display(&self) -> (r: &[bool])
        ensures
            r@ == self@.screen,
    {
        &self.screen
    }

    /// Records key `idx` as held or released.
    pub fn keypress(&mut self, idx: usize, pressed: bool)
        requires
            idx < NUM_KEYS,
        ensures
            final(self)@ == (MachineView {
                keys: old(self)@.keys.update(idx as int, pressed),
                ..old(self)@
            }),
    {
        self.keys[idx] = pressed;
    }

    /// Copies a program into memory at the load address. Fails, changing
    /// nothing, exactly when the program is longer than the memory past the
    /// load address can hold.
    pub fn load(&mut self, data: &[u8]) -> (r: Result<(), Chip8Error>)
        ensures
            match r {
                Ok(()) => data@.len() <= RAM_SIZE - START_ADDR && final(self)@ == (MachineView {
                    ram: Seq::new(
                        RAM_SIZE as nat,
                        |j: int|
                            if START_ADDR <= j < START_ADDR + data@.len() {
                                data@[j - START_ADDR]
                            } else {
                                old(self)@.ram[j]
                            },
                    ),
                    ..old(self)@
                }),
                Err(e) => data@.len() > RAM_SIZE - START_ADDR && e == Chip8Error::ProgramTooLarge(
                    data@.len() as usize,
                ) && final(self)@ == old(self)@,
            },
    {
        if data.len() > RAM_SIZE - (START_ADDR as usize) {
            return Err(Chip8Error::ProgramTooLarge(data.len()));
        }
        let mut k: usize = 0;
        while k < data.len()
            invariant
                k <= data@.len(),
                data@.len() <= RAM_SIZE - START_ADDR,
                self@ == (MachineView { ram: self@.ram, ..old(self)@ }),
                forall|j: int|
                    START_ADDR <= j < START_ADDR + k ==> self@.ram[j] == data@[j - START_ADDR],
                forall|j: int| 0 <= j < START_ADDR ==> self@.ram[j] == old(self)@.ram[j],
                forall|j: int|
                    START_ADDR + k <= j < RAM_SIZE ==> self@.ram[j] == old(self)@.ram[j],
            decreases data@.len() - k,
        {
            self.ram[START_ADDR as usize + k] = data[k];
            k += 1;
        }
        proof {
            assert(self@.ram =~= Seq::new(
                RAM_SIZE as nat,
                |j: int|
                    if START_ADDR <= j < START_ADDR + data@.len() {
                        data@[j - START_ADDR]
                    } else {
                        old(self)@.ram[j]
                    },
            ));
        }
        Ok(())
    }

    /// Decrements each timer that is nonzero; a timer at zero stays at zero.
    pub fn tick_timers(&mut self)
        ensures
            final(self)@ == (MachineView {
                delay_timer: if old(self)@.delay_timer > 0 {
                    (old(self)@.delay_timer - 1) as u8
                } else {
                    0u8
                },
                sound_timer: if old(self)@.sound_timer > 0 {
                    (old(self)@.sound_timer - 1) as u8
                } else {
                    0u8
                },
                ..old(self)@
            }),
    {
        if self.delay_timer > 0 {
            self.delay_timer = self.delay_timer - 1;
        }
        if self.sound_timer > 0 {
            self.sound_timer = self.sound_timer - 1;
        }
    }

    /// The program counter.
    pub fn program_counter(&self) -> (r: u16)
        ensures
            r == self@.pc,
    {
        self.pc
    }

    /// The value of general-purpose register `idx`.
    pub fn register(&self, idx: usize) -> (r: u8)
        requires
            idx < NUM_REGS,
        ensures
            r == self@.v_registers[idx as int],
    {
        self.v_registers[idx]
    }

    /// The index register.
    pub fn index_register(&self) -> (r: u16)
        ensures
            r == self@.i_register,
    {
        self.i_register
    }

    /// How many calls are outstanding on the call stack.
    pub fn stack_depth(&self) -> (r: u16)
        ensures
            r == self@.sp,
    {
        self.sp
    }

    /// The delay timer.
    pub fn delay_timer(&self) -> (r: u8)
        ensures
            r == self@.delay_timer,
    {
        self.delay_timer
    }

    /// The sound timer.
    pub fn sound_timer(&self) -> (r: u8)
        ensures
            r == self@.sound_timer,
    {
        self.sound_timer
    }

    /// The byte of memory at `addr`.
    pub fn memory_byte(&self, addr: usize) -> (r: u8)
        requires
            addr < RAM_SIZE,
        ensures
            r == self@.ram[addr as int],
    {
        self.ram[addr]
    }

    /// Whether key `idx` is currently held.
    pub fn key(&self, idx: usize) -> (r: bool)
        requires
            idx < NUM_KEYS,
        ensures
            r == self@.keys[idx as int],
    {
        self.keys[idx]
    }

    /// Pushes a return address onto the call stack.
    fn push(&mut self, val: u16)
        requires
            old(self)@.wf(),
            old(self)@.sp < STACK_DEPTH,
        ensures
            final(self)@ == (MachineView {
                stack: old(self)@.stack.update(old(self)@.sp as int, val),
                sp: (old(self)@.sp + 1) as u16,
                ..old(self)@
            }),
    {
        self.stack[self.sp as usize] = val;
        self.sp = self.sp + 1;
    }

    /// Pops the most recent return address off the call stack.
    fn pop(&mut self) -> (r: u16)
        requires
            old(self)@.wf(),
            old(self)@.sp > 0,
        ensures
            r == old(self)@.stack[old(self)@.sp - 1],
            final(self)@ == (MachineView { sp: (old(self)@.sp - 1) as u16, ..old(self)@ }),
    {
        self.sp = self.sp - 1;
        self.stack[self.sp as usize]
    }

    /// Reads the two bytes at the program counter as one big-endian opcode
    /// word and advances the program counter past them.
    fn fetch(&mut self) -> (op: u16)
        requires
            old(self)@.pc as int + 1 < RAM_SIZE,
        ensures
            op == opcode_at(old(self)@),
            final(self)@ == (MachineView { pc: (old(self)@.pc + 2) as u16, ..old(self)@ }),
    {
        let hi = self.ram[self.pc as usize] as u16;
        let lo = self.ram[self.pc as usize + 1] as u16;
        let op = (hi << 8u16) | lo;
        self.pc = self.pc + 2;
        op
    }

    /// One fetch-decode-execute cycle: the machine moves to exactly the state
    /// `spec_step` prescribes for some byte of randomness, and on a fatal
    /// condition reports it and is left unchanged.
    pub fn tick(&mut self) -> (r: Result<(), Chip8Error>)
        requires
            old(self)@.wf(),
        ensures
            final(self)@.wf(),
            match r {
                Ok(()) => exists|b: u8|
                    spec_step(old(self)@, b) == Ok::<MachineView, Chip8Error>(final(self)@),
                Err(e) => final(self)@ == old(self)@ && exists|b: u8|
                    spec_step(old(self)@, b) == Err::<MachineView, Chip8Error>(e),
            },
    {
        let pc0 = self.pc;
        if (pc0 as usize) + 1 >= RAM_SIZE {
            proof {
                assert(spec_step(old(self)@, 0u8) == Err::<MachineView, Chip8Error>(
                    Chip8Error::PcOutOfRange(pc0),
                ));
            }
            return Err(Chip8Error::PcOutOfRange(pc0));
        }
        let op = self.fetch();
        let rand = if (op >> 12u16) == 0xC {
            random_byte()
        } else {
            0
        };
        let res = self.execute(op, rand);
        match res {
            Ok(()) => {
                proof {
                    assert(spec_step(old(self)@, rand) == Ok::<MachineView, Chip8Error>(self@));
                }
                Ok(())
            },
            Err(e) => {
                self.pc = pc0;
                proof {
                    assert(self@ =~~= old(self)@);
                    assert(spec_step(old(self)@, rand) == Err::<MachineView, Chip8Error>(e));
                }
                Err(e)
            },
        }
    }

    /// Looks the opcode up in the dispatch table and executes it; an opcode
    /// matching no instruction is fatal and changes nothing.
    fn execute(&mut self, op: u16, rand: u8) -> (r: Result<(), Chip8Error>)
        requires
            old(self)@.wf(),
            2 <= old(self)@.pc,
            old(self)@.pc <= RAM_SIZE,
        ensures
            final(self)@.wf(),
            match r {
                Ok(()) => spec_decode(op) matches Some(i) && spec_execute(old(self)@, i, rand)
                    == Ok::<MachineView, Chip8Error>(final(self)@),
                Err(e) => final(self)@ == old(self)@ && match spec_decode(op) {
                    None => e == Chip8Error::UndefinedOpcode(op),
                    Some(i) => spec_execute(old(self)@, i, rand) == Err::<
                        MachineView,
                        Chip8Error,
                    >(e),
                },
            },
    {
        match decode(op) {
            None => Err(Chip8Error::UndefinedOpcode(op)),
            Some(instr) => self.apply(instr, rand),
        }
    }

    /// Carries out one decoded instruction: the machine moves to exactly the
    /// state `spec_execute` prescribes, or reports the fatal condition and is
    /// left unchanged.
    #[verifier::rlimit(100)]
    fn apply(&mut self, instr: Instr, rand: u8) -> (r: Result<(), Chip8Error>)
        requires
            old(self)@.wf(),
            instr.wf(),
            2 <= old(self)@.pc,
            old(self)@.pc <= RAM_SIZE,
        ensures
            final(self)@.wf(),
            match r {
                Ok(()) => spec_execute(old(self)@, instr, rand) == Ok::<
                    MachineView,
                    Chip8Error,
                >(final(self)@),
                Err(e) => final(self)@ == old(self)@ && spec_execute(old(self)@, instr, rand)
                    == Err::<MachineView, Chip8Error>(e),
            },
    {
        match instr {
            Instr::Draw { x, y, h } => self.draw(x, y, h, Ghost(instr), Ghost(rand)),
            Instr::WaitKey { x } => self.wait_key(x, Ghost(instr), Ghost(rand)),
            Instr::StoreRegs { x } => self.store_regs(x, Ghost(instr), Ghost(rand)),
            Instr::LoadRegs { x } => self.load_regs(x, Ghost(instr), Ghost(rand)),
            Instr::Nop | Instr::Clear | Instr::Ret | Instr::Jump { .. } | Instr::Call { .. }
            | Instr::SkipEqImm { .. } | Instr::SkipNeImm { .. } | Instr::SkipEqReg { .. }
            | Instr::SkipNeReg { .. } | Instr::JumpOffset { .. } | Instr::SkipKeyDown { .. }
            | Instr::SkipKeyUp { .. } => self.apply_flow(instr, rand),
            Instr::LoadImm { .. } | Instr::AddImm { .. } | Instr::Move { .. } | Instr::Or { .. }
            | Instr::And { .. } | Instr::Xor { .. } | Instr::Add { .. } | Instr::Sub { .. }
            | Instr::ShiftRight { .. } | Instr::RevSub { .. } | Instr::ShiftLeft { .. }
            | Instr::RandomAnd { .. } | Instr::ReadDelay { .. } => self.apply_alu(instr, rand),
            _ => self.apply_misc(instr, rand),
        }
    }

    /// The control-flow instructions: jumps, calls, returns and skips.
    fn apply_flow(&mut self, instr: Instr, rand: u8) -> (r: Result<(), Chip8Error>)
        requires
            old(self)@.wf(),
            instr.wf(),
            2 <= old(self)@.pc,
            old(self)@.pc <= RAM_SIZE,
            instr is Nop || instr is Clear || instr is Ret || instr is Jump || instr is Call
                || instr is SkipEqImm || instr is SkipNeImm || instr is SkipEqReg || instr is
                SkipNeReg || instr is JumpOffset || instr is SkipKeyDown || instr is SkipKeyUp,
        ensures
            final(self)@.wf(),
            match r {
                Ok(()) => spec_execute(old(self)@, instr, rand) == Ok::<
                    MachineView,
                    Chip8Error,
                >(final(self)@),
                Err(e) => final(self)@ == old(self)@ && spec_execute(old(self)@, instr, rand)
                    == Err::<MachineView, Chip8Error>(e),
            },
    {
        match instr {
            Instr::Nop => Ok(()),
            Instr::Clear => {
                self.screen = [false; 2048];
                proof {
                    assert(self@.screen =~= Seq::new(
                        (SCREEN_WIDTH * SCREEN_HEIGHT) as nat,
                        |j: int| false,
                    ));
                }
                Ok(())
            },
            Instr::Ret => {
                if self.sp == 0 {
                    return Err(Chip8Error::StackUnderflow(self.pc));
                }
                let addr = self.pop();
                self.pc = addr;
                Ok(())
            },
            Instr::Jump { nnn } => {
                self.pc = nnn;
                Ok(())
            },
            Instr::Call { nnn } => {
                if self.sp >= STACK_DEPTH as u16 {
                    return Err(Chip8Error::StackOverflow(nnn));
                }
                let pc0 = self.pc;
                self.push(pc0);
                self.pc = nnn;
                Ok(())
            },
            Instr::SkipEqImm { x, kk } => {
                if self.v_registers[x as usize] == kk {
                    self.pc = self.pc + 2;
                }
                Ok(())
            },
            Instr::SkipNeImm { x, kk } => {
                if self.v_registers[x as usize] != kk {
                    self.pc = self.pc + 2;
                }
                Ok(())
            },
            Instr::SkipEqReg { x, y } => {
                if self.v_registers[x as usize] == self.v_registers[y as usize] {
                    self.pc = self.pc + 2;
                }
                Ok(())
            },
            Instr::SkipNeReg { x, y } => {
                if self.v_registers[x as usize] != self.v_registers[y as usize] {
                    self.pc = self.pc + 2;
                }
                Ok(())
            },
            Instr::JumpOffset { nnn } => {
                self.pc = nnn + (self.v_registers[0] as u16);
                Ok(())
            },
            Instr::SkipKeyDown { x } => {
                let key = self.v_registers[x as usize];
                if key as usize >= NUM_KEYS {
                    return Err(Chip8Error::KeyOutOfRange(key));
                }
                if self.keys[key as usize] {
                    self.pc = self.pc + 2;
                }
                Ok(())
            },
            Instr::SkipKeyUp { x } => {
                let key = self.v_registers[x as usize];
                if key as usize >= NUM_KEYS {
                    return Err(Chip8Error::KeyOutOfRange(key));
                }
                if !self.keys[key as usize] {
                    self.pc = self.pc + 2;
                }
                Ok(())
            },
            _ => unreached(),
        }
    }

    /// The register instructions: loads, arithmetic, logic and shifts.
    fn apply_alu(&mut self, instr: Instr, rand: u8) -> (r: Result<(), Chip8Error>)
        requires
            old(self)@.wf(),
            instr.wf(),
            2 <= old(self)@.pc,
            old(self)@.pc <= RAM_SIZE,
            instr is LoadImm || instr is AddImm || instr is Move || instr is Or || instr is
                And || instr is Xor || instr is Add || instr is Sub || instr is ShiftRight ||
                instr is RevSub || instr is ShiftLeft || instr is RandomAnd || instr is
                ReadDelay,
        ensures
            final(self)@.wf(),
            match r {
                Ok(()) => spec_execute(old(self)@, instr, rand) == Ok::<
                    MachineView,
                    Chip8Error,
                >(final(self)@),
                Err(e) => final(self)@ == old(self)@ && spec_execute(old(self)@, instr, rand)
                    == Err::<MachineView, Chip8Error>(e),
            },
    {
        match instr {
            Instr::LoadImm { x, kk } => {
                self.v_registers[x as usize] = kk;
                Ok(())
            },
            Instr::AddImm { x, kk } => {
                let vx = self.v_registers[x as usize];
                let sum = vx.wrapping_add(kk);
                proof {
                    assert(sum == wrap_add_u8(vx, kk));
                }
                self.v_registers[x as usize] = sum;
                Ok(())
            },
            Instr::Move { x, y } => {
                self.v_registers[x as usize] = self.v_registers[y as usize];
                Ok(())
            },
            Instr::Or { x, y } => {
                self.v_registers[x as usize] = self.v_registers[x as usize] | self.v_registers[y
                    as usize];
                Ok(())
            },
            Instr::And { x, y } => {
                self.v_registers[x as usize] = self.v_registers[x as usize] & self.v_registers[y
                    as usize];
                Ok(())
            },
            Instr::Xor { x, y } => {
                self.v_registers[x as usize] = self.v_registers[x as usize] ^ self.v_registers[y
                    as usize];
                Ok(())
            },
            Instr::Add { x, y } => {
                let vx = self.v_registers[x as usize];
                let vy = self.v_registers[y as usize];
                let sum = vx.wrapping_add(vy);
                proof {
                    assert(sum == wrap_add_u8(vx, vy));
                }
                self.v_registers[x as usize] = sum;
                self.v_registers[0xF] = if (vx as u16) + (vy as u16) > 0xFF {
                    1
                } else {
                    0
                };
                Ok(())
            },
            Instr::Sub { x, y } => {
                let vx = self.v_registers[x as usize];
                let vy = self.v_registers[y as usize];
                let diff = vx.wrapping_sub(vy);
                proof {
                    assert(diff == wrap_sub_u8(vx, vy));
                }
                self.v_registers[x as usize] = diff;
                self.v_registers[0xF] = if vx < vy {
                    0
                } else {
                    1
                };
                Ok(())
            },
            Instr::ShiftRight { x } => {
                self.v_registers[0xF] = self.v_registers[x as usize] & 1;
                self.v_registers[x as usize] = self.v_registers[x as usize] >> 1u8;
                Ok(())
            },
            Instr::RevSub { x, y } => {
                let vx = self.v_registers[x as usize];
                let vy = self.v_registers[y as usize];
                let diff = vy.wrapping_sub(vx);
                proof {
                    assert(diff == wrap_sub_u8(vy, vx));
                }
                self.v_registers[x as usize] = diff;
                self.v_registers[0xF] = if vy < vx {
                    0
                } else {
                    1
                };
                Ok(())
            },
            Instr::ShiftLeft { x } => {
                self.v_registers[0xF] = self.v_registers[x as usize] >> 7u8;
                self.v_registers[x as usize] = self.v_registers[x as usize] << 1u8;
                Ok(())
            },
            Instr::RandomAnd { x, kk } => {
                self.v_registers[x as usize] = rand & kk;
                Ok(())
            },
            Instr::ReadDelay { x } => {
                self.v_registers[x as usize] = self.delay_timer;
                Ok(())
            },
            _ => unreached(),
        }
    }

    /// The index-register, timer-write and decimal-store instructions.
    fn apply_misc(&mut self, instr: Instr, rand: u8) -> (r: Result<(), Chip8Error>)
        requires
            old(self)@.wf(),
            instr.wf(),
            2 <= old(self)@.pc,
            old(self)@.pc <= RAM_SIZE,
            instr is SetIndex || instr is WriteDelay || instr is WriteSound || instr is
                AddIndex || instr is FontAddr || instr is StoreBcd,
        ensures
            final(self)@.wf(),
            match r {
                Ok(()) => spec_execute(old(self)@, instr, rand) == Ok::<
                    MachineView,
                    Chip8Error,
                >(final(self)@),
                Err(e) => final(self)@ == old(self)@ && spec_execute(old(self)@, instr, rand)
                    == Err::<MachineView, Chip8Error>(e),
            },
    {
        match instr {
            Instr::SetIndex { nnn } => {
                self.i_register = nnn;
                Ok(())
            },
            Instr::WriteDelay { x } => {
                self.delay_timer = self.v_registers[x as usize];
                Ok(())
            },
            Instr::WriteSound { x } => {
                self.sound_timer = self.v_registers[x as usize];
                Ok(())
            },
            Instr::AddIndex { x } => {
                let vx16 = self.v_registers[x as usize] as u16;
                let idx = self.i_register.wrapping_add(vx16);
                proof {
                    assert(idx == wrap_add_u16(old(self)@.i_register, vx16));
                }
                self.i_register = idx;
                Ok(())
            },
            Instr::FontAddr { x } => {
                self.i_register = (self.v_registers[x as usize] as u16) * 5;
                Ok(())
            },
            Instr::StoreBcd { x } => {
                let i0 = self.i_register as usize;
                if i0 + 2 >= RAM_SIZE {
                    return Err(Chip8Error::AddressOutOfRange(self.i_register));
                }
                let val = self.v_registers[x as usize];
                self.ram[i0] = val / 100;
                self.ram[i0 + 1] = (val / 10) % 10;
                self.ram[i0 + 2] = val % 10;
                Ok(())
            },
            _ => unreached(),
        }
    }


    /// Blocks for a key: when none is held, rewinds the program counter so
    /// the same instruction is fetched again; when some are held, stores the
    /// highest-numbered held key in register `x`.
    fn wait_key(&mut self, x: u8, Ghost(instr): Ghost<Instr>, Ghost(rand): Ghost<u8>) -> (r: Result<
        (),
        Chip8Error,
    >)
        requires
            old(self)@.wf(),
            x < 16,
            2 <= old(self)@.pc,
            instr == (Instr::WaitKey { x }),
        ensures
            final(self)@.wf(),
            match r {
                Ok(()) => spec_execute(old(self)@, instr, rand) == Ok::<
                    MachineView,
                    Chip8Error,
                >(final(self)@),
                Err(e) => final(self)@ == old(self)@ && spec_execute(old(self)@, instr, rand)
                    == Err::<MachineView, Chip8Error>(e),
            },
    {
        let mut key_pressed = false;
        let mut k: usize = 0;
        while k < NUM_KEYS
            invariant
                k <= NUM_KEYS,
                x < 16,
                match last_key_below(old(self)@.keys, k as int) {
                    Some(held) => key_pressed && self@ == (MachineView {
                        v_registers: old(self)@.v_registers.update(x as int, held),
                        ..old(self)@
                    }),
                    None => !key_pressed && self@ == old(self)@,
                },
            decreases NUM_KEYS - k,
        {
            if self.keys[k] {
                proof {
                    let prev = last_key_below(old(self)@.keys, k as int);
                    if prev is Some {
                        assert(old(self)@.v_registers.update(x as int, prev->Some_0).update(
                            x as int,
                            k as u8,
                        ) =~= old(self)@.v_registers.update(x as int, k as u8));
                    }
                }
                self.v_registers[x as usize] = k as u8;
                key_pressed = true;
            }
            k += 1;
        }
        if !key_pressed {
            self.pc = self.pc - 2;
        }
        proof {
            assert(self@ =~~= spec_execute(old(self)@, instr, rand)->Ok_0);
        }
        Ok(())
    }

    /// Stores registers `V[0]` through `V[x]` into memory starting at the
    /// index register's address.
    fn store_regs(&mut self, x: u8, Ghost(instr): Ghost<Instr>, Ghost(rand): Ghost<u8>) -> (r:
        Result<(), Chip8Error>)
        requires
            old(self)@.wf(),
            x < 16,
            instr == (Instr::StoreRegs { x }),
        ensures
            final(self)@.wf(),
            match r {
                Ok(()) => spec_execute(old(self)@, instr, rand) == Ok::<
                    MachineView,
                    Chip8Error,
                >(final(self)@),
                Err(e) => final(self)@ == old(self)@ && spec_execute(old(self)@, instr, rand)
                    == Err::<MachineView, Chip8Error>(e),
            },
    {
        let i0 = self.i_register as usize;
        if i0 + (x as usize) >= RAM_SIZE {
            return Err(Chip8Error::AddressOutOfRange(self.i_register));
        }
        let mut k: usize = 0;
        while k <= x as usize
            invariant
                k <= x as usize + 1,
                x < 16,
                i0 + (x as usize) < RAM_SIZE,
                i0 == old(self)@.i_register as usize,
                self@ == (MachineView { ram: self@.ram, ..old(self)@ }),
                forall|j: int|
                    i0 <= j < i0 + k ==> self@.ram[j] == old(self)@.v_registers[j - i0],
                forall|j: int| 0 <= j < i0 ==> self@.ram[j] == old(self)@.ram[j],
                forall|j: int| i0 + k <= j < RAM_SIZE ==> self@.ram[j] == old(self)@.ram[j],
            decreases x as usize + 1 - k,
        {
            self.ram[i0 + k] = self.v_registers[k];
            k += 1;
        }
        proof {
            assert(self@.ram =~= spec_execute(old(self)@, instr, rand)->Ok_0.ram);
            assert(self@ =~~= spec_execute(old(self)@, instr, rand)->Ok_0);
        }
        Ok(())
    }

    /// Loads registers `V[0]` through `V[x]` from memory starting at the
    /// index register's address.
    fn load_regs(&mut self, x: u8, Ghost(instr): Ghost<Instr>, Ghost(rand): Ghost<u8>) -> (r:
        Result<(), Chip8Error>)
        requires
            old(self)@.wf(),
            x < 16,
            instr == (Instr::LoadRegs { x }),
        ensures
            final(self)@.wf(),
            match r {
                Ok(()) => spec_execute(old(self)@, instr, rand) == Ok::<
                    MachineView,
                    Chip8Error,
                >(final(self)@),
                Err(e) => final(self)@ == old(self)@ && spec_execute(old(self)@, instr, rand)
                    == Err::<MachineView, Chip8Error>(e),
            },
    {
        let i0 = self.i_register as usize;
        if i0 + (x as usize) >= RAM_SIZE {
            return Err(Chip8Error::AddressOutOfRange(self.i_register));
        }
        let mut k: usize = 0;
        while k <= x as usize
            invariant
                k <= x as usize + 1,
                x < 16,
                i0 + (x as usize) < RAM_SIZE,
                i0 == old(self)@.i_register as usize,
                self@ == (MachineView { v_registers: self@.v_registers, ..old(self)@ }),
                forall|j: int| 0 <= j < k ==> self@.v_registers[j] == old(self)@.ram[i0 + j],
                forall|j: int|
                    k <= j < NUM_REGS ==> self@.v_registers[j] == old(self)@.v_registers[j],
            decreases x as usize + 1 - k,
        {
            self.v_registers[k] = self.ram[i0 + k];
            k += 1;
        }
        proof {
            assert(self@.v_registers =~= spec_execute(old(self)@, instr, rand)->Ok_0.v_registers);
            assert(self@ =~~= spec_execute(old(self)@, instr, rand)->Ok_0);
        }
        Ok(())
    }

    /// Draws an `h`-row sprite from the index register's address at the
    /// origin named by registers `x` and `y`, toggling pixels and flagging a
    /// collision in `V[0xF]`.
    #[verifier::loop_isolation(false)]
    fn draw(&mut self, x: u8, y: u8, h: u8, Ghost(instr): Ghost<Instr>, Ghost(rand): Ghost<u8>) -> (r:
        Result<(), Chip8Error>)
        requires
            old(self)@.wf(),
            x < 16,
            y < 16,
            h < 16,
            instr == (Instr::Draw { x, y, h }),
        ensures
            final(self)@.wf(),
            match r {
                Ok(()) => spec_execute(old(self)@, instr, rand) == Ok::<
                    MachineView,
                    Chip8Error,
                >(final(self)@),
                Err(e) => final(self)@ == old(self)@ && spec_execute(old(self)@, instr, rand)
                    == Err::<MachineView, Chip8Error>(e),
            },
    {
        let i0 = self.i_register as usize;
        if h > 0 && i0 + (h as usize) > RAM_SIZE {
            return Err(Chip8Error::AddressOutOfRange(self.i_register));
        }
        let x0 = self.v_registers[x as usize] as usize;
        let y0 = self.v_registers[y as usize] as usize;
        let ghost gi: int = i0 as int;
        let ghost gx: int = x0 as int;
        let ghost gy: int = y0 as int;
        proof {
            lemma_draw_scan_zero(old(self)@.screen, old(self)@.ram, gi, gx, gy);
        }
        let mut flipped = false;
        let mut r: usize = 0;
        while r < h as usize
            invariant
                r <= h as usize,
                h < 16,
                h as usize > 0 ==> i0 + (h as usize) <= RAM_SIZE,
                gi == i0 as int,
                self@ == (MachineView { screen: self@.screen, ..old(self)@ }),
                forall|p: int|
                    0 <= p < 2048 ==> self@.screen[p] == (old(self)@.screen[p] != flips_pixel_upto(
                        old(self)@.ram,
                        gi,
                        gx,
                        gy,
                        r as int,
                        0,
                        p,
                    )),
                flipped == hits_lit_upto(
                    old(self)@.screen,
                    old(self)@.ram,
                    gi,
                    gx,
                    gy,
                    r as int,
                    0,
                ),
            decreases h as usize - r,
        {
            let row_byte = self.ram[i0 + r];
            let mut c: usize = 0;
            while c < 8
                invariant
                    c <= 8,
                    r < h as usize,
                    h < 16,
                    i0 + (h as usize) <= RAM_SIZE,
                    gi == i0 as int,
                    row_byte == old(self)@.ram[gi + r],
                    self@ == (MachineView { screen: self@.screen, ..old(self)@ }),
                    forall|p: int|
                        0 <= p < 2048 ==> self@.screen[p] == (old(self)@.screen[p]
                            != flips_pixel_upto(
                            old(self)@.ram,
                            gi,
                            gx,
                            gy,
                            r as int,
                            c as int,
                            p,
                        )),
                    flipped == hits_lit_upto(
                        old(self)@.screen,
                        old(self)@.ram,
                        gi,
                        gx,
                        gy,
                        r as int,
                        c as int,
                    ),
                decreases 8 - c,
            {
                proof {
                    lemma_draw_scan_step(
                        old(self)@.screen,
                        old(self)@.ram,
                        gi,
                        gx,
                        gy,
                        r as int,
                        c as int,
                    );
                }
                let sh: u8 = (7 - c) as u8;
                if (row_byte >> sh) & 1 == 1 {
                    proof {
                        lemma_draw_target_bounds(gx, gy, r as int, c as int);
                    }
                    let px = (x0 + c) % SCREEN_WIDTH;
                    let py = (y0 + r) % SCREEN_HEIGHT;
                    let idx = px + SCREEN_WIDTH * py;
                    flipped = flipped || self.screen[idx];
                    self.screen[idx] = !self.screen[idx];
                }
                c += 1;
            }
            r += 1;
            proof {
                lemma_draw_scan_row(
                    old(self)@.screen,
                    old(self)@.ram,
                    gi,
                    gx,
                    gy,
                    r as int - 1,
                );
            }
        }
        if flipped {
            self.v_registers[0xF] = 1;
        } else {
            self.v_registers[0xF] = 0;
        }
        proof {
            assert(self@.screen =~= draw_screen(
                old(self)@.screen,
                old(self)@.ram,
                gi,
                gx,
                gy,
                h as int,
            ));
            assert(self@ =~~= spec_execute(old(self)@, instr, rand)->Ok_0);
        }
        Ok(())
    }
}

} // verus!
