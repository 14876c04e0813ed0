use vstd::prelude::*;

use crate::error::Chip8Error;
use crate::instr::{spec_decode, Instr};
use crate::semantics::{last_key_below, opcode_at, spec_step};
use crate::state::MachineView;
use crate::{NUM_KEYS, RAM_SIZE, STACK_DEPTH};

verus! {

/// A scan of keys `0 .. n` finds nothing when none of them is held.
proof fn lemma_no_key_scan(keys: Seq<bool>, n: int)
    requires
        forall|k: int| 0 <= k < n ==> !keys[k],
    ensures
        last_key_below(keys, n) is None,
    decreases n,
{
    if n > 0 {
        lemma_no_key_scan(keys, n - 1);
    }
}

/// A scan of keys `0 .. n` finds the highest-numbered held key when at least
/// one of them is held.
proof fn lemma_some_key_scan(keys: Seq<bool>, n: int)
    requires
        n <= 256,
        exists|k: int| 0 <= k < n && keys[k],
    ensures
        last_key_below(keys, n) matches Some(held) && held < n && keys[held as int] && (forall|
            j: int,
        |
            held < j < n ==> !keys[j]),
    decreases n,
{
    if n > 0 && !keys[n - 1] {
        let k0 = choose|k: int| 0 <= k < n && keys[k];
        assert(0 <= k0 < n - 1 && keys[k0]);
        lemma_some_key_scan(keys, n - 1);
    }
}

/// Clearing the screen leaves every pixel unlit, whatever had been drawn on
/// it before.
pub proof fn lemma_clear_screen_unlits_all(s: MachineView, rand: u8)
    requires
        s.wf(),
        s.pc as int + 1 < RAM_SIZE,
        spec_decode(opcode_at(s)) == Some(Instr::Clear),
    ensures
        spec_step(s, rand) matches Ok(s2) && forall|p: int|
            0 <= p < s2.screen.len() ==> !s2.screen[p],
{
}

/// A subroutine call followed by the matching return brings the program
/// counter back to the instruction after the call: the address pushed by the
/// call is exactly the one the return pops.
pub proof fn lemma_call_return_round_trip(s: MachineView, nnn: u16, rand1: u8, rand2: u8)
    requires
        s.wf(),
        s.pc as int + 1 < RAM_SIZE,
        spec_decode(opcode_at(s)) == Some(Instr::Call { nnn }),
        s.sp < STACK_DEPTH,
        nnn as int + 1 < RAM_SIZE,
        spec_decode(((s.ram[nnn as int] as u16) << 8) | (s.ram[nnn as int + 1] as u16)) == Some(
            Instr::Ret,
        ),
    ensures
        spec_step(s, rand1) matches Ok(s1) && spec_step(s1, rand2) matches Ok(s2) && s2.pc == s.pc
            + 2,
{
    let s1 = spec_step(s, rand1)->Ok_0;
    assert(s1.pc == nnn && s1.ram == s.ram);
    assert(opcode_at(s1) == ((s.ram[nnn as int] as u16) << 8) | (s.ram[nnn as int + 1] as u16));
    assert(s1.stack[s.sp as int] == (s.pc + 2) as u16);
}

/// With no key held, the key-wait instruction makes no progress: the step
/// succeeds and leaves the machine exactly as it was, so the very same
/// instruction is fetched again on the next step.
pub proof fn lemma_key_wait_blocks(s: MachineView, x: u8, rand: u8)
    requires
        s.wf(),
        s.pc as int + 1 < RAM_SIZE,
        spec_decode(opcode_at(s)) == Some(Instr::WaitKey { x }),
        forall|k: int| 0 <= k < NUM_KEYS ==> !s.keys[k],
    ensures
        spec_step(s, rand) == Ok::<MachineView, Chip8Error>(s),
{
    lemma_no_key_scan(s.keys, NUM_KEYS as int);
    assert(spec_step(s, rand)->Ok_0 =~~= s);
}

/// With at least one key held, the key-wait instruction stores the
/// highest-numbered held key in its target register and execution proceeds
/// past the instruction.
pub proof fn lemma_key_wait_proceeds(s: MachineView, x: u8, rand: u8)
    requires
        s.wf(),
        s.pc as int + 1 < RAM_SIZE,
        x < 16,
        spec_decode(opcode_at(s)) == Some(Instr::WaitKey { x }),
        exists|k: int| 0 <= k < NUM_KEYS && s.keys[k],
    ensures
        spec_step(s, rand) matches Ok(s2) && s2.pc == s.pc + 2 && exists|held: u8|
            (held as int) < NUM_KEYS && s.keys[held as int] && (forall|j: int|
                held < j < NUM_KEYS ==> !s.keys[j]) && s2.v_registers == s.v_registers.update(
                x as int,
                held,
            ),
{
    lemma_some_key_scan(s.keys, NUM_KEYS as int);
    let held = last_key_below(s.keys, NUM_KEYS as int)->Some_0;
    let s2 = spec_step(s, rand)->Ok_0;
    assert((held as int) < NUM_KEYS && s.keys[held as int] && (forall|j: int|
        held < j < NUM_KEYS ==> !s.keys[j]) && s2.v_registers == s.v_registers.update(
        x as int,
        held,
    ));
}

} // verus!

