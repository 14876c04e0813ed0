use vstd::arithmetic::div_mod::{lemma_fundamental_div_mod, lemma_mod_bound};
use vstd::prelude::*;

use crate::error::Chip8Error;
use crate::instr::{spec_decode, Instr};
use crate::state::MachineView;
use crate::{NUM_KEYS, NUM_REGS, RAM_SIZE, SCREEN_HEIGHT, SCREEN_WIDTH, STACK_DEPTH};

verus! {

/// 8-bit sum, wrapping around 256.
pub open spec fn wrap_add_u8(a: u8, b: u8) -> u8 {
    ((a + b) % 0x100) as u8
}

/// 8-bit difference, wrapping around 256.
pub open spec fn wrap_sub_u8(a: u8, b: u8) -> u8 {
    ((a - b + 0x100) % 0x100) as u8
}

/// 16-bit sum, wrapping around 65536.
pub open spec fn wrap_add_u16(a: u16, b: u16) -> u16 {
    ((a + b) % 0x10000) as u16
}

/// The two bytes at the program counter, combined big-endian.
pub open spec fn opcode_at(s: MachineView) -> u16 {
    ((s.ram[s.pc as int] as u16) << 8) | (s.ram[s.pc as int + 1] as u16)
}

/// Whether bit `col` (counted from the left) of sprite row `row` is set, for
/// the sprite whose rows start at memory address `i`.
pub open spec fn sprite_bit(ram: Seq<u8>, i: int, row: int, col: int) -> bool {
    (ram[i + row] >> ((7 - col) as u8)) & 1 == 1
}

/// The framebuffer cell a sprite bit lands on: both coordinates wrap.
pub open spec fn draw_target(x0: int, y0: int, row: int, col: int) -> int {
    (x0 + col) % (SCREEN_WIDTH as int) + (SCREEN_WIDTH as int) * ((y0 + row) % (
    SCREEN_HEIGHT as int))
}

/// Whether a set sprite bit strictly before position (`row`, `col`) of the
/// left-to-right, top-to-bottom sprite scan lands on pixel `p`.
pub open spec fn flips_pixel_upto(
    ram: Seq<u8>,
    i: int,
    x0: int,
    y0: int,
    row: int,
    col: int,
    p: int,
) -> bool {
    exists|rr: int, cc: int|
        0 <= rr && 0 <= cc < 8 && (rr < row || (rr == row && cc < col)) && sprite_bit(
            ram,
            i,
            rr,
            cc,
        ) && draw_target(x0, y0, rr, cc) == p
}

/// Whether some set bit of the `h`-row sprite at address `i`, drawn at origin
/// (`x0`, `y0`), lands on pixel `p`.
pub open spec fn flips_pixel(ram: Seq<u8>, i: int, x0: int, y0: int, h: int, p: int) -> bool {
    flips_pixel_upto(ram, i, x0, y0, h, 0, p)
}

/// Whether a set sprite bit strictly before position (`row`, `col`) of the
/// scan lands on a pixel that is lit in `screen`.
pub open spec fn hits_lit_upto(
    screen: Seq<bool>,
    ram: Seq<u8>,
    i: int,
    x0: int,
    y0: int,
    row: int,
    col: int,
) -> bool {
    exists|rr: int, cc: int|
        0 <= rr && 0 <= cc < 8 && (rr < row || (rr == row && cc < col)) && sprite_bit(
            ram,
            i,
            rr,
            cc,
        ) && screen[draw_target(x0, y0, rr, cc)]
}

/// Collision: some set bit of the sprite lands on a pixel lit before the
/// draw, which the draw therefore turns off.
pub open spec fn sprite_collides(
    screen: Seq<bool>,
    ram: Seq<u8>,
    i: int,
    x0: int,
    y0: int,
    h: int,
) -> bool {
    hits_lit_upto(screen, ram, i, x0, y0, h, 0)
}

/// The framebuffer after the draw: each pixel some set sprite bit lands on is
/// toggled, every other pixel keeps its value.
pub open spec fn draw_screen(
    screen: Seq<bool>,
    ram: Seq<u8>,
    i: int,
    x0: int,
    y0: int,
    h: int,
) -> Seq<bool> {
    Seq::new(screen.len(), |p: int| screen[p] != flips_pixel(ram, i, x0, y0, h, p))
}

/// The highest index below `n` of a held key, if any key below `n` is held.
pub open spec fn last_key_below(keys: Seq<bool>, n: int) -> Option<u8>
    decreases n,
{
    if n <= 0 {
        None
    } else if keys[n - 1] {
        Some((n - 1) as u8)
    } else {
        last_key_below(keys, n - 1)
    }
}

/// The effect of one decoded instruction on the machine state `s`, in which
/// the program counter has already advanced past the instruction. `rand` is
/// the byte the random-and instruction combines with its mask. A fatal
/// condition yields the error alone; the caller keeps the state unchanged.
pub open spec fn spec_execute(s: MachineView, instr: Instr, rand: u8) -> Result<
    MachineView,
    Chip8Error,
> {
    let v = s.v_registers;
    match instr {
        Instr::Nop => Ok(s),
        Instr::Clear => Ok(
            MachineView {
                screen: Seq::new((SCREEN_WIDTH * SCREEN_HEIGHT) as nat, |j: int| false),
                ..s
            },
        ),
        Instr::Ret => if s.sp == 0 {
            Err(Chip8Error::StackUnderflow(s.pc))
        } else {
            Ok(MachineView { pc: s.stack[s.sp - 1], sp: (s.sp - 1) as u16, ..s })
        },
        Instr::Jump { nnn } => Ok(MachineView { pc: nnn, ..s }),
        Instr::Call { nnn } => if s.sp >= STACK_DEPTH {
            Err(Chip8Error::StackOverflow(nnn))
        } else {
            Ok(
                MachineView {
                    stack: s.stack.update(s.sp as int, s.pc),
                    sp: (s.sp + 1) as u16,
                    pc: nnn,
                    ..s
                },
            )
        },
        Instr::SkipEqImm { x, kk } => Ok(
            MachineView { pc: if v[x as int] == kk { (s.pc + 2) as u16 } else { s.pc }, ..s },
        ),
        Instr::SkipNeImm { x, kk } => Ok(
            MachineView { pc: if v[x as int] != kk { (s.pc + 2) as u16 } else { s.pc }, ..s },
        ),
        Instr::SkipEqReg { x, y } => Ok(
            MachineView {
                pc: if v[x as int] == v[y as int] { (s.pc + 2) as u16 } else { s.pc },
                ..s
            },
        ),
        Instr::LoadImm { x, kk } => Ok(MachineView { v_registers: v.update(x as int, kk), ..s }),
        Instr::AddImm { x, kk } => Ok(
            MachineView { v_registers: v.update(x as int, wrap_add_u8(v[x as int], kk)), ..s },
        ),
        Instr::Move { x, y } => Ok(
            MachineView { v_registers: v.update(x as int, v[y as int]), ..s },
        ),
        Instr::Or { x, y } => Ok(
            MachineView { v_registers: v.update(x as int, v[x as int] | v[y as int]), ..s },
        ),
        Instr::And { x, y } => Ok(
            MachineView { v_registers: v.update(x as int, v[x as int] & v[y as int]), ..s },
        ),
        Instr::Xor { x, y } => Ok(
            MachineView { v_registers: v.update(x as int, v[x as int] ^ v[y as int]), ..s },
        ),
        Instr::Add { x, y } => {
            let sum = wrap_add_u8(v[x as int], v[y as int]);
            let carry: u8 = if v[x as int] + v[y as int] > 0xFF {
                1
            } else {
                0
            };
            Ok(MachineView { v_registers: v.update(x as int, sum).update(15, carry), ..s })
        },
        Instr::Sub { x, y } => {
            let diff = wrap_sub_u8(v[x as int], v[y as int]);
            let no_borrow: u8 = if v[x as int] < v[y as int] {
                0
            } else {
                1
            };
            Ok(MachineView { v_registers: v.update(x as int, diff).update(15, no_borrow), ..s })
        },
        Instr::ShiftRight { x } => {
            let v1 = v.update(15, v[x as int] & 1);
            Ok(MachineView { v_registers: v1.update(x as int, v1[x as int] >> 1u8), ..s })
        },
        Instr::RevSub { x, y } => {
            let diff = wrap_sub_u8(v[y as int], v[x as int]);
            let no_borrow: u8 = if v[y as int] < v[x as int] {
                0
            } else {
                1
            };
            Ok(MachineView { v_registers: v.update(x as int, diff).update(15, no_borrow), ..s })
        },
        Instr::ShiftLeft { x } => {
            let v1 = v.update(15, v[x as int] >> 7u8);
            Ok(MachineView { v_registers: v1.update(x as int, v1[x as int] << 1u8), ..s })
        },
        Instr::SkipNeReg { x, y } => Ok(
            MachineView {
                pc: if v[x as int] != v[y as int] { (s.pc + 2) as u16 } else { s.pc },
                ..s
            },
        ),
        Instr::SetIndex { nnn } => Ok(MachineView { i_register: nnn, ..s }),
        Instr::JumpOffset { nnn } => Ok(MachineView { pc: (nnn + v[0]) as u16, ..s }),
        Instr::RandomAnd { x, kk } => Ok(
            MachineView { v_registers: v.update(x as int, rand & kk), ..s },
        ),
        Instr::Draw { x, y, h } => {
            let i = s.i_register as int;
            let x0 = v[x as int] as int;
            let y0 = v[y as int] as int;
            if h > 0 && i + h > RAM_SIZE {
                Err(Chip8Error::AddressOutOfRange(s.i_register))
            } else {
                let flag: u8 = if sprite_collides(s.screen, s.ram, i, x0, y0, h as int) {
                    1
                } else {
                    0
                };
                Ok(
                    MachineView {
                        screen: draw_screen(s.screen, s.ram, i, x0, y0, h as int),
                        v_registers: v.update(15, flag),
                        ..s
                    },
                )
            }
        },
        Instr::SkipKeyDown { x } => if v[x as int] >= NUM_KEYS {
            Err(Chip8Error::KeyOutOfRange(v[x as int]))
        } else {
            Ok(
                MachineView {
                    pc: if s.keys[v[x as int] as int] { (s.pc + 2) as u16 } else { s.pc },
                    ..s
                },
            )
        },
        Instr::SkipKeyUp { x } => if v[x as int] >= NUM_KEYS {
            Err(Chip8Error::KeyOutOfRange(v[x as int]))
        } else {
            Ok(
                MachineView {
                    pc: if !s.keys[v[x as int] as int] { (s.pc + 2) as u16 } else { s.pc },
                    ..s
                },
            )
        },
        Instr::ReadDelay { x } => Ok(
            MachineView { v_registers: v.update(x as int, s.delay_timer), ..s },
        ),
        Instr::WaitKey { x } => match last_key_below(s.keys, NUM_KEYS as int) {
            Some(k) => Ok(MachineView { v_registers: v.update(x as int, k), ..s }),
            None => Ok(MachineView { pc: (s.pc - 2) as u16, ..s }),
        },
        Instr::WriteDelay { x } => Ok(MachineView { delay_timer: v[x as int], ..s }),
        Instr::WriteSound { x } => Ok(MachineView { sound_timer: v[x as int], ..s }),
        Instr::AddIndex { x } => Ok(
            MachineView { i_register: wrap_add_u16(s.i_register, v[x as int] as u16), ..s },
        ),
        Instr::FontAddr { x } => Ok(MachineView { i_register: (v[x as int] * 5) as u16, ..s }),
        Instr::StoreBcd { x } => {
            let i = s.i_register as int;
            let val = v[x as int];
            if i + 2 >= RAM_SIZE {
                Err(Chip8Error::AddressOutOfRange(s.i_register))
            } else {
                Ok(
                    MachineView {
                        ram: s.ram.update(i, (val / 100) as u8).update(
                            i + 1,
                            ((val / 10) % 10) as u8,
                        ).update(i + 2, (val % 10) as u8),
                        ..s
                    },
                )
            }
        },
        Instr::StoreRegs { x } => {
            let i = s.i_register as int;
            if i + x >= RAM_SIZE {
                Err(Chip8Error::AddressOutOfRange(s.i_register))
            } else {
                Ok(
                    MachineView {
                        ram: Seq::new(
                            RAM_SIZE as nat,
                            |j: int|
                                if i <= j <= i + x {
                                    v[j - i]
                                } else {
                                    s.ram[j]
                                },
                        ),
                        ..s
                    },
                )
            }
        },
        Instr::LoadRegs { x } => {
            let i = s.i_register as int;
            if i + x >= RAM_SIZE {
                Err(Chip8Error::AddressOutOfRange(s.i_register))
            } else {
                Ok(
                    MachineView {
                        v_registers: Seq::new(
                            NUM_REGS as nat,
                            |j: int|
                                if j <= x {
                                    s.ram[i + j]
                                } else {
                                    v[j]
                                },
                        ),
                        ..s
                    },
                )
            }
        },
    }
}

/// One full fetch-decode-execute cycle from state `pre`: what a successful
/// step yields, or the fatal condition that stops it. On an error the machine
/// is left exactly at `pre`.
pub open spec fn spec_step(pre: MachineView, rand: u8) -> Result<MachineView, Chip8Error> {
    if pre.pc as int + 1 >= RAM_SIZE {
        Err(Chip8Error::PcOutOfRange(pre.pc))
    } else {
        let op = opcode_at(pre);
        match spec_decode(op) {
            None => Err(Chip8Error::UndefinedOpcode(op)),
            Some(instr) => spec_execute(
                MachineView { pc: (pre.pc + 2) as u16, ..pre },
                instr,
                rand,
            ),
        }
    }
}

/// Every sprite bit lands inside the framebuffer.
pub proof fn lemma_draw_target_bounds(x0: int, y0: int, r: int, c: int)
    requires
        0 <= x0,
        0 <= y0,
        0 <= r,
        0 <= c,
    ensures
        0 <= draw_target(x0, y0, r, c) < SCREEN_WIDTH * SCREEN_HEIGHT,
{
    lemma_mod_bound(x0 + c, SCREEN_WIDTH as int);
    lemma_mod_bound(y0 + r, SCREEN_HEIGHT as int);
}

/// Distinct positions of one sprite land on distinct pixels: rows stay within
/// one screen height of each other and columns within one screen width, so
/// the wrapped coordinates cannot coincide.
pub proof fn lemma_draw_target_injective(x0: int, y0: int, r1: int, c1: int, r2: int, c2: int)
    requires
        0 <= x0,
        0 <= y0,
        0 <= r1 < SCREEN_HEIGHT,
        0 <= c1 < SCREEN_WIDTH,
        0 <= r2 < SCREEN_HEIGHT,
        0 <= c2 < SCREEN_WIDTH,
        draw_target(x0, y0, r1, c1) == draw_target(x0, y0, r2, c2),
    ensures
        r1 == r2,
        c1 == c2,
{
    let w = SCREEN_WIDTH as int;
    let hh = SCREEN_HEIGHT as int;
    lemma_mod_bound(x0 + c1, w);
    lemma_mod_bound(x0 + c2, w);
    lemma_mod_bound(y0 + r1, hh);
    lemma_mod_bound(y0 + r2, hh);
    assert((x0 + c1) % w == (x0 + c2) % w && (y0 + r1) % hh == (y0 + r2) % hh);
    lemma_fundamental_div_mod(x0 + c1, w);
    lemma_fundamental_div_mod(x0 + c2, w);
    lemma_fundamental_div_mod(y0 + r1, hh);
    lemma_fundamental_div_mod(y0 + r2, hh);
}

/// Before the scan has visited anything, no pixel has been toggled and no lit
/// pixel has been hit.
pub proof fn lemma_draw_scan_zero(screen0: Seq<bool>, ram: Seq<u8>, i: int, x0: int, y0: int)
    ensures
        forall|p: int| !flips_pixel_upto(ram, i, x0, y0, 0, 0, p),
        !hits_lit_upto(screen0, ram, i, x0, y0, 0, 0),
{
}

/// Advancing the scan past position (`r`, `c`) toggles exactly the target of
/// that position when its sprite bit is set, and nothing otherwise. No
/// earlier position shares that target, so the target's pre-draw value is
/// still intact when the scan reaches it.
pub proof fn lemma_draw_scan_step(
    screen0: Seq<bool>,
    ram: Seq<u8>,
    i: int,
    x0: int,
    y0: int,
    r: int,
    c: int,
)
    requires
        0 <= x0,
        0 <= y0,
        0 <= r < SCREEN_HEIGHT,
        0 <= c < 8,
    ensures
        sprite_bit(ram, i, r, c) ==> !flips_pixel_upto(
            ram,
            i,
            x0,
            y0,
            r,
            c,
            draw_target(x0, y0, r, c),
        ),
        sprite_bit(ram, i, r, c) ==> flips_pixel_upto(
            ram,
            i,
            x0,
            y0,
            r,
            c + 1,
            draw_target(x0, y0, r, c),
        ),
        sprite_bit(ram, i, r, c) ==> forall|p: int|
            p != draw_target(x0, y0, r, c) ==> flips_pixel_upto(ram, i, x0, y0, r, c + 1, p)
                == flips_pixel_upto(ram, i, x0, y0, r, c, p),
        sprite_bit(ram, i, r, c) ==> hits_lit_upto(screen0, ram, i, x0, y0, r, c + 1) == (
        hits_lit_upto(screen0, ram, i, x0, y0, r, c) || screen0[draw_target(x0, y0, r, c)]),
        !sprite_bit(ram, i, r, c) ==> forall|p: int|
            flips_pixel_upto(ram, i, x0, y0, r, c + 1, p) == flips_pixel_upto(
                ram,
                i,
                x0,
                y0,
                r,
                c,
                p,
            ),
        !sprite_bit(ram, i, r, c) ==> hits_lit_upto(screen0, ram, i, x0, y0, r, c + 1)
            == hits_lit_upto(screen0, ram, i, x0, y0, r, c),
{
    let t = draw_target(x0, y0, r, c);
    if sprite_bit(ram, i, r, c) {
        if flips_pixel_upto(ram, i, x0, y0, r, c, t) {
            let (rr, cc) = choose|rr: int, cc: int|
                0 <= rr && 0 <= cc < 8 && (rr < r || (rr == r && cc < c)) && sprite_bit(
                    ram,
                    i,
                    rr,
                    cc,
                ) && draw_target(x0, y0, rr, cc) == t;
            lemma_draw_target_injective(x0, y0, rr, cc, r, c);
            assert(false);
        }
        assert(flips_pixel_upto(ram, i, x0, y0, r, c + 1, t)) by {
            assert(sprite_bit(ram, i, r, c) && draw_target(x0, y0, r, c) == t);
        }
        assert forall|p: int| p != t implies flips_pixel_upto(ram, i, x0, y0, r, c + 1, p)
            == flips_pixel_upto(ram, i, x0, y0, r, c, p) by {
            if flips_pixel_upto(ram, i, x0, y0, r, c + 1, p) {
                let (rr, cc) = choose|rr: int, cc: int|
                    0 <= rr && 0 <= cc < 8 && (rr < r || (rr == r && cc < c + 1)) && sprite_bit(
                        ram,
                        i,
                        rr,
                        cc,
                    ) && draw_target(x0, y0, rr, cc) == p;
                if rr == r && cc == c {
                    assert(p == t);
                    assert(false);
                }
                assert(rr < r || (rr == r && cc < c));
                assert(flips_pixel_upto(ram, i, x0, y0, r, c, p));
            }
            if flips_pixel_upto(ram, i, x0, y0, r, c, p) {
                let (rr, cc) = choose|rr: int, cc: int|
                    0 <= rr && 0 <= cc < 8 && (rr < r || (rr == r && cc < c)) && sprite_bit(
                        ram,
                        i,
                        rr,
                        cc,
                    ) && draw_target(x0, y0, rr, cc) == p;
                assert(flips_pixel_upto(ram, i, x0, y0, r, c + 1, p));
            }
        }
        if screen0[t] {
            assert(hits_lit_upto(screen0, ram, i, x0, y0, r, c + 1)) by {
                assert(sprite_bit(ram, i, r, c) && screen0[draw_target(x0, y0, r, c)]);
            }
        }
        if hits_lit_upto(screen0, ram, i, x0, y0, r, c) {
            let (rr, cc) = choose|rr: int, cc: int|
                0 <= rr && 0 <= cc < 8 && (rr < r || (rr == r && cc < c)) && sprite_bit(
                    ram,
                    i,
                    rr,
                    cc,
                ) && screen0[draw_target(x0, y0, rr, cc)];
            assert(hits_lit_upto(screen0, ram, i, x0, y0, r, c + 1));
        }
        if hits_lit_upto(screen0, ram, i, x0, y0, r, c + 1) && !screen0[t] {
            let (rr, cc) = choose|rr: int, cc: int|
                0 <= rr && 0 <= cc < 8 && (rr < r || (rr == r && cc < c + 1)) && sprite_bit(
                    ram,
                    i,
                    rr,
                    cc,
                ) && screen0[draw_target(x0, y0, rr, cc)];
            if rr == r && cc == c {
                assert(false);
            }
            assert(hits_lit_upto(screen0, ram, i, x0, y0, r, c));
        }
    } else {
        assert forall|p: int|
            flips_pixel_upto(ram, i, x0, y0, r, c + 1, p) == flips_pixel_upto(
                ram,
                i,
                x0,
                y0,
                r,
                c,
                p,
            ) by {
            if flips_pixel_upto(ram, i, x0, y0, r, c + 1, p) {
                let (rr, cc) = choose|rr: int, cc: int|
                    0 <= rr && 0 <= cc < 8 && (rr < r || (rr == r && cc < c + 1)) && sprite_bit(
                        ram,
                        i,
                        rr,
                        cc,
                    ) && draw_target(x0, y0, rr, cc) == p;
                assert(rr < r || (rr == r && cc < c));
                assert(flips_pixel_upto(ram, i, x0, y0, r, c, p));
            }
            if flips_pixel_upto(ram, i, x0, y0, r, c, p) {
                let (rr, cc) = choose|rr: int, cc: int|
                    0 <= rr && 0 <= cc < 8 && (rr < r || (rr == r && cc < c)) && sprite_bit(
                        ram,
                        i,
                        rr,
                        cc,
                    ) && draw_target(x0, y0, rr, cc) == p;
                assert(flips_pixel_upto(ram, i, x0, y0, r, c + 1, p));
            }
        }
        if hits_lit_upto(screen0, ram, i, x0, y0, r, c + 1) {
            let (rr, cc) = choose|rr: int, cc: int|
                0 <= rr && 0 <= cc < 8 && (rr < r || (rr == r && cc < c + 1)) && sprite_bit(
                    ram,
                    i,
                    rr,
                    cc,
                ) && screen0[draw_target(x0, y0, rr, cc)];
            assert(rr < r || (rr == r && cc < c));
            assert(hits_lit_upto(screen0, ram, i, x0, y0, r, c));
        }
        if hits_lit_upto(screen0, ram, i, x0, y0, r, c) {
            let (rr, cc) = choose|rr: int, cc: int|
                0 <= rr && 0 <= cc < 8 && (rr < r || (rr == r && cc < c)) && sprite_bit(
                    ram,
                    i,
                    rr,
                    cc,
                ) && screen0[draw_target(x0, y0, rr, cc)];
            assert(hits_lit_upto(screen0, ram, i, x0, y0, r, c + 1));
        }
    }
}

/// Finishing row `r` and standing at the start of row `r + 1` describe the
/// same set of visited positions.
pub proof fn lemma_draw_scan_row(
    screen0: Seq<bool>,
    ram: Seq<u8>,
    i: int,
    x0: int,
    y0: int,
    r: int,
)
    ensures
        forall|p: int|
            flips_pixel_upto(ram, i, x0, y0, r + 1, 0, p) == flips_pixel_upto(
                ram,
                i,
                x0,
                y0,
                r,
                8,
                p,
            ),
        hits_lit_upto(screen0, ram, i, x0, y0, r + 1, 0) == hits_lit_upto(
            screen0,
            ram,
            i,
            x0,
            y0,
            r,
            8,
        ),
{
    assert forall|p: int|
        flips_pixel_upto(ram, i, x0, y0, r + 1, 0, p) == flips_pixel_upto(
            ram,
            i,
            x0,
            y0,
            r,
            8,
            p,
        ) by {
        if flips_pixel_upto(ram, i, x0, y0, r + 1, 0, p) {
            let (rr, cc) = choose|rr: int, cc: int|
                0 <= rr && 0 <= cc < 8 && (rr < r + 1 || (rr == r + 1 && cc < 0)) && sprite_bit(
                    ram,
                    i,
                    rr,
                    cc,
                ) && draw_target(x0, y0, rr, cc) == p;
            assert(rr < r || (rr == r && cc < 8));
            assert(flips_pixel_upto(ram, i, x0, y0, r, 8, p));
        }
        if flips_pixel_upto(ram, i, x0, y0, r, 8, p) {
            let (rr, cc) = choose|rr: int, cc: int|
                0 <= rr && 0 <= cc < 8 && (rr < r || (rr == r && cc < 8)) && sprite_bit(
                    ram,
                    i,
                    rr,
                    cc,
                ) && draw_target(x0, y0, rr, cc) == p;
            assert(rr < r + 1);
            assert(flips_pixel_upto(ram, i, x0, y0, r + 1, 0, p));
        }
    }
    if hits_lit_upto(screen0, ram, i, x0, y0, r + 1, 0) {
        let (rr, cc) = choose|rr: int, cc: int|
            0 <= rr && 0 <= cc < 8 && (rr < r + 1 || (rr == r + 1 && cc < 0)) && sprite_bit(
                ram,
                i,
                rr,
                cc,
            ) && screen0[draw_target(x0, y0, rr, cc)];
        assert(rr < r || (rr == r && cc < 8));
        assert(hits_lit_upto(screen0, ram, i, x0, y0, r, 8));
    }
    if hits_lit_upto(screen0, ram, i, x0, y0, r, 8) {
        let (rr, cc) = choose|rr: int, cc: int|
            0 <= rr && 0 <= cc < 8 && (rr < r || (rr == r && cc < 8)) && sprite_bit(
                ram,
                i,
                rr,
                cc,
            ) && screen0[draw_target(x0, y0, rr, cc)];
        assert(rr < r + 1);
        assert(hits_lit_upto(screen0, ram, i, x0, y0, r + 1, 0));
    }
}

} // verus!
