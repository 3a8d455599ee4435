//! Execution engine: owns memory, registers, program counter, pointer
//! register, call stack and the two countdown timers; runs the
//! fetch-decode-execute step, mutates the display surface, consults the key
//! input state, and drives timer decay and tone reporting once per tick.

use vstd::prelude::*;

use crate::ast::{decode_spec, lemma_decode_wf, wf_op, Ast, DecodeError};
use crate::display::{grid_wf, plot_coll, plot_grid, Renderer};
use crate::keyboard::{KbM, Keyboard};

verus! {

/// Engine execution mode: fetching and executing normally, stalled on a
/// blocking key-wait with a target register, or stopped for good after a
/// fatal error.
#[derive(Clone, Copy, Debug, PartialEq, Eq, Structural)]
pub enum CpuState {
    Running,
    AwaitingKey(u8),
    Halted,
}

/// A fatal error of the current program. Every variant is terminal: the
/// engine halts and the embedding decides whether to reset or abort.
///
/// The call stack is capped at 16 levels, matching common hardware, so
/// over-nested calls fail with `StackOverflow` instead of growing without
/// bound.
#[derive(Clone, Copy, Debug, PartialEq, Eq, Structural)]
pub enum CpuError {
    /// The fetched word matches no instruction pattern.
    Decode(DecodeError),
    /// A return was executed with an empty call stack.
    StackUnderflow,
    /// A call was executed with 16 saved addresses already on the stack.
    StackOverflow,
    /// A loaded program does not fit in the 3584 bytes above the reserved
    /// area.
    CapacityExceeded,
}

/// Ghost model of the engine state.
pub ghost struct CpuM {
    /// The 4096-byte address space.
    pub mem: Seq<u8>,
    /// The 16 general-purpose 8-bit registers.
    pub regs: Seq<u8>,
    /// The 16-bit index/pointer register.
    pub pointer: u16,
    /// The program counter.
    pub pc: u16,
    /// The delay timer.
    pub dt: u8,
    /// The sound timer.
    pub st: u8,
    /// The call stack of saved program counters, most recent last.
    pub stack: Seq<u16>,
    /// The execution mode.
    pub state: CpuState,
    /// Instructions executed per tick.
    pub speed: usize,
}

impl CpuM {
    /// Sizes are fixed, the stack is within its cap, and a key-wait targets
    /// a real register.
    pub open spec fn wf(&self) -> bool {
        &&& self.mem.len() == 4096
        &&& self.regs.len() == 16
        &&& self.stack.len() <= 16
        &&& match self.state {
            CpuState::AwaitingKey(x) => x < 16,
            _ => true,
        }
    }
}

/// Ghost model of everything one instruction can observe or mutate: the
/// engine, the display grid and the key input state.
pub ghost struct SysM {
    pub cpu: CpuM,
    pub disp: Seq<u8>,
    pub kb: KbM,
}

impl SysM {
    pub open spec fn wf(&self) -> bool {
        self.cpu.wf() && grid_wf(self.disp) && self.kb.wf()
    }
}

/// 8-bit wraparound addition.
pub open spec fn add8(a: u8, b: u8) -> u8 {
    if a + b > 255 {
        (a + b - 256) as u8
    } else {
        (a + b) as u8
    }
}

/// 8-bit wraparound subtraction.
pub open spec fn sub8(a: u8, b: u8) -> u8 {
    if a - b < 0 {
        (a - b + 256) as u8
    } else {
        (a - b) as u8
    }
}

/// 16-bit wraparound addition.
pub open spec fn add16(a: u16, b: u16) -> u16 {
    if a + b > 0xFFFF {
        (a + b - 0x10000) as u16
    } else {
        (a + b) as u16
    }
}

/// One step of timer decay: down by one, floored at zero.
pub open spec fn dec1(t: u8) -> u8 {
    if t > 0 {
        (t - 1) as u8
    } else {
        0u8
    }
}

/// The built-in font table: 16 glyphs of 5 bytes, one per hexadecimal digit,
/// resident at the base of memory.
pub open spec fn font_seq() -> Seq<u8> {
    seq![
        0xF0u8, 0x90, 0x90, 0x90, 0xF0,
        0x20, 0x60, 0x20, 0x20, 0x70,
        0xF0, 0x10, 0xF0, 0x80, 0xF0,
        0xF0, 0x10, 0xF0, 0x10, 0xF0,
        0x90, 0x90, 0xF0, 0x10, 0x10,
        0xF0, 0x80, 0xF0, 0x10, 0xF0,
        0xF0, 0x80, 0xF0, 0x90, 0xF0,
        0xF0, 0x10, 0x20, 0x40, 0x40,
        0xF0, 0x90, 0xF0, 0x90, 0xF0,
        0xF0, 0x90, 0xF0, 0x10, 0xF0,
        0xF0, 0x90, 0xF0, 0x90, 0x90,
        0xE0, 0x90, 0xE0, 0x90, 0xE0,
        0xF0, 0x80, 0x80, 0x80, 0xF0,
        0xE0, 0x90, 0x90, 0x90, 0xE0,
        0xF0, 0x80, 0xF0, 0x80, 0xF0,
        0xF0, 0x80, 0xF0, 0x80, 0x80,
    ]
}

/// The font table as a vector.
fn font_bytes() -> (v: Vec<u8>)
    ensures
        v@ == font_seq(),
{
    let mut v: Vec<u8> = Vec::new();
    v.push(0xF0); v.push(0x90); v.push(0x90); v.push(0x90); v.push(0xF0);
    v.push(0x20); v.push(0x60); v.push(0x20); v.push(0x20); v.push(0x70);
    v.push(0xF0); v.push(0x10); v.push(0xF0); v.push(0x80); v.push(0xF0);
    v.push(0xF0); v.push(0x10); v.push(0xF0); v.push(0x10); v.push(0xF0);
    v.push(0x90); v.push(0x90); v.push(0xF0); v.push(0x10); v.push(0x10);
    v.push(0xF0); v.push(0x80); v.push(0xF0); v.push(0x10); v.push(0xF0);
    v.push(0xF0); v.push(0x80); v.push(0xF0); v.push(0x90); v.push(0xF0);
    v.push(0xF0); v.push(0x10); v.push(0x20); v.push(0x40); v.push(0x40);
    v.push(0xF0); v.push(0x90); v.push(0xF0); v.push(0x90); v.push(0xF0);
    v.push(0xF0); v.push(0x90); v.push(0xF0); v.push(0x10); v.push(0xF0);
    v.push(0xF0); v.push(0x90); v.push(0xF0); v.push(0x90); v.push(0x90);
    v.push(0xE0); v.push(0x90); v.push(0xE0); v.push(0x90); v.push(0xE0);
    v.push(0xF0); v.push(0x80); v.push(0x80); v.push(0x80); v.push(0xF0);
    v.push(0xE0); v.push(0x90); v.push(0x90); v.push(0x90); v.push(0xE0);
    v.push(0xF0); v.push(0x80); v.push(0xF0); v.push(0x80); v.push(0xF0);
    v.push(0xF0); v.push(0x80); v.push(0xF0); v.push(0x80); v.push(0x80);
    proof {
        assert(v@ =~= font_seq());
    }
    v
}

/// A register index masked to the 4-bit key namespace is a valid key.
proof fn lemma_nibble(v: u8)
    by (bit_vector)
    ensures
        v & 0xF < 16,
{
}

/// The big-endian 16-bit word at the program counter (addresses masked to 12
/// bits).
pub open spec fn fetch_word(c: CpuM) -> u16 {
    ((c.mem[(c.pc as int) % 4096] as u16) << 8) | (c.mem[((c.pc as int) + 1) % 4096] as u16)
}

/// The `n` sprite rows starting at the pointer register (addresses masked to
/// 12 bits).
pub open spec fn sprite_rows(mem: Seq<u8>, ptr: u16, n: int) -> Seq<u8> {
    Seq::new(n as nat, |r: int| mem[((ptr as int) + r) % 4096])
}

/// Memory after the first `count` registers are block-copied to consecutive
/// addresses starting at the pointer register.
pub open spec fn store_regs(mem: Seq<u8>, regs: Seq<u8>, ptr: u16, count: int) -> Seq<u8>
    decreases count,
{
    if count <= 0 {
        mem
    } else {
        store_regs(mem, regs, ptr, count - 1).update(
            ((ptr as int) + (count - 1)) % 4096,
            regs[count - 1],
        )
    }
}

/// Registers after the first `count` of them are block-filled from
/// consecutive addresses starting at the pointer register.
pub open spec fn load_regs(regs: Seq<u8>, mem: Seq<u8>, ptr: u16, count: int) -> Seq<u8>
    decreases count,
{
    if count <= 0 {
        regs
    } else {
        load_regs(regs, mem, ptr, count - 1).update(
            count - 1,
            mem[((ptr as int) + (count - 1)) % 4096],
        )
    }
}

/// The fatal error an operation raises in state `c`, if any: a return with
/// an empty call stack underflows, a call with a full one overflows.
pub open spec fn op_error(c: CpuM, op: Ast) -> Option<CpuError> {
    match op {
        Ast::Return => if c.stack.len() == 0 {
            Some(CpuError::StackUnderflow)
        } else {
            None
        },
        Ast::Call(_) => if c.stack.len() >= 16 {
            Some(CpuError::StackOverflow)
        } else {
            None
        },
        _ => None,
    }
}

/// The effect of one decoded operation: how the post state relates to the
/// pre state (whose program counter has already been advanced past the
/// instruction). Every arm but `Random` is deterministic; `Random` admits
/// every possible drawn byte.
///
/// Registers are written in the order the engine writes them, so an
/// arithmetic instruction that targets register 0xF ends with the result,
/// not the flag. The key queried by the skip-on-key instructions is the
/// register value masked to the 4-bit key namespace. The block-copy
/// instructions copy registers 0 through X inclusive, following the
/// canonical instruction-set reference.
pub open spec fn op_rel(pre: SysM, op: Ast, post: SysM) -> bool {
    let c = pre.cpu;
    match op {
        Ast::Clear => post == (SysM { disp: Seq::new(2048, |i: int| 0u8), ..pre }),
        Ast::Return => c.stack.len() > 0 && post == (SysM {
            cpu: CpuM { pc: c.stack.last(), stack: c.stack.drop_last(), ..c },
            ..pre
        }),
        Ast::System(_) => post == pre,
        Ast::Jump(a) => post == (SysM { cpu: CpuM { pc: a, ..c }, ..pre }),
        Ast::JumpOffset(a) => post == (SysM {
            cpu: CpuM { pc: (a + c.regs[0]) as u16, ..c },
            ..pre
        }),
        Ast::Call(a) => c.stack.len() < 16 && post == (SysM {
            cpu: CpuM { stack: c.stack.push(c.pc), pc: a, ..c },
            ..pre
        }),
        Ast::SkipEqByte(x, kk) => post == (SysM {
            cpu: CpuM {
                pc: if c.regs[x as int] == kk {
                    add16(c.pc, 2)
                } else {
                    c.pc
                },
                ..c
            },
            ..pre
        }),
        Ast::SkipNotEqByte(x, kk) => post == (SysM {
            cpu: CpuM {
                pc: if c.regs[x as int] != kk {
                    add16(c.pc, 2)
                } else {
                    c.pc
                },
                ..c
            },
            ..pre
        }),
        Ast::SkipEqReg(x, y) => post == (SysM {
            cpu: CpuM {
                pc: if c.regs[x as int] == c.regs[y as int] {
                    add16(c.pc, 2)
                } else {
                    c.pc
                },
                ..c
            },
            ..pre
        }),
        Ast::SkipNotEqReg(x, y) => post == (SysM {
            cpu: CpuM {
                pc: if c.regs[x as int] != c.regs[y as int] {
                    add16(c.pc, 2)
                } else {
                    c.pc
                },
                ..c
            },
            ..pre
        }),
        Ast::LoadByte(x, kk) => post == (SysM {
            cpu: CpuM { regs: c.regs.update(x as int, kk), ..c },
            ..pre
        }),
        Ast::LoadReg(x, y) => post == (SysM {
            cpu: CpuM { regs: c.regs.update(x as int, c.regs[y as int]), ..c },
            ..pre
        }),
        Ast::LoadPointer(a) => post == (SysM { cpu: CpuM { pointer: a, ..c }, ..pre }),
        Ast::LoadFromDT(x) => post == (SysM {
            cpu: CpuM { regs: c.regs.update(x as int, c.dt), ..c },
            ..pre
        }),
        Ast::LoadKeyboard(x) => post == (SysM {
            cpu: CpuM { state: CpuState::AwaitingKey(x), ..c },
            kb: KbM { keys: pre.kb.keys, waiting: true, delivered: None },
            disp: pre.disp,
        }),
        Ast::LoadIntoDT(x) => post == (SysM {
            cpu: CpuM { dt: c.regs[x as int], ..c },
            ..pre
        }),
        Ast::LoadIntoST(x) => post == (SysM {
            cpu: CpuM { st: c.regs[x as int], ..c },
            ..pre
        }),
        Ast::LoadFont(x) => post == (SysM {
            cpu: CpuM { pointer: (c.regs[x as int] * 5) as u16, ..c },
            ..pre
        }),
        Ast::LoadDigits(x) => {
            let v = c.regs[x as int];
            let m1 = c.mem.update((c.pointer as int) % 4096, (v / 100) as u8);
            let m2 = m1.update(((c.pointer as int) + 1) % 4096, ((v % 100) / 10) as u8);
            let m3 = m2.update(((c.pointer as int) + 2) % 4096, (v % 10) as u8);
            post == (SysM { cpu: CpuM { mem: m3, ..c }, ..pre })
        },
        Ast::LoadIntoRegs(x) => post == (SysM {
            cpu: CpuM { regs: load_regs(c.regs, c.mem, c.pointer, x as int + 1), ..c },
            ..pre
        }),
        Ast::LoadFromRegs(x) => post == (SysM {
            cpu: CpuM { mem: store_regs(c.mem, c.regs, c.pointer, x as int + 1), ..c },
            ..pre
        }),
        Ast::AddByte(x, kk) => post == (SysM {
            cpu: CpuM { regs: c.regs.update(x as int, add8(c.regs[x as int], kk)), ..c },
            ..pre
        }),
        Ast::AddReg(x, y) => {
            let f: u8 = if c.regs[x as int] + c.regs[y as int] > 255 {
                1
            } else {
                0
            };
            let s = add8(c.regs[x as int], c.regs[y as int]);
            post == (SysM {
                cpu: CpuM { regs: c.regs.update(15, f).update(x as int, s), ..c },
                ..pre
            })
        },
        Ast::AddToPointer(x) => post == (SysM {
            cpu: CpuM { pointer: add16(c.pointer, c.regs[x as int] as u16), ..c },
            ..pre
        }),
        Ast::Random(x, kk) => exists|b: u8|
            post == (SysM {
                cpu: CpuM { regs: c.regs.update(x as int, b & kk), ..c },
                ..pre
            }),
        Ast::Draw(x, y, n) => {
            let rows = sprite_rows(c.mem, c.pointer, n as int);
            let col = plot_coll(pre.disp, c.regs[x as int], c.regs[y as int], rows);
            post == (SysM {
                cpu: CpuM {
                    regs: c.regs.update(15, if col {
                        1u8
                    } else {
                        0u8
                    }),
                    ..c
                },
                disp: plot_grid(pre.disp, c.regs[x as int], c.regs[y as int], rows),
                kb: pre.kb,
            })
        },
        Ast::SkipPressed(x) => {
            let k = c.regs[x as int] & 0xF;
            post == (SysM {
                cpu: CpuM {
                    pc: if pre.kb.keys & (1u16 << k) != 0 {
                        add16(c.pc, 2)
                    } else {
                        c.pc
                    },
                    ..c
                },
                ..pre
            })
        },
        Ast::SkipNotPressed(x) => {
            let k = c.regs[x as int] & 0xF;
            post == (SysM {
                cpu: CpuM {
                    pc: if pre.kb.keys & (1u16 << k) == 0 {
                        add16(c.pc, 2)
                    } else {
                        c.pc
                    },
                    ..c
                },
                ..pre
            })
        },
        Ast::Or(x, y) => post == (SysM {
            cpu: CpuM {
                regs: c.regs.update(x as int, c.regs[x as int] | c.regs[y as int]),
                ..c
            },
            ..pre
        }),
        Ast::And(x, y) => post == (SysM {
            cpu: CpuM {
                regs: c.regs.update(x as int, c.regs[x as int] & c.regs[y as int]),
                ..c
            },
            ..pre
        }),
        Ast::Xor(x, y) => post == (SysM {
            cpu: CpuM {
                regs: c.regs.update(x as int, c.regs[x as int] ^ c.regs[y as int]),
                ..c
            },
            ..pre
        }),
        Ast::ShiftRight(x) => {
            let r1 = c.regs.update(15, c.regs[x as int] & 1);
            post == (SysM {
                cpu: CpuM { regs: r1.update(x as int, r1[x as int] >> 1), ..c },
                ..pre
            })
        },
        Ast::ShiftLeft(x) => {
            let vx = c.regs[x as int];
            let r1 = c.regs.update(15, vx >> 7);
            post == (SysM { cpu: CpuM { regs: r1.update(x as int, vx << 1), ..c }, ..pre })
        },
        Ast::Sub(x, y) => {
            let f: u8 = if c.regs[x as int] >= c.regs[y as int] {
                1
            } else {
                0
            };
            let d = sub8(c.regs[x as int], c.regs[y as int]);
            post == (SysM {
                cpu: CpuM { regs: c.regs.update(15, f).update(x as int, d), ..c },
                ..pre
            })
        },
        Ast::SubNeg(x, y) => {
            let f: u8 = if c.regs[y as int] >= c.regs[x as int] {
                1
            } else {
                0
            };
            let d = sub8(c.regs[y as int], c.regs[x as int]);
            post == (SysM {
                cpu: CpuM { regs: c.regs.update(15, f).update(x as int, d), ..c },
                ..pre
            })
        },
    }
}

/// The state with the program counter advanced past the fetched instruction.
pub open spec fn advance_pc(s: SysM) -> SysM {
    SysM { cpu: CpuM { pc: add16(s.cpu.pc, 2), ..s.cpu }, ..s }
}

/// The state halted after a fatal error.
pub open spec fn halt(s: SysM) -> SysM {
    SysM { cpu: CpuM { state: CpuState::Halted, ..s.cpu }, ..s }
}

/// One successful sub-step. While awaiting a key, a fulfilled wait stores
/// the delivered key into the target register and resumes running — the
/// sub-step is consumed, normal fetch resumes on the next one — and an
/// unfulfilled wait makes the sub-step a stalled no-op. While running, the
/// word at the program counter is fetched and decoded, the program counter
/// advances by two, and the operation takes its effect.
pub open spec fn substep_ok(pre: SysM, post: SysM) -> bool {
    match pre.cpu.state {
        CpuState::Halted => false,
        CpuState::AwaitingKey(x) => match pre.kb.delivered {
            Some(k) => post == (SysM {
                cpu: CpuM {
                    regs: pre.cpu.regs.update(x as int, k),
                    state: CpuState::Running,
                    ..pre.cpu
                },
                kb: KbM { delivered: None, ..pre.kb },
                disp: pre.disp,
            }),
            None => post == pre,
        },
        CpuState::Running => match decode_spec(fetch_word(pre.cpu)) {
            Some(op) => op_error(advance_pc(pre).cpu, op) == Option::<CpuError>::None && op_rel(
                advance_pc(pre),
                op,
                post,
            ),
            None => false,
        },
    }
}

/// One failing sub-step: an unknown instruction word halts the engine with
/// the program counter still at the word, and a fatal operation (return on
/// an empty stack, call on a full one) halts it with the counter advanced.
pub open spec fn substep_err(pre: SysM, e: CpuError, post: SysM) -> bool {
    pre.cpu.state == CpuState::Running && {
        let w = fetch_word(pre.cpu);
        match decode_spec(w) {
            None => e == CpuError::Decode(DecodeError::UnknownInstruction(w)) && post == halt(pre),
            Some(op) => op_error(advance_pc(pre).cpu, op) == Some(e) && post == halt(
                advance_pc(pre),
            ),
        }
    }
}

/// `n` successful sub-steps in sequence.
pub open spec fn stepped(pre: SysM, post: SysM, n: nat) -> bool
    decreases n,
{
    if n == 0 {
        post == pre
    } else {
        exists|mid: SysM| stepped(pre, mid, (n - 1) as nat) && #[trigger] substep_ok(mid, post)
    }
}

/// One tick of timer decay applied after the sub-steps.
pub open spec fn decay(s: SysM) -> SysM {
    SysM { cpu: CpuM { dt: dec1(s.cpu.dt), st: dec1(s.cpu.st), ..s.cpu }, ..s }
}

/// A tick on this state does nothing at all: the engine is halted, or it is
/// awaiting a key that has not arrived, so every sub-step stalls and the
/// timers do not decay.
pub open spec fn idle(s: SysM) -> bool {
    match s.cpu.state {
        CpuState::Halted => true,
        CpuState::AwaitingKey(_) => match s.kb.delivered {
            None => true,
            Some(_) => false,
        },
        CpuState::Running => false,
    }
}

/// For every register pair and all 8-bit values, adding register Y into
/// register X stores the unsigned sum modulo 256 in register X.
pub proof fn lemma_add_reg_value(pre: SysM, post: SysM, x: u8, y: u8)
    requires
        pre.cpu.wf(),
        x < 16,
        y < 16,
        op_rel(pre, Ast::AddReg(x, y), post),
    ensures
        post.cpu.regs[x as int] == (pre.cpu.regs[x as int] + pre.cpu.regs[y as int]) % 256,
{
}

/// For every register pair with X other than the flag register itself (whose
/// value the sum then overwrites), adding register Y into register X sets
/// register 0xF to 1 iff the unsigned sum exceeds 255, and to 0 otherwise.
pub proof fn lemma_add_reg_flag(pre: SysM, post: SysM, x: u8, y: u8)
    requires
        pre.cpu.wf(),
        x < 16,
        y < 16,
        x != 15,
        op_rel(pre, Ast::AddReg(x, y), post),
    ensures
        post.cpu.regs[15] == (if pre.cpu.regs[x as int] + pre.cpu.regs[y as int] > 255 {
            1u8
        } else {
            0u8
        }),
{
}

/// For every register pair and all 8-bit values, subtracting register Y from
/// register X stores the difference modulo 256 in register X.
pub proof fn lemma_sub_reg_value(pre: SysM, post: SysM, x: u8, y: u8)
    requires
        pre.cpu.wf(),
        x < 16,
        y < 16,
        op_rel(pre, Ast::Sub(x, y), post),
    ensures
        post.cpu.regs[x as int] == (pre.cpu.regs[x as int] - pre.cpu.regs[y as int]) % 256,
{
}

/// For every register pair with X other than the flag register itself (whose
/// value the difference then overwrites), subtracting register Y from
/// register X sets register 0xF to 1 iff no borrow occurred — register X
/// was at least register Y — and to 0 otherwise.
pub proof fn lemma_sub_reg_flag(pre: SysM, post: SysM, x: u8, y: u8)
    requires
        pre.cpu.wf(),
        x < 16,
        y < 16,
        x != 15,
        op_rel(pre, Ast::Sub(x, y), post),
    ensures
        post.cpu.regs[15] == (if pre.cpu.regs[x as int] >= pre.cpu.regs[y as int] {
            1u8
        } else {
            0u8
        }),
{
}

/// A return executed with an empty call stack fails with `StackUnderflow` —
/// a typed error the tick returns, never a panic — and the engine halts
/// with the program counter advanced past the instruction and everything
/// else unchanged.
pub proof fn lemma_return_empty_stack(pre: SysM, e: CpuError, post: SysM)
    requires
        pre.cpu.state == CpuState::Running,
        decode_spec(fetch_word(pre.cpu)) == Some(Ast::Return),
        pre.cpu.stack.len() == 0,
        substep_err(pre, e, post),
    ensures
        e == CpuError::StackUnderflow,
        post == halt(advance_pc(pre)),
{
}

/// Relies on rand::random: draws a value from the thread-local generator.
/// Nothing is promised of the result.
pub assume_specification<T>[ rand::random::<T> ]() -> (r: T)
    where
        rand::distributions::Standard: rand::distributions::Distribution<T>,
;

/// The execution engine.
pub struct Cpu {
    memory: Vec<u8>,
    registers: Vec<u8>,
    pointer: u16,
    program_counter: u16,
    delay_timer: u8,
    sound_timer: u8,
    stack: Vec<u16>,
    state: CpuState,
    speed: usize,
}

impl View for Cpu {
    type V = CpuM;

    closed spec fn view(&self) -> CpuM {
        CpuM {
            mem: self.memory@,
            regs: self.registers@,
            pointer: self.pointer,
            pc: self.program_counter,
            dt: self.delay_timer,
            st: self.sound_timer,
            stack: self.stack@,
            state: self.state,
            speed: self.speed,
        }
    }
}

impl Cpu {
    /// A freshly constructed engine: memory zero-filled except for the font
    /// table at its base, registers and timers zeroed, the program counter
    /// at 0x200, an empty call stack, running at 10 instructions per tick.
    pub fn new() -> (r: Cpu)
        ensures
            r@.wf(),
            forall|i: int| 0 <= i < 80 ==> r@.mem[i] == font_seq()[i],
            forall|i: int| 80 <= i < 4096 ==> r@.mem[i] == 0,
            forall|i: int| 0 <= i < 16 ==> r@.regs[i] == 0,
            r@.pointer == 0,
            r@.pc == 0x200,
            r@.dt == 0,
            r@.st == 0,
            r@.stack.len() == 0,
            r@.state == CpuState::Running,
            r@.speed == 10,
    {
        let mut memory: Vec<u8> = Vec::new();
        while memory.len() < 4096
            invariant
                memory@.len() <= 4096,
                forall|i: int| 0 <= i < memory@.len() ==> memory@[i] == 0,
            decreases 4096 - memory@.len(),
        {
            memory.push(0);
        }
        let font = font_bytes();
        let mut i: usize = 0;
        while i < 80
            invariant
                i <= 80,
                memory@.len() == 4096,
                font@ == font_seq(),
                forall|k: int| 0 <= k < i ==> memory@[k] == font_seq()[k],
                forall|k: int| i <= k < 4096 ==> memory@[k] == 0,
            decreases 80 - i,
        {
            memory.set(i, font[i]);
            i += 1;
        }
        let mut registers: Vec<u8> = Vec::new();
        while registers.len() < 16
            invariant
                registers@.len() <= 16,
                forall|i: int| 0 <= i < registers@.len() ==> registers@[i] == 0,
            decreases 16 - registers@.len(),
        {
            registers.push(0);
        }
        Cpu {
            memory,
            registers,
            pointer: 0,
            program_counter: 0x200,
            delay_timer: 0,
            sound_timer: 0,
            stack: Vec::new(),
            state: CpuState::Running,
            speed: 10,
        }
    }

    /// Copy a program into memory starting at address 0x200. A program
    /// longer than the 3584 available bytes is rejected whole with
    /// `CapacityExceeded` and nothing is written.
    pub fn load_program(&mut self, program: &[u8]) -> (r: Result<(), CpuError>)
        requires
            old(self)@.wf(),
        ensures
            final(self)@.wf(),
            program@.len() > 3584 ==> r == Err::<(), CpuError>(CpuError::CapacityExceeded)
                && final(self)@ == old(self)@,
            program@.len() <= 3584 ==> {
                &&& r == Ok::<(), CpuError>(())
                &&& final(self)@.mem.len() == 4096
                &&& forall|i: int|
                    0 <= i < program@.len() ==> final(self)@.mem[0x200 + i] == program@[i]
                &&& forall|i: int|
                    (0 <= i < 0x200 || 0x200 + program@.len() <= i < 4096)
                        ==> final(self)@.mem[i] == old(self)@.mem[i]
                &&& final(self)@ == CpuM { mem: final(self)@.mem, ..old(self)@ }
            },
    {
        if program.len() > 3584 {
            return Err(CpuError::CapacityExceeded);
        }
        let mut i: usize = 0;
        while i < program.len()
            invariant
                old(self)@.wf(),
                program@.len() <= 3584,
                i <= program@.len(),
                self@.mem.len() == 4096,
                forall|k: int| 0 <= k < i ==> self@.mem[0x200 + k] == program@[k],
                forall|k: int|
                    (0 <= k < 0x200 || 0x200 + i <= k < 4096)
                        ==> self@.mem[k] == old(self)@.mem[k],
                self@ == (CpuM { mem: self@.mem, ..old(self)@ }),
            decreases program@.len() - i,
        {
            let b = program[i];
            self.memory.set(0x200 + i, b);
            i += 1;
        }
        Ok(())
    }

    /// The value of register `i`.
    pub fn register(&self, i: u8) -> (v: u8)
        requires
            self@.wf(),
            i < 16,
        ensures
            v == self@.regs[i as int],
    {
        self.registers[i as usize]
    }

    /// The byte at memory address `addr`.
    pub fn memory_at(&self, addr: u16) -> (v: u8)
        requires
            self@.wf(),
            addr < 4096,
        ensures
            v == self@.mem[addr as int],
    {
        self.memory[addr as usize]
    }

    /// The program counter.
    pub fn program_counter(&self) -> (v: u16)
        ensures
            v == self@.pc,
    {
        self.program_counter
    }

    /// The index/pointer register.
    pub fn pointer(&self) -> (v: u16)
        ensures
            v == self@.pointer,
    {
        self.pointer
    }

    /// The delay timer.
    pub fn delay_timer(&self) -> (v: u8)
        ensures
            v == self@.dt,
    {
        self.delay_timer
    }

    /// The sound timer.
    pub fn sound_timer(&self) -> (v: u8)
        ensures
            v == self@.st,
    {
        self.sound_timer
    }

    /// The number of saved addresses on the call stack.
    pub fn stack_len(&self) -> (v: usize)
        ensures
            v == self@.stack.len(),
    {
        self.stack.len()
    }

    /// The number of instructions executed per tick.
    pub fn speed(&self) -> (v: usize)
        ensures
            v == self@.speed,
    {
        self.speed
    }

    /// Set the number of instructions executed per tick.
    pub fn set_speed(&mut self, speed: usize)
        ensures
            final(self)@ == (CpuM { speed, ..old(self)@ }),
    {
        self.speed = speed;
    }

    /// The execution mode.
    pub fn state(&self) -> (v: CpuState)
        ensures
            v == self@.state,
    {
        self.state
    }

    /// Run one tick: up to `speed` fetch-decode-execute sub-steps, then one
    /// step of timer decay, then report whether the tone should be audible
    /// (sound timer nonzero). A tick on an idle engine — halted, or stalled
    /// on a key-wait that no keypress has fulfilled — changes nothing and
    /// only reports the tone. The timers do not decay on such a fully
    /// stalled tick. A fatal error halts the engine mid-tick, skips the
    /// decay, and is returned.
    pub fn cycle(&mut self, renderer: &mut Renderer, keyboard: &mut Keyboard) -> (r: Result<
        bool,
        CpuError,
    >)
        requires
            old(self)@.wf(),
            old(renderer).wf(),
            old(keyboard)@.wf(),
        ensures
            final(self)@.wf(),
            final(renderer).wf(),
            final(keyboard)@.wf(),
            ({
                let pre = SysM { cpu: old(self)@, disp: old(renderer)@, kb: old(keyboard)@ };
                let post = SysM { cpu: final(self)@, disp: final(renderer)@, kb: final(keyboard)@ };
                match r {
                    Ok(tone) => if idle(pre) {
                        post == pre && tone == (pre.cpu.st > 0)
                    } else {
                        exists|mid: SysM|
                            stepped(pre, mid, pre.cpu.speed as nat) && post == #[trigger] decay(mid)
                                && tone == (post.cpu.st > 0)
                    },
                    Err(e) => exists|mid: SysM, i: nat|
                        i < pre.cpu.speed && #[trigger] stepped(pre, mid, i) && substep_err(
                            mid,
                            e,
                            post,
                        ),
                }
            }),
    {
        let idle_now = match self.state {
            CpuState::Halted => true,
            CpuState::AwaitingKey(_) => !keyboard.has_delivery(),
            CpuState::Running => false,
        };
        if idle_now {
            return Ok(self.sound_timer > 0);
        }
        let ghost pre = SysM { cpu: old(self)@, disp: old(renderer)@, kb: old(keyboard)@ };
        let speed = self.speed;
        let mut i: usize = 0;
        while i < speed
            invariant
                self@.wf(),
                renderer.wf(),
                keyboard@.wf(),
                i <= speed,
                pre == (SysM { cpu: old(self)@, disp: old(renderer)@, kb: old(keyboard)@ }),
                speed == pre.cpu.speed,
                stepped(pre, SysM { cpu: self@, disp: renderer@, kb: keyboard@ }, i as nat),
                !(self@.state matches CpuState::Halted),
            decreases speed - i,
        {
            let ghost cur = SysM { cpu: self@, disp: renderer@, kb: keyboard@ };
            match self.sub_step(renderer, keyboard) {
                Ok(()) => {
                    proof {
                        let nxt = SysM { cpu: self@, disp: renderer@, kb: keyboard@ };
                        assert(substep_ok(cur, nxt));
                        assert(stepped(pre, nxt, (i + 1) as nat));
                    }
                },
                Err(e) => {
                    proof {
                        let nxt = SysM { cpu: self@, disp: renderer@, kb: keyboard@ };
                        assert(stepped(pre, cur, i as nat));
                        assert(substep_err(cur, e, nxt));
                    }
                    return Err(e);
                },
            }
            i += 1;
        }
        let ghost mid = SysM { cpu: self@, disp: renderer@, kb: keyboard@ };
        self.update_timers();
        proof {
            let post = SysM { cpu: self@, disp: renderer@, kb: keyboard@ };
            assert(stepped(pre, mid, pre.cpu.speed as nat));
            assert(post == decay(mid));
        }
        Ok(self.sound_timer > 0)
    }

    /// One fetch-decode-execute sub-step (or the key-wait check that stands
    /// in for one while the engine is stalled). On a fatal error the engine
    /// transitions to `Halted` and the error is returned.
    fn sub_step(&mut self, renderer: &mut Renderer, keyboard: &mut Keyboard) -> (r: Result<
        (),
        CpuError,
    >)
        requires
            old(self)@.wf(),
            old(renderer).wf(),
            old(keyboard)@.wf(),
            !(old(self)@.state matches CpuState::Halted),
        ensures
            final(self)@.wf(),
            final(renderer).wf(),
            final(keyboard)@.wf(),
            ({
                let pre = SysM { cpu: old(self)@, disp: old(renderer)@, kb: old(keyboard)@ };
                let post = SysM { cpu: final(self)@, disp: final(renderer)@, kb: final(keyboard)@ };
                match r {
                    Ok(()) => substep_ok(pre, post) && !(final(self)@.state matches
                        CpuState::Halted),
                    Err(e) => substep_err(pre, e, post),
                }
            }),
    {
        match self.state {
            // a tick never sub-steps a halted engine
            CpuState::Halted => Ok(()),
            CpuState::AwaitingKey(x) => {
                match keyboard.take_delivered() {
                    Some(k) => {
                        self.registers.set(x as usize, k);
                        self.state = CpuState::Running;
                        Ok(())
                    },
                    None => Ok(()),
                }
            },
            CpuState::Running => {
                let hi = self.memory[(self.program_counter as usize) % 4096];
                let lo = self.memory[(self.program_counter as usize + 1) % 4096];
                let w: u16 = ((hi as u16) << 8) | (lo as u16);
                match Ast::parse(w) {
                    Ok(op) => {
                        proof {
                            lemma_decode_wf(w);
                        }
                        self.program_counter = self.program_counter.wrapping_add(2);
                        match self.execute_op(renderer, keyboard, op) {
                            Ok(()) => Ok(()),
                            Err(e) => {
                                self.state = CpuState::Halted;
                                Err(e)
                            },
                        }
                    },
                    Err(_) => {
                        self.state = CpuState::Halted;
                        Err(CpuError::Decode(DecodeError::UnknownInstruction(w)))
                    },
                }
            },
        }
    }

    /// Execute one decoded operation against the display surface and the key
    /// input state. The program counter has already been advanced past the
    /// instruction. A return with an empty call stack and a call with a full
    /// one fail without changing anything; every other operation takes its
    /// effect per `op_rel`.
    fn execute_op(&mut self, renderer: &mut Renderer, keyboard: &mut Keyboard, op: Ast) -> (r:
        Result<(), CpuError>)
        requires
            old(self)@.wf(),
            old(renderer).wf(),
            old(keyboard)@.wf(),
            wf_op(op),
        ensures
            final(self)@.wf(),
            final(renderer).wf(),
            final(keyboard)@.wf(),
            (match op_error(old(self)@, op) {
                Some(e) => r == Err::<(), CpuError>(e) && final(self)@ == old(self)@
                    && final(renderer)@ == old(renderer)@ && final(keyboard)@ == old(keyboard)@,
                None => r == Ok::<(), CpuError>(()) && op_rel(
                    SysM { cpu: old(self)@, disp: old(renderer)@, kb: old(keyboard)@ },
                    op,
                    SysM { cpu: final(self)@, disp: final(renderer)@, kb: final(keyboard)@ },
                ),
            }),
    {
        let ghost pre_sys = SysM { cpu: old(self)@, disp: old(renderer)@, kb: old(keyboard)@ };
        match op {
            Ast::Clear => {
                renderer.clear();
                proof {
                    assert(renderer@ =~= Seq::new(2048, |i: int| 0u8));
                }
                Ok(())
            },
            Ast::Return => {
                match self.stack.pop() {
                    Some(a) => {
                        self.program_counter = a;
                        Ok(())
                    },
                    None => Err(CpuError::StackUnderflow),
                }
            },
            Ast::System(_) => Ok(()),
            Ast::Jump(a) => {
                self.program_counter = a;
                Ok(())
            },
            Ast::JumpOffset(a) => {
                self.program_counter = a + (self.registers[0] as u16);
                Ok(())
            },
            Ast::Call(a) => {
                if self.stack.len() >= 16 {
                    return Err(CpuError::StackOverflow);
                }
                self.stack.push(self.program_counter);
                self.program_counter = a;
                Ok(())
            },
            Ast::SkipEqByte(x, kk) => {
                if self.registers[x as usize] == kk {
                    self.program_counter = self.program_counter.wrapping_add(2);
                }
                Ok(())
            },
            Ast::SkipNotEqByte(x, kk) => {
                if self.registers[x as usize] != kk {
                    self.program_counter = self.program_counter.wrapping_add(2);
                }
                Ok(())
            },
            Ast::SkipEqReg(x, y) => {
                if self.registers[x as usize] == self.registers[y as usize] {
                    self.program_counter = self.program_counter.wrapping_add(2);
                }
                Ok(())
            },
            Ast::SkipNotEqReg(x, y) => {
                if self.registers[x as usize] != self.registers[y as usize] {
                    self.program_counter = self.program_counter.wrapping_add(2);
                }
                Ok(())
            },
            Ast::LoadByte(x, kk) => {
                self.registers.set(x as usize, kk);
                Ok(())
            },
            Ast::LoadReg(x, y) => {
                let v = self.registers[y as usize];
                self.registers.set(x as usize, v);
                Ok(())
            },
            Ast::LoadPointer(a) => {
                self.pointer = a;
                Ok(())
            },
            Ast::LoadFromDT(x) => {
                let v = self.delay_timer;
                self.registers.set(x as usize, v);
                Ok(())
            },
            Ast::LoadKeyboard(x) => {
                keyboard.set_callback();
                self.state = CpuState::AwaitingKey(x);
                Ok(())
            },
            Ast::LoadIntoDT(x) => {
                self.delay_timer = self.registers[x as usize];
                Ok(())
            },
            Ast::LoadIntoST(x) => {
                self.sound_timer = self.registers[x as usize];
                Ok(())
            },
            Ast::LoadFont(x) => {
                self.pointer = (self.registers[x as usize] as u16) * 5;
                Ok(())
            },
            Ast::LoadDigits(x) => {
                let vx = self.registers[x as usize];
                let p = self.pointer as usize;
                self.memory.set(p % 4096, vx / 100);
                self.memory.set((p + 1) % 4096, (vx % 100) / 10);
                self.memory.set((p + 2) % 4096, vx % 10);
                Ok(())
            },
            Ast::LoadIntoRegs(x) => {
                let mut k: usize = 0;
                while k < x as usize + 1
                    invariant
                        old(self)@.wf(),
                        x < 16,
                        k <= x as usize + 1,
                        self@.regs.len() == 16,
                        self@.mem.len() == 4096,
                        self@.regs == load_regs(
                            old(self)@.regs,
                            old(self)@.mem,
                            old(self)@.pointer,
                            k as int,
                        ),
                        self@ == (CpuM { regs: self@.regs, ..old(self)@ }),
                    decreases x as usize + 1 - k,
                {
                    let v = self.memory[(self.pointer as usize + k) % 4096];
                    self.registers.set(k, v);
                    k += 1;
                }
                Ok(())
            },
            Ast::LoadFromRegs(x) => {
                let mut k: usize = 0;
                while k < x as usize + 1
                    invariant
                        old(self)@.wf(),
                        x < 16,
                        k <= x as usize + 1,
                        self@.regs.len() == 16,
                        self@.mem.len() == 4096,
                        self@.mem == store_regs(
                            old(self)@.mem,
                            old(self)@.regs,
                            old(self)@.pointer,
                            k as int,
                        ),
                        self@ == (CpuM { mem: self@.mem, ..old(self)@ }),
                    decreases x as usize + 1 - k,
                {
                    let v = self.registers[k];
                    self.memory.set((self.pointer as usize + k) % 4096, v);
                    k += 1;
                }
                Ok(())
            },
            Ast::AddByte(x, kk) => {
                let v = self.registers[x as usize].wrapping_add(kk);
                self.registers.set(x as usize, v);
                Ok(())
            },
            Ast::AddReg(x, y) => {
                let vx = self.registers[x as usize];
                let vy = self.registers[y as usize];
                let f: u8 = if (vx as u16) + (vy as u16) > 255 {
                    1
                } else {
                    0
                };
                self.registers.set(15, f);
                self.registers.set(x as usize, vx.wrapping_add(vy));
                Ok(())
            },
            Ast::AddToPointer(x) => {
                self.pointer = self.pointer.wrapping_add(self.registers[x as usize] as u16);
                Ok(())
            },
            Ast::Random(x, kk) => {
                let b: u8 = rand::random();
                self.registers.set(x as usize, b & kk);
                proof {
                    let ghost post_sys = SysM { cpu: self@, disp: renderer@, kb: keyboard@ };
                    assert(post_sys == (SysM {
                        cpu: CpuM {
                            regs: old(self)@.regs.update(x as int, b & kk),
                            ..old(self)@
                        },
                        ..pre_sys
                    }));
                    assert(op_rel(pre_sys, Ast::Random(x, kk), post_sys));
                }
                Ok(())
            },
            Ast::Draw(x, y, n) => {
                let mut rows: Vec<u8> = Vec::new();
                let mut k: usize = 0;
                while k < n as usize
                    invariant
                        old(self)@.wf(),
                        n < 16,
                        k <= n as usize,
                        self@ == old(self)@,
                        rows@.len() == k,
                        forall|i: int|
                            0 <= i < k ==> rows@[i] == old(self)@.mem[((old(self)@.pointer as int)
                                + i) % 4096],
                    decreases n as usize - k,
                {
                    let v = self.memory[(self.pointer as usize + k) % 4096];
                    rows.push(v);
                    k += 1;
                }
                proof {
                    assert(rows@ =~= sprite_rows(old(self)@.mem, old(self)@.pointer, n as int));
                }
                let vx = self.registers[x as usize];
                let vy = self.registers[y as usize];
                let col = renderer.plot_sprite(vx, vy, rows.as_slice());
                let f: u8 = if col {
                    1
                } else {
                    0
                };
                self.registers.set(15, f);
                Ok(())
            },
            Ast::SkipPressed(x) => {
                let key = self.registers[x as usize] & 0xF;
                proof {
                    lemma_nibble(old(self)@.regs[x as int]);
                }
                if keyboard.is_pressed(key) {
                    self.program_counter = self.program_counter.wrapping_add(2);
                }
                Ok(())
            },
            Ast::SkipNotPressed(x) => {
                let key = self.registers[x as usize] & 0xF;
                proof {
                    lemma_nibble(old(self)@.regs[x as int]);
                }
                if !keyboard.is_pressed(key) {
                    self.program_counter = self.program_counter.wrapping_add(2);
                }
                Ok(())
            },
            Ast::Or(x, y) => {
                let v = self.registers[x as usize] | self.registers[y as usize];
                self.registers.set(x as usize, v);
                Ok(())
            },
            Ast::And(x, y) => {
                let v = self.registers[x as usize] & self.registers[y as usize];
                self.registers.set(x as usize, v);
                Ok(())
            },
            Ast::Xor(x, y) => {
                let v = self.registers[x as usize] ^ self.registers[y as usize];
                self.registers.set(x as usize, v);
                Ok(())
            },
            Ast::ShiftRight(x) => {
                let vx = self.registers[x as usize];
                self.registers.set(15, vx & 1);
                let v2 = self.registers[x as usize];
                self.registers.set(x as usize, v2 >> 1);
                Ok(())
            },
            Ast::ShiftLeft(x) => {
                let vx = self.registers[x as usize];
                self.registers.set(15, vx >> 7);
                self.registers.set(x as usize, vx << 1);
                Ok(())
            },
            Ast::Sub(x, y) => {
                let vx = self.registers[x as usize];
                let vy = self.registers[y as usize];
                let f: u8 = if vx >= vy {
                    1
                } else {
                    0
                };
                self.registers.set(15, f);
                self.registers.set(x as usize, vx.wrapping_sub(vy));
                Ok(())
            },
            Ast::SubNeg(x, y) => {
                let vx = self.registers[x as usize];
                let vy = self.registers[y as usize];
                let f: u8 = if vy >= vx {
                    1
                } else {
                    0
                };
                self.registers.set(15, f);
                self.registers.set(x as usize, vy.wrapping_sub(vx));
                Ok(())
            },
        }
    }

    /// Decay both timers once: down by one each, floored at zero.
    fn update_timers(&mut self)
        ensures
            final(self)@ == (CpuM {
                dt: dec1(old(self)@.dt),
                st: dec1(old(self)@.st),
                ..old(self)@
            }),
    {
        if self.delay_timer > 0 {
            self.delay_timer = self.delay_timer - 1;
        }
        if self.sound_timer > 0 {
            self.sound_timer = self.sound_timer - 1;
        }
    }
}

} // verus!
