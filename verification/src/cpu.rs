//! The CHIP-8 / SuperCHIP execution engine: registers, memory, call stack,
//! timers and the HP48 persistent bytes, together with the fetch-decode-
//! execute cycle. Every instruction handler is proved to match a
//! mathematical transition function over the machine model [`CpuM`].

use vstd::prelude::*;

use crate::graphics::blank_grid;
use crate::graphics::compose_line;
use crate::graphics::grid_wf;
use crate::graphics::line_collision;
use crate::graphics::scrolled_down;
use crate::graphics::scrolled_left;
use crate::graphics::scrolled_right;
use crate::graphics::Graphics;
use crate::graphics::Mode;
use crate::io::IO;

verus! {

/// Size of the addressable memory, in bytes.
pub const MAX_RAM: usize = 4096;

/// First memory address of the program image.
pub const ROM_BASE: usize = 0x200;

/// Index of the register that doubles as carry, borrow and collision flag.
pub const FLAG: usize = 15;

/// Why a cycle could not be executed. Every variant is fatal: the machine
/// state is left with the program counter already advanced past the
/// offending opcode and nothing else changed.
#[derive(Clone, Copy, PartialEq, Eq, Structural, Debug)]
pub enum CpuError {
    /// No dispatch pattern matches the decoded opcode; carries the opcode.
    UnknownOpcode(u16),
    /// A subroutine call found all sixteen stack frames in use.
    StackOverflow,
    /// A subroutine return found no frame to pop.
    StackUnderflow,
}

/// The built-in font: sixteen 5-byte glyphs for the standard set followed
/// by sixteen 10-byte glyphs for the SuperCHIP extended set.
pub open spec fn sprite_seq() -> Seq<u8> {
    seq![
        0xF0, 0x90, 0x90, 0x90, 0xF0, 0x20, 0x60, 0x20, 0x20, 0x70,
        0xF0, 0x10, 0xF0, 0x80, 0xF0, 0xF0, 0x10, 0xF0, 0x10, 0xF0,
        0x90, 0x90, 0xF0, 0x10, 0x10, 0xF0, 0x80, 0xF0, 0x10, 0xF0,
        0xF0, 0x80, 0xF0, 0x90, 0xF0, 0xF0, 0x10, 0x20, 0x40, 0x40,
        0xF0, 0x90, 0xF0, 0x90, 0xF0, 0xF0, 0x90, 0xF0, 0x10, 0xF0,
        0xF0, 0x90, 0xF0, 0x90, 0x90, 0xE0, 0x90, 0xE0, 0x90, 0xE0,
        0xF0, 0x80, 0x80, 0x80, 0xF0, 0xE0, 0x90, 0x90, 0x90, 0xE0,
        0xF0, 0x80, 0xF0, 0x80, 0xF0, 0xF0, 0x80, 0xF0, 0x80, 0x80,
        0x00, 0x3C, 0x42, 0x42, 0x42, 0x42, 0x42, 0x42, 0x3C, 0x00,
        0x00, 0x08, 0x38, 0x08, 0x08, 0x08, 0x08, 0x08, 0x3E, 0x00,
        0x00, 0x38, 0x44, 0x04, 0x08, 0x10, 0x20, 0x44, 0x7C, 0x00,
        0x00, 0x38, 0x44, 0x04, 0x18, 0x04, 0x04, 0x44, 0x38, 0x00,
        0x00, 0x0C, 0x14, 0x24, 0x24, 0x7E, 0x04, 0x04, 0x0E, 0x00,
        0x00, 0x3E, 0x20, 0x20, 0x3C, 0x02, 0x02, 0x42, 0x3C, 0x00,
        0x00, 0x0E, 0x10, 0x20, 0x3C, 0x22, 0x22, 0x22, 0x1C, 0x00,
        0x00, 0x7E, 0x42, 0x02, 0x04, 0x04, 0x08, 0x08, 0x08, 0x00,
        0x00, 0x3C, 0x42, 0x42, 0x3C, 0x42, 0x42, 0x42, 0x3C, 0x00,
        0x00, 0x3C, 0x42, 0x42, 0x42, 0x3E, 0x02, 0x04, 0x78, 0x00,
        0x00, 0x18, 0x08, 0x14, 0x14, 0x14, 0x1C, 0x22, 0x77, 0x00,
        0x00, 0x7C, 0x22, 0x22, 0x3C, 0x22, 0x22, 0x22, 0x7C, 0x00,
        0x00, 0x1E, 0x22, 0x40, 0x40, 0x40, 0x40, 0x22, 0x1C, 0x00,
        0x00, 0x78, 0x24, 0x22, 0x22, 0x22, 0x22, 0x24, 0x78, 0x00,
        0x00, 0x7E, 0x22, 0x28, 0x38, 0x28, 0x20, 0x22, 0x7E, 0x00,
        0x00, 0x7E, 0x22, 0x28, 0x38, 0x28, 0x20, 0x20, 0x70, 0x00,
    ]
}

/// The built-in font as an owned vector, equal to [`sprite_seq`].
fn sprite_set() -> (v: Vec<u8>)
    ensures
        v@ == sprite_seq(),
{
    let v: Vec<u8> = vec![
        0xF0, 0x90, 0x90, 0x90, 0xF0, 0x20, 0x60, 0x20, 0x20, 0x70,
        0xF0, 0x10, 0xF0, 0x80, 0xF0, 0xF0, 0x10, 0xF0, 0x10, 0xF0,
        0x90, 0x90, 0xF0, 0x10, 0x10, 0xF0, 0x80, 0xF0, 0x10, 0xF0,
        0xF0, 0x80, 0xF0, 0x90, 0xF0, 0xF0, 0x10, 0x20, 0x40, 0x40,
        0xF0, 0x90, 0xF0, 0x90, 0xF0, 0xF0, 0x90, 0xF0, 0x10, 0xF0,
        0xF0, 0x90, 0xF0, 0x90, 0x90, 0xE0, 0x90, 0xE0, 0x90, 0xE0,
        0xF0, 0x80, 0x80, 0x80, 0xF0, 0xE0, 0x90, 0x90, 0x90, 0xE0,
        0xF0, 0x80, 0xF0, 0x80, 0xF0, 0xF0, 0x80, 0xF0, 0x80, 0x80,
        0x00, 0x3C, 0x42, 0x42, 0x42, 0x42, 0x42, 0x42, 0x3C, 0x00,
        0x00, 0x08, 0x38, 0x08, 0x08, 0x08, 0x08, 0x08, 0x3E, 0x00,
        0x00, 0x38, 0x44, 0x04, 0x08, 0x10, 0x20, 0x44, 0x7C, 0x00,
        0x00, 0x38, 0x44, 0x04, 0x18, 0x04, 0x04, 0x44, 0x38, 0x00,
        0x00, 0x0C, 0x14, 0x24, 0x24, 0x7E, 0x04, 0x04, 0x0E, 0x00,
        0x00, 0x3E, 0x20, 0x20, 0x3C, 0x02, 0x02, 0x42, 0x3C, 0x00,
        0x00, 0x0E, 0x10, 0x20, 0x3C, 0x22, 0x22, 0x22, 0x1C, 0x00,
        0x00, 0x7E, 0x42, 0x02, 0x04, 0x04, 0x08, 0x08, 0x08, 0x00,
        0x00, 0x3C, 0x42, 0x42, 0x3C, 0x42, 0x42, 0x42, 0x3C, 0x00,
        0x00, 0x3C, 0x42, 0x42, 0x42, 0x3E, 0x02, 0x04, 0x78, 0x00,
        0x00, 0x18, 0x08, 0x14, 0x14, 0x14, 0x1C, 0x22, 0x77, 0x00,
        0x00, 0x7C, 0x22, 0x22, 0x3C, 0x22, 0x22, 0x22, 0x7C, 0x00,
        0x00, 0x1E, 0x22, 0x40, 0x40, 0x40, 0x40, 0x22, 0x1C, 0x00,
        0x00, 0x78, 0x24, 0x22, 0x22, 0x22, 0x22, 0x24, 0x78, 0x00,
        0x00, 0x7E, 0x22, 0x28, 0x38, 0x28, 0x20, 0x22, 0x7E, 0x00,
        0x00, 0x7E, 0x22, 0x28, 0x38, 0x28, 0x20, 0x20, 0x70, 0x00,
    ];
    proof {
        assert(v@ =~= sprite_seq());
    }
    v
}

/// The mathematical model of the whole machine state.
#[verifier::ext_equal]
pub struct CpuM {
    /// The sixteen general-purpose registers; index 15 is the flag.
    pub regs: Seq<u8>,
    /// The 4096 bytes of memory.
    pub mem: Seq<u8>,
    /// The 12-bit index register.
    pub index_reg: u16,
    /// The program counter, always below 4096.
    pub pc: u16,
    /// The stack pointer, pointing at the newest frame in use.
    pub sp: int,
    /// The sixteen return-address frames.
    pub stack: Seq<u16>,
    pub sound_timer: u8,
    pub delay_timer: u8,
    /// The eight HP48 persistent bytes.
    pub hp: Seq<u8>,
    /// Set once the exit instruction has executed; never cleared.
    pub halt: bool,
    /// The selected display resolution.
    pub mode: Mode,
    /// The framebuffer backing grid, 64 rows of 128 pixels.
    pub screen: Seq<Seq<bool>>,
    /// The input capability's pressed-state snapshot.
    pub pressed: Seq<bool>,
    /// The key a blocking key-wait returns.
    pub next_key: u8,
}

impl CpuM {
    /// Structural and range invariants that every reachable state obeys.
    pub open spec fn wf(self) -> bool {
        &&& self.regs.len() == 16
        &&& self.mem.len() == MAX_RAM
        &&& self.stack.len() == 16
        &&& self.hp.len() == 8
        &&& self.pressed.len() == 16
        &&& grid_wf(self.screen)
        &&& self.pc < MAX_RAM
        &&& self.index_reg < MAX_RAM
        &&& 0 <= self.sp <= 15
        &&& forall|i: int| 0 <= i < 16 ==> (#[trigger] self.stack[i]) < MAX_RAM
        &&& self.next_key < 16
    }
}

/// The execution engine: machine state plus the owned framebuffer and the
/// input-capability snapshot.
pub struct CPU {
    pub registers: [u8; 16],
    pub mem: [u8; MAX_RAM],
    pub index_reg: u16,
    pub pc: u16,
    pub sp: usize,
    pub stack: [u16; 16],
    pub sound_timer: u8,
    pub delay_timer: u8,
    pub hp_48_flags: [u8; 8],
    pub graphics: Graphics,
    pub io: IO,
    pub halt: bool,
}

impl View for CPU {
    type V = CpuM;

    open spec fn view(&self) -> CpuM {
        CpuM {
            regs: self.registers@,
            mem: self.mem@,
            index_reg: self.index_reg,
            pc: self.pc,
            sp: self.sp as int,
            stack: self.stack@,
            sound_timer: self.sound_timer,
            delay_timer: self.delay_timer,
            hp: self.hp_48_flags@,
            halt: self.halt,
            mode: self.graphics.mode,
            screen: self.graphics.grid(),
            pressed: self.io.pressed@,
            next_key: self.io.next_key,
        }
    }
}

/// The memory image at construction: the font table at the bottom, the
/// program image from [`ROM_BASE`] on, and zeroes elsewhere.
pub open spec fn initial_mem(rom: Seq<u8>) -> Seq<u8> {
    Seq::new(
        MAX_RAM as nat,
        |j: int|
            if j < sprite_seq().len() {
                sprite_seq()[j]
            } else if ROM_BASE <= j < ROM_BASE + rom.len() {
                rom[j - ROM_BASE]
            } else {
                0u8
            },
    )
}

/// The machine state right after construction from a program image.
pub open spec fn initial_cpu(rom: Seq<u8>) -> CpuM {
    CpuM {
        regs: Seq::new(16, |i: int| 0u8),
        mem: initial_mem(rom),
        index_reg: 0,
        pc: 0x200,
        sp: 1,
        stack: Seq::new(16, |i: int| 0u16),
        sound_timer: 0,
        delay_timer: 0,
        hp: Seq::new(8, |i: int| 0u8),
        halt: false,
        mode: Mode::Chip,
        screen: blank_grid(),
        pressed: Seq::new(16, |i: int| false),
        next_key: 0,
    }
}

/// A 12-bit address assembled from three hex digits.
pub open spec fn addr_of(d1: u8, d2: u8, d3: u8) -> u16
    recommends
        d1 < 16,
        d2 < 16,
        d3 < 16,
{
    (d1 * 256 + d2 * 16 + d3) as u16
}

/// An 8-bit value assembled from two hex digits.
pub open spec fn val_of(d1: u8, d2: u8) -> u8
    recommends
        d1 < 16,
        d2 < 16,
{
    (d1 * 16 + d2) as u8
}

/// The four hex digits of a 16-bit word, most significant first.
pub open spec fn nibbles_of(op: u16) -> (u8, u8, u8, u8) {
    (
        (op as int / 4096) as u8,
        ((op as int / 256) % 16) as u8,
        ((op as int / 16) % 16) as u8,
        (op as int % 16) as u8,
    )
}

/// The big-endian 16-bit opcode at the program counter.
pub open spec fn fetch_of(m: CpuM) -> u16 {
    (m.mem[m.pc as int] * 256 + m.mem[(m.pc + 1) % (MAX_RAM as int)]) as u16
}

/// Whether the virtual key numbered `k` is down in the snapshot: an index
/// outside the sixteen keys is never down.
pub open spec fn key_down(m: CpuM, k: u8) -> bool {
    k < 16 && m.pressed[k as int]
}

/// The state with the program counter advanced past the current opcode and
/// nothing else changed; also the state left behind by a failing cycle.
pub open spec fn err_state(pre: CpuM) -> CpuM {
    CpuM { pc: (((pre.pc + 2) as int) % (MAX_RAM as int)) as u16, ..pre }
}

/// Both timers decremented toward zero, as at the end of every cycle.
pub open spec fn m_tick(m: CpuM) -> CpuM {
    CpuM {
        delay_timer: if m.delay_timer > 0 {
            (m.delay_timer - 1) as u8
        } else {
            0u8
        },
        sound_timer: if m.sound_timer > 0 {
            (m.sound_timer - 1) as u8
        } else {
            0u8
        },
        ..m
    }
}

/// Clear the whole backing grid.
pub open spec fn m_cls(m: CpuM) -> CpuM {
    CpuM { screen: blank_grid(), ..m }
}

/// Pop the newest stack frame into the program counter.
pub open spec fn m_ret(m: CpuM) -> CpuM
    recommends
        m.sp >= 1,
{
    CpuM { pc: m.stack[m.sp], sp: m.sp - 1, ..m }
}

/// Push the program counter onto a fresh frame and jump to `addr`.
pub open spec fn m_call(m: CpuM, addr: u16) -> CpuM
    recommends
        m.sp <= 14,
{
    CpuM {
        stack: m.stack.update(m.sp + 1, m.pc),
        sp: m.sp + 1,
        pc: ((addr as int) % (MAX_RAM as int)) as u16,
        ..m
    }
}

/// Jump to `addr`, reduced modulo the memory size.
pub open spec fn m_jump(m: CpuM, addr: u16) -> CpuM {
    CpuM { pc: ((addr as int) % (MAX_RAM as int)) as u16, ..m }
}

/// Jump to `addr` plus register zero, modulo the memory size.
pub open spec fn m_jump_val_reg0(m: CpuM, addr: u16) -> CpuM {
    CpuM { pc: ((m.regs[0] + addr) % (MAX_RAM as int)) as u16, ..m }
}

/// Advance the program counter one extra instruction when `cond` holds.
pub open spec fn m_skip(m: CpuM, cond: bool) -> CpuM {
    if cond {
        CpuM { pc: (((m.pc + 2) as int) % (MAX_RAM as int)) as u16, ..m }
    } else {
        m
    }
}

/// Load an immediate into register `x`.
pub open spec fn m_mov_reg_val(m: CpuM, x: int, v: u8) -> CpuM {
    CpuM { regs: m.regs.update(x, v), ..m }
}

/// Add an immediate to register `x`, wrapping at eight bits.
pub open spec fn m_add_reg_val(m: CpuM, x: int, v: u8) -> CpuM {
    CpuM { regs: m.regs.update(x, ((m.regs[x] + v) % 256) as u8), ..m }
}

/// Copy register `y` into register `x`.
pub open spec fn m_mov_regs(m: CpuM, x: int, y: int) -> CpuM {
    CpuM { regs: m.regs.update(x, m.regs[y]), ..m }
}

/// Bitwise or of registers `x` and `y`, stored in `x`.
pub open spec fn m_or_regs(m: CpuM, x: int, y: int) -> CpuM {
    CpuM { regs: m.regs.update(x, m.regs[x] | m.regs[y]), ..m }
}

/// Bitwise and of registers `x` and `y`, stored in `x`.
pub open spec fn m_and_regs(m: CpuM, x: int, y: int) -> CpuM {
    CpuM { regs: m.regs.update(x, m.regs[x] & m.regs[y]), ..m }
}

/// Bitwise xor of registers `x` and `y`, stored in `x`.
pub open spec fn m_xor_regs(m: CpuM, x: int, y: int) -> CpuM {
    CpuM { regs: m.regs.update(x, m.regs[x] ^ m.regs[y]), ..m }
}

/// Add register `y` into register `x`: the flag records the carry first,
/// then the wrapped sum is stored.
pub open spec fn m_add_regs(m: CpuM, x: int, y: int) -> CpuM {
    let r1 = m.regs[x];
    let r2 = m.regs[y];
    let flag: u8 = if 0xFF - r1 < r2 {
        1u8
    } else {
        0u8
    };
    let flagged = m.regs.update(FLAG as int, flag);
    CpuM { regs: flagged.update(x, ((flagged[x] + r2) % 256) as u8), ..m }
}

/// Subtract register `reg2` from register `reg1` and store the wrapped
/// difference in `store`: the flag records the borrow's absence first.
pub open spec fn m_sub_regs(m: CpuM, reg1: int, reg2: int, store: int) -> CpuM {
    let r1 = m.regs[reg1];
    let r2 = m.regs[reg2];
    let flag: u8 = if r2 < r1 {
        1u8
    } else {
        0u8
    };
    let flagged = m.regs.update(FLAG as int, flag);
    CpuM { regs: flagged.update(store, ((r1 - r2) % 256) as u8), ..m }
}

/// Shift register `x` left by one; the flag records the old top bit first.
pub open spec fn m_shift_left(m: CpuM, x: int) -> CpuM {
    let flag: u8 = (m.regs[x] & 0x80) >> 7;
    let flagged = m.regs.update(FLAG as int, flag);
    CpuM { regs: flagged.update(x, flagged[x] << 1), ..m }
}

/// Shift register `x` right by one; the flag records the old bottom bit
/// first.
pub open spec fn m_shift_right(m: CpuM, x: int) -> CpuM {
    let flag: u8 = m.regs[x] & 1;
    let flagged = m.regs.update(FLAG as int, flag);
    CpuM { regs: flagged.update(x, flagged[x] >> 1), ..m }
}

/// Load `addr`, reduced modulo the memory size, into the index register.
pub open spec fn m_set_i(m: CpuM, addr: u16) -> CpuM {
    CpuM { index_reg: (((addr as int)) % (MAX_RAM as int)) as u16, ..m }
}

/// Mask a byte into register `x`; the byte comes from the generator.
pub open spec fn m_rand(m: CpuM, x: int, v: u8, rnd: u8) -> CpuM {
    CpuM { regs: m.regs.update(x, v & rnd), ..m }
}

/// Copy the delay timer into register `x`.
pub open spec fn m_set_reg_delay(m: CpuM, x: int) -> CpuM {
    CpuM { regs: m.regs.update(x, m.delay_timer), ..m }
}

/// Load the delay timer from register `x`.
pub open spec fn m_set_delay_reg(m: CpuM, x: int) -> CpuM {
    CpuM { delay_timer: m.regs[x], ..m }
}

/// Load the sound timer from register `x`.
pub open spec fn m_set_sound_reg(m: CpuM, x: int) -> CpuM {
    CpuM { sound_timer: m.regs[x], ..m }
}

/// Add register `x` into the index register modulo the memory size; the
/// flag records first whether the sum passed 0xFFF.
pub open spec fn m_add_reg_index(m: CpuM, x: int) -> CpuM {
    let vx = m.regs[x];
    let flag: u8 = if 0xFFF - vx < m.index_reg {
        1u8
    } else {
        0u8
    };
    CpuM {
        regs: m.regs.update(FLAG as int, flag),
        index_reg: (((m.index_reg + vx) as int) % (MAX_RAM as int)) as u16,
        ..m
    }
}

/// Point the index register at the standard font glyph for register `x`.
pub open spec fn m_load_sprite(m: CpuM, x: int) -> CpuM {
    CpuM { index_reg: (5 * m.regs[x]) as u16, ..m }
}

/// Point the index register at the extended font glyph for register `x`.
pub open spec fn m_load_extended_sprite(m: CpuM, x: int) -> CpuM {
    CpuM { index_reg: (0x50 + 10 * m.regs[x]) as u16, ..m }
}

/// Store the three decimal digits of register `x` at the index register,
/// most significant first, addresses reduced modulo the memory size.
pub open spec fn m_binary_decimal(m: CpuM, x: int) -> CpuM {
    let v = m.regs[x];
    let i = m.index_reg as int;
    let mem1 = m.mem.update(i, (v as int / 100) as u8);
    let mem2 = mem1.update((i + 1) % (MAX_RAM as int), ((v as int % 100) / 10) as u8);
    let mem3 = mem2.update((i + 2) % (MAX_RAM as int), ((v as int % 100) % 10) as u8);
    CpuM { mem: mem3, ..m }
}

/// Store registers zero through `x` into memory from the index register
/// on; writes past the top of memory are dropped.
pub open spec fn m_store_regs(m: CpuM, x: int) -> CpuM {
    let i = m.index_reg as int;
    CpuM {
        mem: Seq::new(
            MAX_RAM as nat,
            |j: int|
                if i <= j <= i + x {
                    m.regs[j - i]
                } else {
                    m.mem[j]
                },
        ),
        ..m
    }
}

/// Load registers zero through `x` from memory from the index register on;
/// reads past the top of memory leave the register unchanged.
pub open spec fn m_load_regs(m: CpuM, x: int) -> CpuM {
    let i = m.index_reg as int;
    CpuM {
        regs: Seq::new(
            16,
            |j: int|
                if j <= x && i + j < MAX_RAM {
                    m.mem[i + j]
                } else {
                    m.regs[j]
                },
        ),
        ..m
    }
}

/// Store registers zero through `x` into the HP48 persistent bytes; at
/// most the eight bytes are written.
pub open spec fn m_store_hp_regs(m: CpuM, x: int) -> CpuM {
    CpuM {
        hp: Seq::new(
            8,
            |j: int|
                if j <= x {
                    m.regs[j]
                } else {
                    m.hp[j]
                },
        ),
        ..m
    }
}

/// Load registers zero through `x` from the HP48 persistent bytes; at
/// most the eight bytes are read.
pub open spec fn m_load_hp_regs(m: CpuM, x: int) -> CpuM {
    CpuM {
        regs: Seq::new(
            16,
            |j: int|
                if j <= x && j < 8 {
                    m.hp[j]
                } else {
                    m.regs[j]
                },
        ),
        ..m
    }
}

/// Store the key handed over for a blocking wait into register `x`.
pub open spec fn m_wait_for_key(m: CpuM, x: int) -> CpuM {
    CpuM { regs: m.regs.update(x, m.next_key), ..m }
}

/// Set the halt flag; there is no way back.
pub open spec fn m_exit(m: CpuM) -> CpuM {
    CpuM { halt: true, ..m }
}

/// Select a display resolution; the pixel state is kept.
pub open spec fn m_set_mode(m: CpuM, mode: Mode) -> CpuM {
    CpuM { mode, ..m }
}

/// Scroll the mode rectangle down by `n` rows.
pub open spec fn m_scroll_down(m: CpuM, n: u8) -> CpuM {
    CpuM { screen: scrolled_down(m.screen, m.mode, n as int), ..m }
}

/// Scroll the mode rectangle right by four cells.
pub open spec fn m_scroll_right(m: CpuM) -> CpuM {
    CpuM { screen: scrolled_right(m.screen, m.mode, 4), ..m }
}

/// Scroll the mode rectangle left by four cells.
pub open spec fn m_scroll_left(m: CpuM) -> CpuM {
    CpuM { screen: scrolled_left(m.screen, m.mode, 4), ..m }
}

/// One row of a standard sprite: the `i`-th byte at the index register,
/// composed at column `V[x]` into row `V[y] + i` (wrapped at eight bits,
/// then modulo the mode height). A collision sets the flag register.
pub open spec fn m_draw_row(m: CpuM, x: int, y: int, i: int) -> CpuM {
    let line = m.mem[(m.index_reg + i) % (MAX_RAM as int)] as usize;
    let x0 = m.regs[x] as int;
    let row = ((m.regs[y] + i) % 256) % m.mode.height();
    let collided = line_collision(m.screen, row, x0, line, 8);
    CpuM {
        screen: compose_line(m.screen, row, x0, line, 8),
        regs: if collided {
            m.regs.update(FLAG as int, 1u8)
        } else {
            m.regs
        },
        ..m
    }
}

/// The state after the first `rows` rows of a standard sprite, the flag
/// register having been cleared first.
pub open spec fn m_draw_rows(m: CpuM, x: int, y: int, rows: int) -> CpuM
    decreases rows,
{
    if rows <= 0 {
        CpuM { regs: m.regs.update(FLAG as int, 0u8), ..m }
    } else {
        m_draw_row(m_draw_rows(m, x, y, rows - 1), x, y, rows - 1)
    }
}

/// Draw a standard sprite of `n` rows (sixteen rows when `n` is zero) of
/// eight pixels each.
pub open spec fn m_draw_sprite(m: CpuM, x: int, y: int, n: u8) -> CpuM {
    let rows: int = if n == 0 {
        16
    } else {
        n as int
    };
    m_draw_rows(m, x, y, rows)
}

/// One row of an extended sprite: two consecutive bytes at the index
/// register joined into one line of sixteen pixels.
pub open spec fn m_draw_extended_row(m: CpuM, x: int, y: int, i: int) -> CpuM {
    let hi = m.mem[(m.index_reg + 2 * i) % (MAX_RAM as int)];
    let lo = m.mem[(m.index_reg + 2 * i + 1) % (MAX_RAM as int)];
    let line = (((hi as u16) << 8) | (lo as u16)) as usize;
    let x0 = m.regs[x] as int;
    let row = ((m.regs[y] + i) % 256) % m.mode.height();
    let collided = line_collision(m.screen, row, x0, line, 16);
    CpuM {
        screen: compose_line(m.screen, row, x0, line, 16),
        regs: if collided {
            m.regs.update(FLAG as int, 1u8)
        } else {
            m.regs
        },
        ..m
    }
}

/// The state after the first `rows` rows of an extended sprite, the flag
/// register having been cleared first.
pub open spec fn m_draw_extended_rows(m: CpuM, x: int, y: int, rows: int) -> CpuM
    decreases rows,
{
    if rows <= 0 {
        CpuM { regs: m.regs.update(FLAG as int, 0u8), ..m }
    } else {
        m_draw_extended_row(m_draw_extended_rows(m, x, y, rows - 1), x, y, rows - 1)
    }
}

/// Draw a sixteen-by-sixteen extended sprite.
pub open spec fn m_draw_extended_sprite(m: CpuM, x: int, y: int) -> CpuM {
    m_draw_extended_rows(m, x, y, 16)
}

/// Drawing sprite rows preserves the machine invariants.
pub proof fn lemma_draw_rows_wf(m: CpuM, x: int, y: int, rows: int)
    requires
        m.wf(),
        0 <= x < 16,
        0 <= y < 16,
    ensures
        m_draw_rows(m, x, y, rows).wf(),
    decreases
        if rows <= 0 { 0int } else { rows },
{
    if rows > 0 {
        lemma_draw_rows_wf(m, x, y, rows - 1);
    }
}

/// Drawing extended sprite rows preserves the machine invariants.
pub proof fn lemma_draw_extended_rows_wf(m: CpuM, x: int, y: int, rows: int)
    requires
        m.wf(),
        0 <= x < 16,
        0 <= y < 16,
    ensures
        m_draw_extended_rows(m, x, y, rows).wf(),
    decreases
        if rows <= 0 { 0int } else { rows },
{
    if rows > 0 {
        lemma_draw_extended_rows_wf(m, x, y, rows - 1);
    }
}

/// The transition relation of one cycle: from the state before the opcode,
/// the opcode itself and the byte the generator would hand a random-mask
/// instruction, to either the state after the cycle or the fatal error.
/// The program counter is advanced past the opcode before the instruction
/// body acts, and the timers are decremented after it; a failing cycle
/// leaves [`err_state`] behind.
#[verifier::opaque]
pub open spec fn step(pre: CpuM, op: u16, rnd: u8) -> Result<CpuM, CpuError> {
    let m = err_state(pre);
    let (n0, n1, n2, n3) = nibbles_of(op);
    let x = n1 as int;
    let y = n2 as int;
    let addr = addr_of(n1, n2, n3);
    let v = val_of(n2, n3);
    if n0 == 0 {
        if n1 == 0 && n2 == 0xE && n3 == 0 {
            Ok(m_tick(m_cls(m)))
        } else if n1 == 0 && n2 == 0xE && n3 == 0xE {
            if m.sp >= 1 {
                Ok(m_tick(m_ret(m)))
            } else {
                Err(CpuError::StackUnderflow)
            }
        } else if m.mode is Schip && n1 == 0 && n2 == 0xC {
            Ok(m_tick(m_scroll_down(m, n3)))
        } else if m.mode is Schip && n1 == 0 && n2 == 0xF && n3 == 0xB {
            Ok(m_tick(m_scroll_right(m)))
        } else if m.mode is Schip && n1 == 0 && n2 == 0xF && n3 == 0xC {
            Ok(m_tick(m_scroll_left(m)))
        } else if m.mode is Schip && n1 == 0 && n2 == 0xF && n3 == 0xD {
            Ok(m_tick(m_exit(m)))
        } else if m.mode is Schip && n1 == 0 && n2 == 0xF && n3 == 0xE {
            Ok(m_tick(m_set_mode(m, Mode::Chip)))
        } else if m.mode is Chip && n1 == 0 && n2 == 0xF && n3 == 0xF {
            Ok(m_tick(m_set_mode(m, Mode::Schip)))
        } else {
            Err(CpuError::UnknownOpcode(op))
        }
    } else if n0 == 1 {
        Ok(m_tick(m_jump(m, addr)))
    } else if n0 == 2 {
        if m.sp <= 14 {
            Ok(m_tick(m_call(m, addr)))
        } else {
            Err(CpuError::StackOverflow)
        }
    } else if n0 == 3 {
        Ok(m_tick(m_skip(m, m.regs[x] == v)))
    } else if n0 == 4 {
        Ok(m_tick(m_skip(m, m.regs[x] != v)))
    } else if n0 == 5 && n3 == 0 {
        Ok(m_tick(m_skip(m, m.regs[x] == m.regs[y])))
    } else if n0 == 6 {
        Ok(m_tick(m_mov_reg_val(m, x, v)))
    } else if n0 == 7 {
        Ok(m_tick(m_add_reg_val(m, x, v)))
    } else if n0 == 8 && n3 == 0 {
        Ok(m_tick(m_mov_regs(m, x, y)))
    } else if n0 == 8 && n3 == 1 {
        Ok(m_tick(m_or_regs(m, x, y)))
    } else if n0 == 8 && n3 == 2 {
        Ok(m_tick(m_and_regs(m, x, y)))
    } else if n0 == 8 && n3 == 3 {
        Ok(m_tick(m_xor_regs(m, x, y)))
    } else if n0 == 8 && n3 == 4 {
        Ok(m_tick(m_add_regs(m, x, y)))
    } else if n0 == 8 && n3 == 5 {
        Ok(m_tick(m_sub_regs(m, x, y, x)))
    } else if n0 == 8 && n3 == 6 {
        Ok(m_tick(m_shift_right(m, x)))
    } else if n0 == 8 && n3 == 7 {
        Ok(m_tick(m_sub_regs(m, y, x, x)))
    } else if n0 == 8 && n3 == 0xE {
        Ok(m_tick(m_shift_left(m, x)))
    } else if n0 == 9 && n3 == 0 {
        Ok(m_tick(m_skip(m, m.regs[x] != m.regs[y])))
    } else if n0 == 0xA {
        Ok(m_tick(m_set_i(m, addr)))
    } else if n0 == 0xB {
        Ok(m_tick(m_jump_val_reg0(m, addr)))
    } else if n0 == 0xC {
        Ok(m_tick(m_rand(m, x, v, rnd)))
    } else if n0 == 0xD {
        if m.mode is Schip && n3 == 0 {
            Ok(m_tick(m_draw_extended_sprite(m, x, y)))
        } else {
            Ok(m_tick(m_draw_sprite(m, x, y, n3)))
        }
    } else if n0 == 0xE && n2 == 9 && n3 == 0xE {
        Ok(m_tick(m_skip(m, key_down(m, m.regs[x]))))
    } else if n0 == 0xE && n2 == 0xA && n3 == 1 {
        Ok(m_tick(m_skip(m, !key_down(m, m.regs[x]))))
    } else if n0 == 0xF && n2 == 0 && n3 == 7 {
        Ok(m_tick(m_set_reg_delay(m, x)))
    } else if n0 == 0xF && n2 == 0 && n3 == 0xA {
        Ok(m_tick(m_wait_for_key(m, x)))
    } else if n0 == 0xF && n2 == 1 && n3 == 5 {
        Ok(m_tick(m_set_delay_reg(m, x)))
    } else if n0 == 0xF && n2 == 1 && n3 == 8 {
        Ok(m_tick(m_set_sound_reg(m, x)))
    } else if n0 == 0xF && n2 == 1 && n3 == 0xE {
        Ok(m_tick(m_add_reg_index(m, x)))
    } else if n0 == 0xF && n2 == 2 && n3 == 9 {
        Ok(m_tick(m_load_sprite(m, x)))
    } else if n0 == 0xF && n2 == 3 && n3 == 3 {
        Ok(m_tick(m_binary_decimal(m, x)))
    } else if n0 == 0xF && n2 == 5 && n3 == 5 {
        Ok(m_tick(m_store_regs(m, x)))
    } else if n0 == 0xF && n2 == 6 && n3 == 5 {
        Ok(m_tick(m_load_regs(m, x)))
    } else if m.mode is Schip && n0 == 0xF && n2 == 3 && n3 == 0 {
        Ok(m_tick(m_load_extended_sprite(m, x)))
    } else if m.mode is Schip && n0 == 0xF && n2 == 7 && n3 == 5 {
        Ok(m_tick(m_store_hp_regs(m, x)))
    } else if m.mode is Schip && n0 == 0xF && n2 == 8 && n3 == 5 {
        Ok(m_tick(m_load_hp_regs(m, x)))
    } else {
        Err(CpuError::UnknownOpcode(op))
    }
}

/// The opcodes whose whole effect is a conditional skip.
pub open spec fn is_skip_opcode(op: u16) -> bool {
    let (n0, n1, n2, n3) = nibbles_of(op);
    ||| n0 == 3
    ||| n0 == 4
    ||| (n0 == 5 && n3 == 0)
    ||| (n0 == 9 && n3 == 0)
    ||| (n0 == 0xE && n2 == 9 && n3 == 0xE)
    ||| (n0 == 0xE && n2 == 0xA && n3 == 1)
}

/// The condition under which a skip opcode skips.
pub open spec fn skip_condition(m: CpuM, op: u16) -> bool {
    let (n0, n1, n2, n3) = nibbles_of(op);
    let x = n1 as int;
    if n0 == 3 {
        m.regs[x] == val_of(n2, n3)
    } else if n0 == 4 {
        m.regs[x] != val_of(n2, n3)
    } else if n0 == 5 {
        m.regs[x] == m.regs[n2 as int]
    } else if n0 == 9 {
        m.regs[x] != m.regs[n2 as int]
    } else if n0 == 0xE && n2 == 9 {
        key_down(m, m.regs[x])
    } else {
        !key_down(m, m.regs[x])
    }
}

/// A skip instruction advances the program counter by four from its own
/// address when its condition holds, and by two otherwise; nothing else
/// but the timers changes.
pub proof fn lemma_skip_advances_pc(pre: CpuM, op: u16, rnd: u8)
    requires
        pre.wf(),
        is_skip_opcode(op),
    ensures
        step(pre, op, rnd) matches Ok(m) && m.pc == if skip_condition(pre, op) {
            (pre.pc + 4) % (MAX_RAM as int)
        } else {
            (pre.pc + 2) % (MAX_RAM as int)
        },
{
    reveal(step);
    vstd::arithmetic::div_mod::lemma_add_mod_noop((pre.pc + 2) as int, 2, MAX_RAM as int);
}

/// After the clear-screen instruction the full backing grid, and with it
/// the whole addressable rectangle of either mode, is blank.
pub proof fn lemma_clear_screen_blanks(pre: CpuM, rnd: u8)
    ensures
        step(pre, 0x00E0, rnd) matches Ok(m) && m.screen == blank_grid(),
        step(pre, 0x00E0, rnd) matches Ok(m) ==> forall|y: int, x: int|
            0 <= y < m.mode.height() && 0 <= x < m.mode.width() ==> !m.screen[y][x],
{
    reveal(step);
}

/// Whether one successful cycle of `pre` under `op` passes through the
/// dispatched state `mid`: the cycle returns `mid` with its timers
/// decremented, and that state keeps the machine invariants.
pub open spec fn steps_to(pre: CpuM, op: u16, rnd: u8, mid: CpuM) -> bool {
    &&& step(pre, op, rnd) == Ok::<CpuM, CpuError>(m_tick(mid))
    &&& m_tick(mid).wf()
}

/// The successful branches of [`step`], one implication per dispatch
/// pattern: under that pattern's guard the cycle passes through the
/// corresponding instruction model.
#[verifier::rlimit(100)]
pub proof fn lemma_step_cases(pre: CpuM, op: u16, rnd: u8)
    requires
        pre.wf(),
    ensures
        ({
            let m = err_state(pre);
            let (n0, n1, n2, n3) = nibbles_of(op);
            let x = n1 as int;
            let y = n2 as int;
            let addr = addr_of(n1, n2, n3);
            let v = val_of(n2, n3);
            &&& (n0 == 0 && n1 == 0 && n2 == 0xE && n3 == 0 ==> steps_to(pre, op, rnd, m_cls(m)))
            &&& (n0 == 0 && n1 == 0 && n2 == 0xE && n3 == 0xE && m.sp >= 1 ==> steps_to(
                pre,
                op,
                rnd,
                m_ret(m),
            ))
            &&& (m.mode is Schip && n0 == 0 && n1 == 0 && n2 == 0xC ==> steps_to(
                pre,
                op,
                rnd,
                m_scroll_down(m, n3),
            ))
            &&& (m.mode is Schip && n0 == 0 && n1 == 0 && n2 == 0xF && n3 == 0xB ==> steps_to(
                pre,
                op,
                rnd,
                m_scroll_right(m),
            ))
            &&& (m.mode is Schip && n0 == 0 && n1 == 0 && n2 == 0xF && n3 == 0xC ==> steps_to(
                pre,
                op,
                rnd,
                m_scroll_left(m),
            ))
            &&& (m.mode is Schip && n0 == 0 && n1 == 0 && n2 == 0xF && n3 == 0xD ==> steps_to(
                pre,
                op,
                rnd,
                m_exit(m),
            ))
            &&& (m.mode is Schip && n0 == 0 && n1 == 0 && n2 == 0xF && n3 == 0xE ==> steps_to(
                pre,
                op,
                rnd,
                m_set_mode(m, Mode::Chip),
            ))
            &&& (m.mode is Chip && n0 == 0 && n1 == 0 && n2 == 0xF && n3 == 0xF ==> steps_to(
                pre,
                op,
                rnd,
                m_set_mode(m, Mode::Schip),
            ))
            &&& (n0 == 1 ==> steps_to(pre, op, rnd, m_jump(m, addr)))
            &&& (n0 == 2 && m.sp <= 14 ==> steps_to(pre, op, rnd, m_call(m, addr)))
            &&& (n0 == 3 ==> steps_to(pre, op, rnd, m_skip(m, m.regs[x] == v)))
            &&& (n0 == 4 ==> steps_to(pre, op, rnd, m_skip(m, m.regs[x] != v)))
            &&& (n0 == 5 && n3 == 0 ==> steps_to(pre, op, rnd, m_skip(m, m.regs[x] == m.regs[y])))
            &&& (n0 == 6 ==> steps_to(pre, op, rnd, m_mov_reg_val(m, x, v)))
            &&& (n0 == 7 ==> steps_to(pre, op, rnd, m_add_reg_val(m, x, v)))
            &&& (n0 == 8 && n3 == 0 ==> steps_to(pre, op, rnd, m_mov_regs(m, x, y)))
            &&& (n0 == 8 && n3 == 1 ==> steps_to(pre, op, rnd, m_or_regs(m, x, y)))
            &&& (n0 == 8 && n3 == 2 ==> steps_to(pre, op, rnd, m_and_regs(m, x, y)))
            &&& (n0 == 8 && n3 == 3 ==> steps_to(pre, op, rnd, m_xor_regs(m, x, y)))
            &&& (n0 == 8 && n3 == 4 ==> steps_to(pre, op, rnd, m_add_regs(m, x, y)))
            &&& (n0 == 8 && n3 == 5 ==> steps_to(pre, op, rnd, m_sub_regs(m, x, y, x)))
            &&& (n0 == 8 && n3 == 6 ==> steps_to(pre, op, rnd, m_shift_right(m, x)))
            &&& (n0 == 8 && n3 == 7 ==> steps_to(pre, op, rnd, m_sub_regs(m, y, x, x)))
            &&& (n0 == 8 && n3 == 0xE ==> steps_to(pre, op, rnd, m_shift_left(m, x)))
            &&& (n0 == 9 && n3 == 0 ==> steps_to(pre, op, rnd, m_skip(m, m.regs[x] != m.regs[y])))
            &&& (n0 == 0xA ==> steps_to(pre, op, rnd, m_set_i(m, addr)))
            &&& (n0 == 0xB ==> steps_to(pre, op, rnd, m_jump_val_reg0(m, addr)))
            &&& (n0 == 0xC ==> steps_to(pre, op, rnd, m_rand(m, x, v, rnd)))
            &&& (n0 == 0xD && m.mode is Schip && n3 == 0 ==> steps_to(
                pre,
                op,
                rnd,
                m_draw_extended_sprite(m, x, y),
            ))
            &&& (n0 == 0xD && !(m.mode is Schip && n3 == 0) ==> steps_to(
                pre,
                op,
                rnd,
                m_draw_sprite(m, x, y, n3),
            ))
            &&& (n0 == 0xE && n2 == 9 && n3 == 0xE ==> steps_to(
                pre,
                op,
                rnd,
                m_skip(m, key_down(m, m.regs[x])),
            ))
            &&& (n0 == 0xE && n2 == 0xA && n3 == 1 ==> steps_to(
                pre,
                op,
                rnd,
                m_skip(m, !key_down(m, m.regs[x])),
            ))
            &&& (n0 == 0xF && n2 == 0 && n3 == 7 ==> steps_to(pre, op, rnd, m_set_reg_delay(m, x)))
            &&& (n0 == 0xF && n2 == 0 && n3 == 0xA ==> steps_to(pre, op, rnd, m_wait_for_key(m, x)))
            &&& (n0 == 0xF && n2 == 1 && n3 == 5 ==> steps_to(pre, op, rnd, m_set_delay_reg(m, x)))
            &&& (n0 == 0xF && n2 == 1 && n3 == 8 ==> steps_to(pre, op, rnd, m_set_sound_reg(m, x)))
            &&& (n0 == 0xF && n2 == 1 && n3 == 0xE ==> steps_to(pre, op, rnd, m_add_reg_index(m, x)))
            &&& (n0 == 0xF && n2 == 2 && n3 == 9 ==> steps_to(pre, op, rnd, m_load_sprite(m, x)))
            &&& (n0 == 0xF && n2 == 3 && n3 == 3 ==> steps_to(pre, op, rnd, m_binary_decimal(m, x)))
            &&& (n0 == 0xF && n2 == 5 && n3 == 5 ==> steps_to(pre, op, rnd, m_store_regs(m, x)))
            &&& (n0 == 0xF && n2 == 6 && n3 == 5 ==> steps_to(pre, op, rnd, m_load_regs(m, x)))
            &&& (m.mode is Schip && n0 == 0xF && n2 == 3 && n3 == 0 ==> steps_to(
                pre,
                op,
                rnd,
                m_load_extended_sprite(m, x),
            ))
            &&& (m.mode is Schip && n0 == 0xF && n2 == 7 && n3 == 5 ==> steps_to(
                pre,
                op,
                rnd,
                m_store_hp_regs(m, x),
            ))
            &&& (m.mode is Schip && n0 == 0xF && n2 == 8 && n3 == 5 ==> steps_to(
                pre,
                op,
                rnd,
                m_load_hp_regs(m, x),
            ))
        }),
{
    reveal(step);
    let m = err_state(pre);
    let (n0, n1, n2, n3) = nibbles_of(op);
    if n0 == 0xD {
        if pre.mode is Schip && n3 == 0 {
            lemma_draw_extended_rows_wf(m, n1 as int, n2 as int, 16);
        } else {
            lemma_draw_rows_wf(
                m,
                n1 as int,
                n2 as int,
                if n3 == 0 {
                    16int
                } else {
                    n3 as int
                },
            );
        }
    }
}

/// Whether two states agree on everything but memory.
pub open spec fn same_except_mem(a: CpuM, b: CpuM) -> bool {
    a == (CpuM { mem: a.mem, ..b })
}

/// Whether two states agree on everything but the registers.
pub open spec fn same_except_regs(a: CpuM, b: CpuM) -> bool {
    a == (CpuM { regs: a.regs, ..b })
}

/// Whether two states agree on everything but the HP48 bytes.
pub open spec fn same_except_hp(a: CpuM, b: CpuM) -> bool {
    a == (CpuM { hp: a.hp, ..b })
}

/// Whether one cycle of `pre` under `op` can move to `post` answering `r`,
/// with `rnd` the byte the generator handed out.
pub open spec fn step_matches(
    pre: CpuM,
    post: CpuM,
    r: Result<(), CpuError>,
    op: u16,
    rnd: u8,
) -> bool {
    match step(pre, op, rnd) {
        Ok(m) => r == Ok::<(), CpuError>(()) && post == m,
        Err(e) => r == Err::<(), CpuError>(e) && post == err_state(pre),
    }
}

/// A byte drawn afresh from the generator on every call.
///
/// Relies on `rand::random`: it returns an arbitrary byte; nothing is
/// assumed about its value.
#[verifier::external_body]
fn random_byte() -> u8 {
    rand::random::<u8>()
}

/// Whether a program image of `rom_len` bytes fits in the memory above
/// the reserved region; a loader must reject an image for which this is
/// false before constructing a machine.
pub fn rom_fits(rom_len: usize) -> (fits: bool)
    ensures
        fits <==> rom_len <= MAX_RAM - ROM_BASE,
{
    rom_len <= MAX_RAM - ROM_BASE
}

impl CPU {
    /// Build a machine from a program image: registers, stack and timers
    /// zeroed, the program counter at [`ROM_BASE`], the stack pointer at
    /// one, the font table in low memory and the image from [`ROM_BASE`]
    /// on. The caller must have bounded the image against the memory left
    /// above [`ROM_BASE`].
    pub fn new(mem: Vec<u8>) -> (cpu: CPU)
        requires
            mem@.len() <= MAX_RAM - ROM_BASE,
        ensures
            cpu@ =~~= initial_cpu(mem@),
            cpu@.wf(),
    {
        let mut ram: [u8; MAX_RAM] = [0u8; MAX_RAM];
        let font: Vec<u8> = sprite_set();
        let mut i: usize = 0;
        while i < 240
            invariant
                i <= 240,
                font@ == sprite_seq(),
                forall|j: int| 0 <= j < i ==> ram@[j] == sprite_seq()[j],
                forall|j: int| i <= j < MAX_RAM ==> ram@[j] == 0u8,
            decreases 240 - i,
        {
            ram[i] = font[i];
            i = i + 1;
        }
        let mut k: usize = 0;
        while k < mem.len()
            invariant
                mem@.len() <= MAX_RAM - ROM_BASE,
                k <= mem@.len(),
                forall|j: int| 0 <= j < 240 ==> ram@[j] == sprite_seq()[j],
                forall|j: int| ROM_BASE <= j < ROM_BASE + k ==> ram@[j] == mem@[j - ROM_BASE],
                forall|j: int|
                    240 <= j < MAX_RAM && !(ROM_BASE <= j < ROM_BASE + k) ==> ram@[j] == 0u8,
            decreases mem@.len() - k,
        {
            ram[ROM_BASE + k] = mem[k];
            k = k + 1;
        }
        let cpu = CPU {
            registers: [0u8; 16],
            mem: ram,
            index_reg: 0,
            pc: 0x200,
            sp: 1,
            stack: [0u16; 16],
            sound_timer: 0,
            delay_timer: 0,
            hp_48_flags: [0u8; 8],
            graphics: Graphics::new(),
            io: IO::new(),
            halt: false,
        };
        proof {
            assert(cpu@.mem =~= initial_mem(mem@));
            assert(cpu@.regs =~= initial_cpu(mem@).regs);
            assert(cpu@.stack =~= initial_cpu(mem@).stack);
            assert(cpu@.hp =~= initial_cpu(mem@).hp);
            assert(cpu@.pressed =~= initial_cpu(mem@).pressed);
        }
        cpu
    }

    /// The byte at `loc`, reduced modulo the memory size.
    pub fn get_mem(&self, loc: u16) -> (byte: u8)
        ensures
            byte == self@.mem[(loc as int) % (MAX_RAM as int)],
    {
        self.mem[(loc as usize) % MAX_RAM]
    }

    /// The value of general-purpose register `reg`.
    pub fn get_reg(&self, reg: u8) -> (value: u8)
        requires
            reg < 16,
        ensures
            value == self@.regs[reg as int],
    {
        self.registers[reg as usize]
    }

    pub fn get_pc(&self) -> (pc: u16)
        ensures
            pc == self@.pc,
    {
        self.pc
    }

    pub fn get_index_reg(&self) -> (index_reg: u16)
        ensures
            index_reg == self@.index_reg,
    {
        self.index_reg
    }

    /// Whether the exit instruction has executed.
    pub fn is_finished(&self) -> (halted: bool)
        ensures
            halted == self@.halt,
    {
        self.halt
    }

    /// Assemble three hex digits into a 12-bit address.
    pub fn to_addr(dig1: u8, dig2: u8, dig3: u8) -> (addr: u16)
        requires
            dig1 < 16,
            dig2 < 16,
            dig3 < 16,
        ensures
            addr == dig1 * 256 + dig2 * 16 + dig3,
            addr < MAX_RAM,
    {
        (dig1 as u16) * 256 + (dig2 as u16) * 16 + (dig3 as u16)
    }

    /// Assemble two hex digits into an 8-bit value.
    pub fn to_val(dig1: u8, dig2: u8) -> (value: u8)
        requires
            dig1 < 16,
            dig2 < 16,
        ensures
            value == dig1 * 16 + dig2,
    {
        dig1 * 16 + dig2
    }

    /// Advance the program counter past one instruction.
    fn inc_pc(&mut self)
        requires
            old(self)@.pc < MAX_RAM,
        ensures
            final(self)@ == err_state(old(self)@),
    {
        self.pc = (self.pc + 2) % (MAX_RAM as u16);
    }

    /// Pop the newest frame; the stack pointer moves down afterwards.
    fn pop(&mut self) -> (item: u16)
        requires
            1 <= old(self)@.sp <= 15,
        ensures
            item == old(self)@.stack[old(self)@.sp],
            final(self)@ == (CpuM { sp: old(self)@.sp - 1, ..old(self)@ }),
    {
        let item: u16 = self.stack[self.sp];
        self.sp = self.sp - 1;
        item
    }

    /// Push onto a fresh frame; the stack pointer moves up first.
    fn push(&mut self, val: u16)
        requires
            0 <= old(self)@.sp <= 14,
        ensures
            final(self)@ == (CpuM {
                sp: old(self)@.sp + 1,
                stack: old(self)@.stack.update(old(self)@.sp + 1, val),
                ..old(self)@
            }),
    {
        self.sp = self.sp + 1;
        self.stack[self.sp] = val;
    }

    /// Store the program counter on the stack and jump to `addr`.
    pub fn call(&mut self, addr: u16)
        requires
            old(self)@.sp <= 14,
        ensures
            final(self)@ == m_call(old(self)@, addr),
    {
        let pc: u16 = self.pc;
        self.push(pc);
        self.pc = addr % (MAX_RAM as u16);
    }

    /// Return from a subroutine by popping the return address.
    pub fn ret(&mut self)
        requires
            1 <= old(self)@.sp,
            old(self)@.sp <= 15,
        ensures
            final(self)@ == m_ret(old(self)@),
    {
        self.pc = self.pop();
    }

    /// Jump to `addr`, reduced modulo the memory size.
    pub fn jump(&mut self, addr: u16)
        ensures
            final(self)@ == m_jump(old(self)@, addr),
    {
        self.pc = addr % (MAX_RAM as u16);
    }

    /// Jump to `addr` plus register zero, modulo the memory size.
    pub fn jump_val_reg0(&mut self, addr: u16)
        requires
            addr < MAX_RAM,
        ensures
            final(self)@ == m_jump_val_reg0(old(self)@, addr),
    {
        self.pc = (self.registers[0] as u16 + addr) % (MAX_RAM as u16);
    }

    /// Clear the display.
    pub fn clear_screen(&mut self)
        ensures
            final(self)@ == m_cls(old(self)@),
    {
        self.graphics.clear_screen();
    }

    /// Skip the next instruction when register `reg` holds `val`.
    pub fn skip_equals_reg_val(&mut self, reg: u8, val: u8)
        requires
            reg < 16,
            old(self)@.pc < MAX_RAM,
        ensures
            final(self)@ == m_skip(old(self)@, old(self)@.regs[reg as int] == val),
    {
        if self.registers[reg as usize] == val {
            self.inc_pc();
        }
    }

    /// Skip the next instruction when register `reg` does not hold `val`.
    pub fn skip_not_equals_reg_val(&mut self, reg: u8, val: u8)
        requires
            reg < 16,
            old(self)@.pc < MAX_RAM,
        ensures
            final(self)@ == m_skip(old(self)@, old(self)@.regs[reg as int] != val),
    {
        if self.registers[reg as usize] != val {
            self.inc_pc();
        }
    }

    /// Skip the next instruction when the two registers hold equal values.
    pub fn skip_equals_regs(&mut self, reg1: u8, reg2: u8)
        requires
            reg1 < 16,
            reg2 < 16,
            old(self)@.pc < MAX_RAM,
        ensures
            final(self)@ == m_skip(
                old(self)@,
                old(self)@.regs[reg1 as int] == old(self)@.regs[reg2 as int],
            ),
    {
        if self.registers[reg1 as usize] == self.registers[reg2 as usize] {
            self.inc_pc();
        }
    }

    /// Skip the next instruction when the two registers differ.
    pub fn skip_not_equals_regs(&mut self, reg1: u8, reg2: u8)
        requires
            reg1 < 16,
            reg2 < 16,
            old(self)@.pc < MAX_RAM,
        ensures
            final(self)@ == m_skip(
                old(self)@,
                old(self)@.regs[reg1 as int] != old(self)@.regs[reg2 as int],
            ),
    {
        if self.registers[reg1 as usize] != self.registers[reg2 as usize] {
            self.inc_pc();
        }
    }

    /// Load `val` into register `reg`.
    pub fn mov_reg_val(&mut self, reg: u8, val: u8)
        requires
            reg < 16,
        ensures
            final(self)@ == m_mov_reg_val(old(self)@, reg as int, val),
    {
        self.registers[reg as usize] = val;
    }

    /// Add `val` to register `reg`, wrapping at eight bits.
    pub fn add_reg_val(&mut self, reg: u8, val: u8)
        requires
            reg < 16,
        ensures
            final(self)@ == m_add_reg_val(old(self)@, reg as int, val),
    {
        let sum: u16 = self.registers[reg as usize] as u16 + val as u16;
        self.registers[reg as usize] = (sum % 256) as u8;
    }

    /// Copy register `reg2` into register `reg1`.
    pub fn mov_regs(&mut self, reg1: u8, reg2: u8)
        requires
            reg1 < 16,
            reg2 < 16,
        ensures
            final(self)@ == m_mov_regs(old(self)@, reg1 as int, reg2 as int),
    {
        self.registers[reg1 as usize] = self.registers[reg2 as usize];
    }

    /// Bitwise or of the two registers, stored in the first.
    pub fn or_regs(&mut self, reg1: u8, reg2: u8)
        requires
            reg1 < 16,
            reg2 < 16,
        ensures
            final(self)@ == m_or_regs(old(self)@, reg1 as int, reg2 as int),
    {
        self.registers[reg1 as usize] = self.registers[reg1 as usize] | self.registers[reg2
            as usize];
    }

    /// Bitwise and of the two registers, stored in the first.
    pub fn and_regs(&mut self, reg1: u8, reg2: u8)
        requires
            reg1 < 16,
            reg2 < 16,
        ensures
            final(self)@ == m_and_regs(old(self)@, reg1 as int, reg2 as int),
    {
        self.registers[reg1 as usize] = self.registers[reg1 as usize] & self.registers[reg2
            as usize];
    }

    /// Bitwise xor of the two registers, stored in the first.
    pub fn xor_regs(&mut self, reg1: u8, reg2: u8)
        requires
            reg1 < 16,
            reg2 < 16,
        ensures
            final(self)@ == m_xor_regs(old(self)@, reg1 as int, reg2 as int),
    {
        self.registers[reg1 as usize] = self.registers[reg1 as usize] ^ self.registers[reg2
            as usize];
    }

    /// Add register `reg2` into register `reg1`: the flag register is set
    /// exactly when the sum carries past 0xFF, before the wrapped sum is
    /// stored.
    pub fn add_regs(&mut self, reg1: u8, reg2: u8)
        requires
            reg1 < 16,
            reg2 < 16,
        ensures
            final(self)@ == m_add_regs(old(self)@, reg1 as int, reg2 as int),
            reg1 != FLAG ==> final(self)@.regs[FLAG as int] == (if 0xFF - old(
                self,
            )@.regs[reg1 as int] < old(self)@.regs[reg2 as int] {
                1u8
            } else {
                0u8
            }),
            reg1 != FLAG ==> final(self)@.regs[reg1 as int] == (old(self)@.regs[reg1 as int]
                + old(self)@.regs[reg2 as int]) % 256,
    {
        let register1: u8 = self.registers[reg1 as usize];
        let register2: u8 = self.registers[reg2 as usize];
        self.registers[FLAG] = if 0xFF - register1 < register2 {
            1
        } else {
            0
        };
        let sum: u16 = self.registers[reg1 as usize] as u16 + register2 as u16;
        self.registers[reg1 as usize] = (sum % 256) as u8;
    }

    /// Subtract register `reg2` from register `reg1`, storing the wrapped
    /// difference in `store_reg`: the flag register is set exactly when no
    /// borrow occurs, before the difference is stored.
    pub fn sub_regs(&mut self, reg1: u8, reg2: u8, store_reg: u8)
        requires
            reg1 < 16,
            reg2 < 16,
            store_reg < 16,
        ensures
            final(self)@ == m_sub_regs(old(self)@, reg1 as int, reg2 as int, store_reg as int),
            store_reg != FLAG ==> final(self)@.regs[FLAG as int] == (if old(
                self,
            )@.regs[reg2 as int] < old(self)@.regs[reg1 as int] {
                1u8
            } else {
                0u8
            }),
            final(self)@.regs[store_reg as int] == (old(self)@.regs[reg1 as int] - old(
                self,
            )@.regs[reg2 as int]) % 256,
    {
        let register1: u8 = self.registers[reg1 as usize];
        let register2: u8 = self.registers[reg2 as usize];
        self.registers[FLAG] = if register2 < register1 {
            1
        } else {
            0
        };
        let diff: u16 = register1 as u16 + 256 - register2 as u16;
        self.registers[store_reg as usize] = (diff % 256) as u8;
        proof {
            vstd::arithmetic::div_mod::lemma_mod_add_multiples_vanish(
                register1 as int - register2 as int,
                256,
            );
        }
    }

    /// Shift register `reg` left by one; the flag register takes the old
    /// most significant bit first.
    pub fn shift_left(&mut self, reg: u8)
        requires
            reg < 16,
        ensures
            final(self)@ == m_shift_left(old(self)@, reg as int),
    {
        self.registers[FLAG] = (self.registers[reg as usize] & 0x80) >> 7;
        let cur: u8 = self.registers[reg as usize];
        self.registers[reg as usize] = cur << 1;
    }

    /// Shift register `reg` right by one; the flag register takes the old
    /// least significant bit first.
    pub fn shift_right(&mut self, reg: u8)
        requires
            reg < 16,
        ensures
            final(self)@ == m_shift_right(old(self)@, reg as int),
    {
        self.registers[FLAG] = self.registers[reg as usize] & 0x1;
        let cur: u8 = self.registers[reg as usize];
        self.registers[reg as usize] = cur >> 1;
    }

    /// Load `addr`, reduced modulo the memory size, into the index
    /// register.
    pub fn set_i(&mut self, addr: u16)
        ensures
            final(self)@ == m_set_i(old(self)@, addr),
    {
        self.index_reg = addr % (MAX_RAM as u16);
    }

    /// Store in register `reg` the conjunction of `val` with a byte drawn
    /// from the generator; any byte may come back, and the byte drawn is
    /// returned.
    pub fn rand(&mut self, reg: u8, val: u8) -> (drawn: u8)
        requires
            reg < 16,
        ensures
            final(self)@ == m_rand(old(self)@, reg as int, val, drawn),
    {
        let drawn: u8 = random_byte();
        self.registers[reg as usize] = val & drawn;
        drawn
    }

    /// Copy the delay timer into register `reg`.
    pub fn set_reg_delay(&mut self, reg: u8)
        requires
            reg < 16,
        ensures
            final(self)@ == m_set_reg_delay(old(self)@, reg as int),
    {
        self.registers[reg as usize] = self.delay_timer;
    }

    /// Load the delay timer from register `reg`.
    pub fn set_delay_reg(&mut self, reg: u8)
        requires
            reg < 16,
        ensures
            final(self)@ == m_set_delay_reg(old(self)@, reg as int),
    {
        self.delay_timer = self.registers[reg as usize];
    }

    /// Load the sound timer from register `reg`.
    pub fn set_sound_reg(&mut self, reg: u8)
        requires
            reg < 16,
        ensures
            final(self)@ == m_set_sound_reg(old(self)@, reg as int),
    {
        self.sound_timer = self.registers[reg as usize];
    }

    /// Add register `reg` into the index register modulo the memory size;
    /// the flag register is set exactly when the sum passes 0xFFF.
    pub fn add_reg_index(&mut self, reg: u8)
        requires
            reg < 16,
            old(self)@.index_reg < MAX_RAM,
        ensures
            final(self)@ == m_add_reg_index(old(self)@, reg as int),
            final(self)@.regs[FLAG as int] == (if 0xFFF - old(self)@.regs[reg as int] < old(
                self,
            )@.index_reg {
                1u8
            } else {
                0u8
            }),
            final(self)@.index_reg == (old(self)@.index_reg + old(self)@.regs[reg as int]) % (
            MAX_RAM as int),
    {
        let vx: u8 = self.registers[reg as usize];
        self.registers[FLAG] = if 0xFFF - (vx as u16) < self.index_reg {
            1
        } else {
            0
        };
        self.index_reg = (self.index_reg + vx as u16) % (MAX_RAM as u16);
    }

    /// Point the index register at the standard font glyph for the value
    /// of register `reg`.
    pub fn load_sprite(&mut self, reg: u8)
        requires
            reg < 16,
        ensures
            final(self)@ == m_load_sprite(old(self)@, reg as int),
    {
        self.index_reg = 5 * (self.registers[reg as usize] as u16);
    }

    /// Point the index register at the extended font glyph for the value
    /// of register `reg`.
    pub fn load_extended_sprite(&mut self, reg: u8)
        requires
            reg < 16,
        ensures
            final(self)@ == m_load_extended_sprite(old(self)@, reg as int),
    {
        self.index_reg = 0x50 + 10 * (self.registers[reg as usize] as u16);
    }

    /// Store the three decimal digits of register `reg` at the index
    /// register, most significant first.
    pub fn binary_decimal(&mut self, reg: u8)
        requires
            reg < 16,
            old(self)@.index_reg < MAX_RAM,
        ensures
            final(self)@ == m_binary_decimal(old(self)@, reg as int),
    {
        let val: u8 = self.registers[reg as usize];
        let base: usize = self.index_reg as usize;
        self.mem[base] = val / 100;
        self.mem[(base + 1) % MAX_RAM] = (val % 100) / 10;
        self.mem[(base + 2) % MAX_RAM] = (val % 100) % 10;
    }

    /// Store registers zero through `max_reg` into memory from the index
    /// register on; writes past the top of memory are dropped.
    pub fn store_regs(&mut self, max_reg: u8)
        requires
            max_reg < 16,
            old(self)@.index_reg < MAX_RAM,
        ensures
            final(self)@ == m_store_regs(old(self)@, max_reg as int),
    {
        let base: usize = self.index_reg as usize;
        let count: usize = max_reg as usize + 1;
        let mut j: usize = 0;
        while j < count && base + j < MAX_RAM
            invariant
                base == old(self)@.index_reg as int,
                base < MAX_RAM,
                count == max_reg as int + 1,
                count <= 16,
                j <= count,
                base + j <= MAX_RAM,
                same_except_mem(self@, old(self)@),
                forall|t: int|
                    base <= t < base + j ==> (#[trigger] self@.mem[t]) == old(self)@.regs[t - base],
                forall|t: int|
                    0 <= t < MAX_RAM && !(base <= t < base + j) ==> (#[trigger] self@.mem[t])
                        == old(self)@.mem[t],
            decreases count - j,
        {
            self.mem[base + j] = self.registers[j];
            j = j + 1;
        }
        proof {
            assert(self@.mem =~= m_store_regs(old(self)@, max_reg as int).mem);
            assert(self@ =~~= m_store_regs(old(self)@, max_reg as int));
        }
    }

    /// Load registers zero through `max_reg` from memory from the index
    /// register on; reads past the top of memory leave the register as it
    /// was.
    pub fn load_regs(&mut self, max_reg: u8)
        requires
            max_reg < 16,
            old(self)@.index_reg < MAX_RAM,
        ensures
            final(self)@ == m_load_regs(old(self)@, max_reg as int),
    {
        let base: usize = self.index_reg as usize;
        let count: usize = max_reg as usize + 1;
        let mut j: usize = 0;
        while j < count && base + j < MAX_RAM
            invariant
                base == old(self)@.index_reg as int,
                base < MAX_RAM,
                count == max_reg as int + 1,
                count <= 16,
                j <= count,
                base + j <= MAX_RAM,
                same_except_regs(self@, old(self)@),
                forall|t: int|
                    0 <= t < j ==> (#[trigger] self@.regs[t]) == old(self)@.mem[base + t],
                forall|t: int| j <= t < 16 ==> (#[trigger] self@.regs[t]) == old(self)@.regs[t],
            decreases count - j,
        {
            self.registers[j] = self.mem[base + j];
            j = j + 1;
        }
        proof {
            assert(self@.regs =~= m_load_regs(old(self)@, max_reg as int).regs);
            assert(self@ =~~= m_load_regs(old(self)@, max_reg as int));
        }
    }

    /// Store registers zero through `max_reg` into the HP48 persistent
    /// bytes; at most the eight bytes are written.
    pub fn store_hp_regs(&mut self, max_reg: u8)
        requires
            max_reg < 16,
        ensures
            final(self)@ == m_store_hp_regs(old(self)@, max_reg as int),
    {
        let count: usize = max_reg as usize + 1;
        let mut j: usize = 0;
        while j < count && j < 8
            invariant
                count == max_reg as int + 1,
                count <= 16,
                j <= count,
                j <= 8,
                same_except_hp(self@, old(self)@),
                forall|t: int| 0 <= t < j ==> (#[trigger] self@.hp[t]) == old(self)@.regs[t],
                forall|t: int| j <= t < 8 ==> (#[trigger] self@.hp[t]) == old(self)@.hp[t],
            decreases count - j,
        {
            self.hp_48_flags[j] = self.registers[j];
            j = j + 1;
        }
        proof {
            assert(self@.hp =~= m_store_hp_regs(old(self)@, max_reg as int).hp);
            assert(self@ =~~= m_store_hp_regs(old(self)@, max_reg as int));
        }
    }

    /// Load registers zero through `max_reg` from the HP48 persistent
    /// bytes; at most the eight bytes are read.
    pub fn load_hp_regs(&mut self, max_reg: u8)
        requires
            max_reg < 16,
        ensures
            final(self)@ == m_load_hp_regs(old(self)@, max_reg as int),
    {
        let count: usize = max_reg as usize + 1;
        let mut j: usize = 0;
        while j < count && j < 8
            invariant
                count == max_reg as int + 1,
                count <= 16,
                j <= count,
                j <= 8,
                same_except_regs(self@, old(self)@),
                forall|t: int| 0 <= t < j ==> (#[trigger] self@.regs[t]) == old(self)@.hp[t],
                forall|t: int| j <= t < 16 ==> (#[trigger] self@.regs[t]) == old(self)@.regs[t],
            decreases count - j,
        {
            self.registers[j] = self.hp_48_flags[j];
            j = j + 1;
        }
        proof {
            assert(self@.regs =~= m_load_hp_regs(old(self)@, max_reg as int).regs);
            assert(self@ =~~= m_load_hp_regs(old(self)@, max_reg as int));
        }
    }

    /// Store the key handed over by the input capability for a blocking
    /// wait into register `reg`; the driver blocks, not the core.
    pub fn wait_for_key(&mut self, reg: u8)
        requires
            reg < 16,
        ensures
            final(self)@ == m_wait_for_key(old(self)@, reg as int),
    {
        let key: u8 = self.io.wait_for_key();
        self.registers[reg as usize] = key;
    }

    /// Skip the next instruction when the key selected by register `reg`
    /// is pressed.
    pub fn skip_key_pressed(&mut self, reg: u8)
        requires
            reg < 16,
            old(self)@.pc < MAX_RAM,
        ensures
            final(self)@ == m_skip(
                old(self)@,
                key_down(old(self)@, old(self)@.regs[reg as int]),
            ),
    {
        let key: u8 = self.registers[reg as usize];
        let down: bool = if key < 16 {
            self.io.is_key_pressed(key)
        } else {
            false
        };
        if down {
            self.inc_pc();
        }
    }

    /// Skip the next instruction when the key selected by register `reg`
    /// is not pressed.
    pub fn skip_not_key_pressed(&mut self, reg: u8)
        requires
            reg < 16,
            old(self)@.pc < MAX_RAM,
        ensures
            final(self)@ == m_skip(
                old(self)@,
                !key_down(old(self)@, old(self)@.regs[reg as int]),
            ),
    {
        let key: u8 = self.registers[reg as usize];
        let down: bool = if key < 16 {
            self.io.is_key_pressed(key)
        } else {
            false
        };
        if !down {
            self.inc_pc();
        }
    }

    /// Scroll the mode rectangle down by `n` rows.
    pub fn scroll_n_down(&mut self, n: u8)
        ensures
            final(self)@ == m_scroll_down(old(self)@, n),
    {
        self.graphics.scroll_down(n);
    }

    /// Scroll the mode rectangle right by four cells.
    pub fn scroll_4_right(&mut self)
        ensures
            final(self)@ == m_scroll_right(old(self)@),
    {
        self.graphics.scroll_right(4);
    }

    /// Scroll the mode rectangle left by four cells.
    pub fn scroll_4_left(&mut self)
        ensures
            final(self)@ == m_scroll_left(old(self)@),
    {
        self.graphics.scroll_left(4);
    }

    /// Halt the machine for good.
    pub fn exit(&mut self)
        ensures
            final(self)@ == m_exit(old(self)@),
    {
        self.halt = true;
    }

    /// Select the classic 64x32 resolution.
    pub fn set_chip_mode(&mut self)
        ensures
            final(self)@ == m_set_mode(old(self)@, Mode::Chip),
    {
        self.graphics.set_mode(Mode::Chip);
    }

    /// Select the SuperCHIP 128x64 resolution.
    pub fn set_super_chip_mode(&mut self)
        ensures
            final(self)@ == m_set_mode(old(self)@, Mode::Schip),
    {
        self.graphics.set_mode(Mode::Schip);
    }

    /// Draw a standard sprite: `line_count` rows (sixteen when zero) of
    /// eight pixels, read from memory at the index register, composed at
    /// the coordinates held in registers `x` and `y`. The flag register
    /// ends one exactly when some row collided.
    pub fn draw_sprite(&mut self, x: u8, y: u8, line_count: u8)
        requires
            x < 16,
            y < 16,
        ensures
            final(self)@ == m_draw_sprite(old(self)@, x as int, y as int, line_count),
    {
        self.registers[FLAG] = 0;
        let n: u8 = if line_count == 0 {
            16
        } else {
            line_count
        };
        proof {
            assert(self@ =~~= m_draw_rows(old(self)@, x as int, y as int, 0));
        }
        let mut i: u8 = 0;
        while i < n
            invariant
                x < 16,
                y < 16,
                i <= n,
                n == (if line_count == 0 {
                    16u8
                } else {
                    line_count
                }),
                self@ == m_draw_rows(old(self)@, x as int, y as int, i as int),
            decreases n - i,
        {
            let ghost prev = self@;
            let line: u8 = self.mem[(self.index_reg as usize + i as usize) % MAX_RAM];
            let vx: u8 = self.registers[x as usize];
            let vy: u8 = ((self.registers[y as usize] as u16 + i as u16) % 256) as u8;
            let collided: bool = self.graphics.draw_line(vx, vy, line as usize, 8);
            if collided {
                self.registers[FLAG] = 1;
            }
            proof {
                assert(self@ =~~= m_draw_row(prev, x as int, y as int, i as int));
                assert(self@ =~~= m_draw_rows(old(self)@, x as int, y as int, i as int + 1));
            }
            i = i + 1;
        }
    }

    /// Draw a sixteen-by-sixteen extended sprite, each row two consecutive
    /// bytes at the index register joined into one sixteen-pixel line.
    pub fn draw_extended_sprite(&mut self, start_x: u8, start_y: u8)
        requires
            start_x < 16,
            start_y < 16,
        ensures
            final(self)@ == m_draw_extended_sprite(old(self)@, start_x as int, start_y as int),
    {
        self.registers[FLAG] = 0;
        proof {
            assert(self@ =~~= m_draw_extended_rows(old(self)@, start_x as int, start_y as int, 0));
        }
        let mut i: u8 = 0;
        while i < 16
            invariant
                start_x < 16,
                start_y < 16,
                i <= 16,
                self@ == m_draw_extended_rows(old(self)@, start_x as int, start_y as int, i as int),
            decreases 16 - i,
        {
            let ghost prev = self@;
            let hi: u8 = self.mem[(self.index_reg as usize + 2 * (i as usize)) % MAX_RAM];
            let lo: u8 = self.mem[(self.index_reg as usize + 2 * (i as usize) + 1) % MAX_RAM];
            let line: u16 = ((hi as u16) << 8) | (lo as u16);
            let vx: u8 = self.registers[start_x as usize];
            let vy: u8 = ((self.registers[start_y as usize] as u16 + i as u16) % 256) as u8;
            let collided: bool = self.graphics.draw_line(vx, vy, line as usize, 16);
            if collided {
                self.registers[FLAG] = 1;
            }
            proof {
                assert(self@ =~~= m_draw_extended_row(prev, start_x as int, start_y as int,
                i as int));
                assert(self@ =~~= m_draw_extended_rows(old(self)@, start_x as int,
                start_y as int, i as int + 1));
            }
            i = i + 1;
        }
    }

    /// Fetch the big-endian 16-bit opcode at the program counter.
    fn get_opcode(&self) -> (op: u16)
        requires
            self@.pc < MAX_RAM,
        ensures
            op == fetch_of(self@),
    {
        let hi: u16 = self.mem[self.pc as usize] as u16;
        let lo: u16 = self.mem[((self.pc as usize) + 1) % MAX_RAM] as u16;
        hi * 256 + lo
    }

    /// Decode and run one opcode: advance the program counter past it,
    /// dispatch on its nibble pattern, and decrement the timers. The
    /// whole effect, success or failure, is [`step`] for some byte the
    /// generator handed out.
    #[verifier::rlimit(100)]
    fn execute(&mut self, opcode: u16) -> (r: Result<(), CpuError>)
        requires
            old(self)@.wf(),
        ensures
            final(self)@.wf(),
            exists|rnd: u8| #[trigger] step_matches(old(self)@, final(self)@, r, opcode, rnd),
    {
        let opcode_v: (u8, u8, u8, u8) = CPU::u16_to_hex_vec(opcode);
        self.inc_pc();
        let ghost mut rnd_used: u8 = 0;

        match opcode_v {
            (0x0, 0x0, 0xE, 0x0) => self.clear_screen(),
            (0x0, 0x0, 0xE, 0xE) => {
                if self.sp >= 1 {
                    self.ret();
                } else {
                    proof {
                        assert(step_matches(
                            old(self)@,
                            self@,
                            Err::<(), CpuError>(CpuError::StackUnderflow),
                            opcode,
                            0,
                        )) by {
                            reveal(step);
                        }
                    }
                    return Err(CpuError::StackUnderflow);
                }
            },
            (0x0, a, b, c) => {
                match (self.graphics.mode, (a, b, c)) {
                    (Mode::Schip, (0x0, 0xC, rows)) => self.scroll_n_down(rows),
                    (Mode::Schip, (0x0, 0xF, 0xB)) => self.scroll_4_right(),
                    (Mode::Schip, (0x0, 0xF, 0xC)) => self.scroll_4_left(),
                    (Mode::Schip, (0x0, 0xF, 0xD)) => self.exit(),
                    (Mode::Schip, (0x0, 0xF, 0xE)) => self.set_chip_mode(),
                    (Mode::Chip, (0x0, 0xF, 0xF)) => self.set_super_chip_mode(),
                    _ => {
                        proof {
                            assert(step_matches(
                                old(self)@,
                                self@,
                                Err::<(), CpuError>(CpuError::UnknownOpcode(opcode)),
                                opcode,
                                0,
                            )) by {
                                reveal(step);
                            }
                        }
                        return Err(CpuError::UnknownOpcode(opcode));
                    },
                }
            },
            (0x1, n1, n2, n3) => {
                let target: u16 = CPU::to_addr(n1, n2, n3);
                self.jump(target);
            },
            (0x2, n1, n2, n3) => {
                if self.sp <= 14 {
                    let target: u16 = CPU::to_addr(n1, n2, n3);
                    self.call(target);
                } else {
                    proof {
                        assert(step_matches(
                            old(self)@,
                            self@,
                            Err::<(), CpuError>(CpuError::StackOverflow),
                            opcode,
                            0,
                        )) by {
                            reveal(step);
                        }
                    }
                    return Err(CpuError::StackOverflow);
                }
            },
            (0x3, x, n1, n2) => {
                let v: u8 = CPU::to_val(n1, n2);
                self.skip_equals_reg_val(x, v);
            },
            (0x4, x, n1, n2) => {
                let v: u8 = CPU::to_val(n1, n2);
                self.skip_not_equals_reg_val(x, v);
            },
            (0x5, x, y, 0x0) => self.skip_equals_regs(x, y),
            (0x6, x, n1, n2) => {
                let v: u8 = CPU::to_val(n1, n2);
                self.mov_reg_val(x, v);
            },
            (0x7, x, n1, n2) => {
                let v: u8 = CPU::to_val(n1, n2);
                self.add_reg_val(x, v);
            },
            (0x8, x, y, 0x0) => self.mov_regs(x, y),
            (0x8, x, y, 0x1) => self.or_regs(x, y),
            (0x8, x, y, 0x2) => self.and_regs(x, y),
            (0x8, x, y, 0x3) => self.xor_regs(x, y),
            (0x8, x, y, 0x4) => self.add_regs(x, y),
            (0x8, x, y, 0x5) => self.sub_regs(x, y, x),
            (0x8, x, _, 0x6) => self.shift_right(x),
            (0x8, x, y, 0x7) => self.sub_regs(y, x, x),
            (0x8, x, _, 0xE) => self.shift_left(x),
            (0x9, x, y, 0x0) => self.skip_not_equals_regs(x, y),
            (0xA, n1, n2, n3) => {
                let target: u16 = CPU::to_addr(n1, n2, n3);
                self.set_i(target);
            },
            (0xB, n1, n2, n3) => {
                let target: u16 = CPU::to_addr(n1, n2, n3);
                self.jump_val_reg0(target);
            },
            (0xC, x, n1, n2) => {
                let v: u8 = CPU::to_val(n1, n2);
                let drawn: u8 = self.rand(x, v);
                proof {
                    rnd_used = drawn;
                }
            },
            (0xD, x, y, rows) => {
                match (self.graphics.mode, rows) {
                    (Mode::Schip, 0x0) => self.draw_extended_sprite(x, y),
                    _ => self.draw_sprite(x, y, rows),
                }
            },
            (0xE, x, 0x9, 0xE) => self.skip_key_pressed(x),
            (0xE, x, 0xA, 0x1) => self.skip_not_key_pressed(x),
            (0xF, x, 0x0, 0x7) => self.set_reg_delay(x),
            (0xF, x, 0x0, 0xA) => self.wait_for_key(x),
            (0xF, x, 0x1, 0x5) => self.set_delay_reg(x),
            (0xF, x, 0x1, 0x8) => self.set_sound_reg(x),
            (0xF, x, 0x1, 0xE) => self.add_reg_index(x),
            (0xF, x, 0x2, 0x9) => self.load_sprite(x),
            (0xF, x, 0x3, 0x3) => self.binary_decimal(x),
            (0xF, x, 0x5, 0x5) => self.store_regs(x),
            (0xF, x, 0x6, 0x5) => self.load_regs(x),
            (0xF, a, b, c) => {
                match (self.graphics.mode, (a, b, c)) {
                    (Mode::Schip, (x, 0x3, 0x0)) => self.load_extended_sprite(x),
                    (Mode::Schip, (x, 0x7, 0x5)) => self.store_hp_regs(x),
                    (Mode::Schip, (x, 0x8, 0x5)) => self.load_hp_regs(x),
                    _ => {
                        proof {
                            assert(step_matches(
                                old(self)@,
                                self@,
                                Err::<(), CpuError>(CpuError::UnknownOpcode(opcode)),
                                opcode,
                                0,
                            )) by {
                                reveal(step);
                            }
                        }
                        return Err(CpuError::UnknownOpcode(opcode));
                    },
                }
            },
            _ => {
                proof {
                    assert(step_matches(
                        old(self)@,
                        self@,
                        Err::<(), CpuError>(CpuError::UnknownOpcode(opcode)),
                        opcode,
                        0,
                    )) by {
                        reveal(step);
                    }
                }
                return Err(CpuError::UnknownOpcode(opcode));
            },
        }

        let ghost mid = self@;
        if self.delay_timer > 0 {
            self.delay_timer = self.delay_timer - 1;
        }
        if self.sound_timer > 0 {
            self.sound_timer = self.sound_timer - 1;
        }
        proof {
            lemma_step_cases(old(self)@, opcode, rnd_used);
            assert(self@ =~~= m_tick(mid));
            assert(step_matches(old(self)@, self@, Ok::<(), CpuError>(()), opcode, rnd_used));
            assert(self@.wf());
        }
        Ok(())
    }

    /// Whether the next fetched instruction is the blocking key-wait, so
    /// that a driver knows to obtain a key before the next cycle.
    pub fn needs_key_input(&self) -> (needs: bool)
        requires
            self@.wf(),
        ensures
            needs == ({
                let (n0, n1, n2, n3) = nibbles_of(fetch_of(self@));
                n0 == 0xF && n2 == 0 && n3 == 0xA
            }),
    {
        let opcode: u16 = self.get_opcode();
        let digits: (u8, u8, u8, u8) = CPU::u16_to_hex_vec(opcode);
        digits.0 == 0xF && digits.2 == 0x0 && digits.3 == 0xA
    }

    /// Run one full cycle: fetch the opcode at the program counter and
    /// execute it.
    pub fn perform_cycle(&mut self) -> (r: Result<(), CpuError>)
        requires
            old(self)@.wf(),
        ensures
            final(self)@.wf(),
            exists|rnd: u8|
                #[trigger] step_matches(
                    old(self)@,
                    final(self)@,
                    r,
                    fetch_of(old(self)@),
                    rnd,
                ),
    {
        let opcode: u16 = self.get_opcode();
        self.execute(opcode)
    }

    /// Execute one supplied opcode as a full cycle, without a fetch.
    pub fn interpret(&mut self, opcode: u16) -> (r: Result<(), CpuError>)
        requires
            old(self)@.wf(),
        ensures
            final(self)@.wf(),
            exists|rnd: u8| #[trigger] step_matches(old(self)@, final(self)@, r, opcode, rnd),
    {
        self.execute(opcode)
    }

    /// Split a 16-bit word into its four hex digits, most significant
    /// first.
    pub fn u16_to_hex_vec(hex: u16) -> (digits: (u8, u8, u8, u8))
        ensures
            digits.0 == hex as int / 4096,
            digits.1 == (hex as int / 256) % 16,
            digits.2 == (hex as int / 16) % 16,
            digits.3 == hex as int % 16,
            digits.0 < 16,
            digits.1 < 16,
            digits.2 < 16,
            digits.3 < 16,
    {
        proof {
            assert(((hex & 0xF000) >> 12) == hex as int / 4096 && ((hex & 0x0F00) >> 8) == (
            hex as int / 256) % 16 && ((hex & 0x00F0) >> 4) == (hex as int / 16) % 16 && (hex
                & 0x000F) == hex as int % 16 && (hex & 0xF000) >> 12 < 16 && (hex & 0x0F00) >> 8
                < 16 && (hex & 0x00F0) >> 4 < 16 && (hex & 0x000F) < 16) by (bit_vector);
        }
        (
            ((hex & 0xF000) >> 12) as u8,
            ((hex & 0x0F00) >> 8) as u8,
            ((hex & 0x00F0) >> 4) as u8,
            (hex & 0x000F) as u8,
        )
    }
}

} // verus!
