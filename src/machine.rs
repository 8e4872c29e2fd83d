use vstd::prelude::*;

verus! {

/// Width of the framebuffer in pixels.
pub const SCREEN_WIDTH: usize = 64;

/// Height of the framebuffer in pixels.
pub const SCREEN_HEIGHT: usize = 32;

/// Number of cells of the framebuffer (row-major, `x + y * SCREEN_WIDTH`).
pub const SCREEN_CELLS: usize = 2048;

/// Address at which programs are loaded and execution starts.
pub const START_ADDR: u16 = 0x200;

/// Size of memory in bytes.
pub const RAM_SIZE: usize = 4096;

/// Number of general registers.
pub const NUM_REGS: usize = 16;

/// Number of return addresses the stack holds.
pub const STACK_SIZE: usize = 16;

/// Number of keys of the keypad.
pub const NUM_KEYS: usize = 16;

/// Size of the built-in font: sixteen glyphs of five bytes each.
pub const FONTSET_SIZE: usize = 80;

/// Bitmaps of the hexadecimal digits 0 to F, five rows of four pixels each.
pub const FONTSET: [u8; FONTSET_SIZE] = [
    0xF0, 0x90, 0x90, 0x90, 0xF0,
    0x20, 0x60, 0x20, 0x20, 0x70,
    0xF0, 0x10, 0xF0, 0x80, 0xF0,
    0xF0, 0x10, 0xF0, 0x10, 0xF0,
    0x90, 0x90, 0xF0, 0x10, 0x10,
    0xF0, 0x80, 0xF0, 0x10, 0xF0,
    0xF0, 0x80, 0xF0, 0x90, 0xF0,
    0xF0, 0x10, 0x20, 0x40, 0x40,
    0xF0, 0x90, 0xF0, 0x90, 0xF0,
    0xF0, 0x90, 0xF0, 0x10, 0xF0,
    0xF0, 0x90, 0xF0, 0x90, 0x90,
    0xE0, 0x90, 0xE0, 0x90, 0xE0,
    0xF0, 0x80, 0x80, 0x80, 0xF0,
    0xE0, 0x90, 0x90, 0x90, 0xE0,
    0xF0, 0x80, 0xF0, 0x80, 0xF0,
    0xF0, 0x80, 0xF0, 0x80, 0x80,
];

/// The faults that stop an instruction or a load. None is recovered from
/// inside the machine: each is handed to the host.
#[derive(Clone, Copy, Debug, PartialEq, Eq, Structural)]
pub enum EmuError {
    /// A fetch, read or write outside memory, or a key index outside the keypad.
    MemoryFault,
    /// An instruction word that matches no known pattern.
    DecodeError(u16),
    /// A call with a full stack, or a return with an empty one.
    StackFault,
    /// A program that does not fit in memory from the load address on.
    LoadError,
}

/// The machine state as mathematical values: each array of the machine as
/// a sequence, each register as its integer.
pub struct MachineView {
    pub pc: u16,
    pub ram: Seq<u8>,
    pub screen: Seq<bool>,
    pub v: Seq<u8>,
    pub i: u16,
    pub sp: u16,
    pub stack: Seq<u16>,
    pub keys: Seq<bool>,
    pub dt: u8,
    pub st: u8,
    pub op: u16,
}

/// Memory right after power-on: the font at address 0, zero elsewhere.
pub open spec fn initial_ram() -> Seq<u8> {
    Seq::new(RAM_SIZE as nat, |a: int| if a < FONTSET_SIZE { FONTSET@[a] } else { 0u8 })
}

/// The state that construction and reset produce.
pub open spec fn initial_state() -> MachineView {
    MachineView {
        pc: START_ADDR,
        ram: initial_ram(),
        screen: Seq::new(SCREEN_CELLS as nat, |p: int| false),
        v: Seq::new(NUM_REGS as nat, |k: int| 0u8),
        i: 0,
        sp: 0,
        stack: Seq::new(STACK_SIZE as nat, |k: int| 0u16),
        keys: Seq::new(NUM_KEYS as nat, |k: int| false),
        dt: 0,
        st: 0,
        op: 0,
    }
}

/// What a reset makes of any state: the initial state.
pub open spec fn reset_spec(m: MachineView) -> MachineView {
    initial_state()
}

/// Index of pixel `(x, y)` in the framebuffer.
pub open spec fn cell(x: int, y: int) -> int {
    x + y * SCREEN_WIDTH
}

/// A timer after one decrement: one less, but never below zero.
pub open spec fn timer_step(t: u8) -> u8 {
    if t > 0 { (t - 1) as u8 } else { 0 }
}

/// Memory after a program is placed at the load address.
pub open spec fn loaded(ram: Seq<u8>, data: Seq<u8>) -> Seq<u8> {
    Seq::new(ram.len(), |a: int|
        if START_ADDR <= a < START_ADDR + data.len() { data[a - START_ADDR] } else { ram[a] })
}

/// Whether a program of `len` bytes fits in memory from the load address on.
pub open spec fn fits(len: nat) -> bool {
    START_ADDR + len <= RAM_SIZE
}

/// The outcome of a step that either succeeds with a new state or faults.
pub type Step = Result<MachineView, EmuError>;

/// Relates a state before an operation, the outcome that the model gives,
/// the state after it and the result returned: on success the state is the
/// model's, on a fault the result is that fault and the state is unchanged.
pub open spec fn outcome(pre: MachineView, res: Step, post: MachineView, r: Result<(), EmuError>) -> bool {
    match res {
        Ok(m) => r is Ok && post == m,
        Err(e) => r == Err::<(), EmuError>(e) && post == pre,
    }
}

/// Bits 12 to 15 of an instruction word: the operation group.
pub open spec fn op_group(op: u16) -> u16 {
    (op & 0xF000) >> 12
}

/// Bits 8 to 11: the first register operand.
pub open spec fn op_x(op: u16) -> u16 {
    (op & 0x0F00) >> 8
}

/// Bits 4 to 7: the second register operand.
pub open spec fn op_y(op: u16) -> u16 {
    (op & 0x00F0) >> 4
}

/// Bits 0 to 3: the low nibble.
pub open spec fn op_n(op: u16) -> u16 {
    op & 0x000F
}

/// The low 12 bits: an address operand.
pub open spec fn op_nnn(op: u16) -> u16 {
    op & 0x0FFF
}

/// The low 8 bits: an immediate operand.
pub open spec fn op_nn(op: u16) -> u8 {
    (op & 0x00FF) as u8
}

/// The instruction word stored big-endian at `pc` and `pc + 1`.
pub open spec fn word_at(ram: Seq<u8>, pc: int) -> u16 {
    (ram[pc] * 256 + ram[pc + 1]) as u16
}

/// The fetch phase: read the word at the program counter, record it and
/// advance past it; a fault when either byte lies outside memory.
pub open spec fn fetch_spec(m: MachineView) -> Step {
    if m.pc + 1 < RAM_SIZE {
        Ok(MachineView { pc: (m.pc + 2) as u16, op: word_at(m.ram, m.pc as int), ..m })
    } else {
        Err(EmuError::MemoryFault)
    }
}

/// Sum of two bytes modulo 256.
pub open spec fn add8(a: u8, b: u8) -> u8 {
    ((a + b) % 256) as u8
}

/// Difference of two bytes modulo 256.
pub open spec fn sub8(a: u8, b: u8) -> u8 {
    ((a - b + 256) % 256) as u8
}

/// 1 for true, 0 for false.
pub open spec fn flag(b: bool) -> u8 {
    if b { 1 } else { 0 }
}

/// Register `k` set to `val`.
pub open spec fn set_v(m: MachineView, k: int, val: u8) -> MachineView {
    MachineView { v: m.v.update(k, val), ..m }
}

/// Register `x` set to `val`, then the flag register 0xF set to `f`.
pub open spec fn set_v_flag(m: MachineView, x: int, val: u8, f: u8) -> MachineView {
    set_v(set_v(m, x, val), 15, f)
}

/// The program counter moved past the next instruction when `c` holds.
pub open spec fn skip_if(m: MachineView, c: bool) -> MachineView {
    if c { MachineView { pc: ((m.pc + 2) % 0x10000) as u16, ..m } } else { m }
}

/// Group 0: no-op, clear screen and return; any other word is unknown.
pub open spec fn system_spec(m: MachineView, op: u16) -> Step {
    if op_x(op) == 0 && op_y(op) == 0 && op_n(op) == 0 {
        Ok(m)
    } else if op_x(op) == 0 && op_y(op) == 0xE && op_n(op) == 0 {
        Ok(MachineView { screen: Seq::new(SCREEN_CELLS as nat, |p: int| false), ..m })
    } else if op_x(op) == 0 && op_y(op) == 0xE && op_n(op) == 0xE {
        if m.sp == 0 || m.sp > STACK_SIZE {
            Err(EmuError::StackFault)
        } else {
            Ok(MachineView { sp: (m.sp - 1) as u16, pc: m.stack[m.sp - 1], ..m })
        }
    } else {
        Err(EmuError::DecodeError(op))
    }
}

/// Group 8: register-to-register arithmetic and logic.
pub open spec fn alu_spec(m: MachineView, op: u16) -> Step {
    let x = op_x(op) as int;
    let a = m.v[x];
    let b = m.v[op_y(op) as int];
    let n = op_n(op);
    if n == 0 {
        Ok(set_v(m, x, b))
    } else if n == 1 {
        Ok(set_v(m, x, a | b))
    } else if n == 2 {
        Ok(set_v(m, x, a & b))
    } else if n == 3 {
        Ok(set_v(m, x, a ^ b))
    } else if n == 4 {
        Ok(set_v_flag(m, x, add8(a, b), flag(a + b > 255)))
    } else if n == 5 {
        Ok(set_v_flag(m, x, sub8(a, b), flag(a >= b)))
    } else if n == 6 {
        Ok(set_v_flag(m, x, a / 2, a % 2))
    } else if n == 7 {
        Ok(set_v_flag(m, x, sub8(b, a), flag(b >= a)))
    } else if n == 0xE {
        Ok(set_v_flag(m, x, ((a * 2) % 256) as u8, a / 128))
    } else {
        Err(EmuError::DecodeError(op))
    }
}

/// Whether column `c` (0 is the leftmost) of a sprite row is set.
pub open spec fn sprite_bit(row: u8, c: int) -> bool {
    row & (0x80u8 >> (c as u8)) != 0
}

/// Column of the sprite that lands on screen column `px` when the sprite's
/// left edge is at `vx`, counting around the screen's edge.
pub open spec fn sprite_col(vx: u8, px: int) -> int {
    (px - vx) % (SCREEN_WIDTH as int)
}

/// Row of the sprite that lands on screen row `py` when its top is at `vy`.
pub open spec fn sprite_row(vy: u8, py: int) -> int {
    (py - vy) % (SCREEN_HEIGHT as int)
}

/// Whether a set bit of the `n`-row sprite at `m.i`, drawn at `(vx, vy)`,
/// lands on framebuffer cell `p`.
pub open spec fn covers(m: MachineView, vx: u8, vy: u8, n: int, p: int) -> bool {
    let c = sprite_col(vx, p % (SCREEN_WIDTH as int));
    let r = sprite_row(vy, p / (SCREEN_WIDTH as int));
    c < 8 && r < n && sprite_bit(m.ram[m.i + r], c)
}

/// The framebuffer after the sprite is XOR-ed onto it.
pub open spec fn drawn(m: MachineView, vx: u8, vy: u8, n: int) -> Seq<bool> {
    Seq::new(SCREEN_CELLS as nat, |p: int| m.screen[p] != covers(m, vx, vy, n, p))
}

/// Whether the sprite turns some lit pixel off.
pub open spec fn collides(m: MachineView, vx: u8, vy: u8, n: int) -> bool {
    exists|p: int| 0 <= p < SCREEN_CELLS && #[trigger] covers(m, vx, vy, n, p) && m.screen[p]
}

/// `D,X,Y,N`: draw the `N`-row sprite stored at the index register at
/// `(reg[X], reg[Y])`, wrapping at the screen's edges; reg[0xF] tells whether
/// a lit pixel was turned off. A fault when the sprite's rows leave memory.
pub open spec fn draw_spec(m: MachineView, op: u16) -> Step {
    let vx = m.v[op_x(op) as int];
    let vy = m.v[op_y(op) as int];
    let n = op_n(op) as int;
    if n > 0 && m.i + n > RAM_SIZE {
        Err(EmuError::MemoryFault)
    } else {
        Ok(set_v(
            MachineView { screen: drawn(m, vx, vy, n), ..m },
            15,
            flag(collides(m, vx, vy, n)),
        ))
    }
}

/// Group E: skip on the state of the key that reg[X] names.
pub open spec fn key_skip_spec(m: MachineView, op: u16) -> Step {
    let k = m.v[op_x(op) as int];
    if op_y(op) == 9 && op_n(op) == 0xE {
        if k >= NUM_KEYS { Err(EmuError::MemoryFault) } else { Ok(skip_if(m, m.keys[k as int])) }
    } else if op_y(op) == 0xA && op_n(op) == 1 {
        if k >= NUM_KEYS { Err(EmuError::MemoryFault) } else { Ok(skip_if(m, !m.keys[k as int])) }
    } else {
        Err(EmuError::DecodeError(op))
    }
}

/// Key `k` is the lowest-numbered key that is pressed.
pub open spec fn lowest_pressed(keys: Seq<bool>, k: int) -> bool {
    0 <= k < NUM_KEYS && keys[k] && forall|j: int| 0 <= j < k ==> !#[trigger] keys[j]
}

/// `F,X,0,A`: with a key pressed, reg[X] takes the lowest pressed key;
/// with none, the program counter steps back so that the instruction runs again.
pub open spec fn wait_key_spec(m: MachineView, x: int) -> MachineView {
    if exists|k: int| 0 <= k < NUM_KEYS && #[trigger] m.keys[k] {
        set_v(m, x, (choose|k: int| lowest_pressed(m.keys, k)) as u8)
    } else {
        MachineView { pc: ((m.pc - 2 + 0x10000) % 0x10000) as u16, ..m }
    }
}

/// Decimal digits of a byte: hundreds, tens, ones.
pub open spec fn bcd(b: u8) -> (u8, u8, u8) {
    (b / 100, (b / 10) % 10, b % 10)
}

/// Group F: timers, keys, the index register and memory transfers.
pub open spec fn misc_spec(m: MachineView, op: u16) -> Step {
    let x = op_x(op) as int;
    let vx = m.v[x];
    let tail = op & 0x00FF;
    if tail == 0x07 {
        Ok(set_v(m, x, m.dt))
    } else if tail == 0x0A {
        Ok(wait_key_spec(m, x))
    } else if tail == 0x15 {
        Ok(MachineView { dt: vx, ..m })
    } else if tail == 0x18 {
        Ok(MachineView { st: vx, ..m })
    } else if tail == 0x1E {
        Ok(MachineView { i: ((m.i + vx) % 0x10000) as u16, ..m })
    } else if tail == 0x29 {
        Ok(MachineView { i: (vx * 5) as u16, ..m })
    } else if tail == 0x33 {
        if m.i + 2 >= RAM_SIZE {
            Err(EmuError::MemoryFault)
        } else {
            let (h, t, o) = bcd(vx);
            Ok(MachineView {
                ram: m.ram.update(m.i as int, h).update(m.i + 1, t).update(m.i + 2, o),
                ..m
            })
        }
    } else if tail == 0x55 {
        if m.i + x >= RAM_SIZE {
            Err(EmuError::MemoryFault)
        } else {
            Ok(MachineView {
                ram: Seq::new(RAM_SIZE as nat, |a: int|
                    if m.i <= a <= m.i + x { m.v[a - m.i] } else { m.ram[a] }),
                ..m
            })
        }
    } else if tail == 0x65 {
        if m.i + x >= RAM_SIZE {
            Err(EmuError::MemoryFault)
        } else {
            Ok(MachineView {
                v: Seq::new(NUM_REGS as nat, |k: int| if k <= x { m.ram[m.i + k] } else { m.v[k] }),
                ..m
            })
        }
    } else {
        Err(EmuError::DecodeError(op))
    }
}

/// The execute phase: what one instruction word does to the state. `rnd` is
/// the random byte that `C,X,NN` uses; no other instruction reads it.
pub open spec fn execute_spec(m: MachineView, op: u16, rnd: u8) -> Step {
    let g = op_group(op);
    let x = op_x(op) as int;
    let y = op_y(op) as int;
    let nn = op_nn(op);
    let nnn = op_nnn(op);
    if g == 0 {
        system_spec(m, op)
    } else if g == 1 {
        Ok(MachineView { pc: nnn, ..m })
    } else if g == 2 {
        if m.sp >= STACK_SIZE {
            Err(EmuError::StackFault)
        } else {
            Ok(MachineView {
                stack: m.stack.update(m.sp as int, m.pc),
                sp: (m.sp + 1) as u16,
                pc: nnn,
                ..m
            })
        }
    } else if g == 3 {
        Ok(skip_if(m, m.v[x] == nn))
    } else if g == 4 {
        Ok(skip_if(m, m.v[x] != nn))
    } else if g == 5 {
        if op_n(op) == 0 { Ok(skip_if(m, m.v[x] == m.v[y])) } else { Err(EmuError::DecodeError(op)) }
    } else if g == 6 {
        Ok(set_v(m, x, nn))
    } else if g == 7 {
        Ok(set_v(m, x, add8(m.v[x], nn)))
    } else if g == 8 {
        alu_spec(m, op)
    } else if g == 9 {
        if op_n(op) == 0 { Ok(skip_if(m, m.v[x] != m.v[y])) } else { Err(EmuError::DecodeError(op)) }
    } else if g == 0xA {
        Ok(MachineView { i: nnn, ..m })
    } else if g == 0xB {
        Ok(MachineView { pc: (nnn + m.v[0]) as u16, ..m })
    } else if g == 0xC {
        Ok(set_v(m, x, rnd & nn))
    } else if g == 0xD {
        draw_spec(m, op)
    } else if g == 0xE {
        key_skip_spec(m, op)
    } else {
        misc_spec(m, op)
    }
}

/// Whether an instruction word reads the random byte.
pub open spec fn uses_random(op: u16) -> bool {
    op_group(op) == 0xC
}

/// One full cycle from state `m`, with `rnd` as the random byte: fetch, then
/// execute. A fetch fault leaves the state as it was; an execute fault leaves
/// it as the fetch left it.
pub open spec fn tick_result(m: MachineView, rnd: u8, post: MachineView, r: Result<(), EmuError>) -> bool {
    match fetch_spec(m) {
        Ok(f) => outcome(f, execute_spec(f, f.op, rnd), post, r),
        Err(e) => r == Err::<(), EmuError>(e) && post == m,
    }
}

/// The fields of an instruction word lie in their ranges.
pub proof fn lemma_operands(op: u16)
    ensures
        op_group(op) < 16,
        op_x(op) < 16,
        op_y(op) < 16,
        op_n(op) < 16,
        op_nnn(op) < 0x1000,
        op_nn(op) == (op & 0x00FF) as u8,
{
    assert((op & 0xF000u16) >> 12u16 < 16) by (bit_vector);
    assert((op & 0x0F00u16) >> 8u16 < 16) by (bit_vector);
    assert((op & 0x00F0u16) >> 4u16 < 16) by (bit_vector);
    assert(op & 0x000Fu16 < 16) by (bit_vector);
    assert(op & 0x0FFFu16 < 0x1000) by (bit_vector);
}

/// Sprite column `col` of row `row`, drawn at `(vx, vy)`, lands on exactly
/// one cell, and on no other cell does that column of that row land.
pub proof fn lemma_sprite_target(vx: u8, vy: u8, col: int, row: int)
    requires
        0 <= col < 8,
        0 <= row < 16,
    ensures
        ({
            let px = (vx + col) % 64;
            let py = (vy + row) % 32;
            let lin = px + py * 64;
            &&& 0 <= lin < SCREEN_CELLS
            &&& lin % 64 == px
            &&& lin / 64 == py
            &&& sprite_col(vx, px) == col
            &&& sprite_row(vy, py) == row
            &&& forall|p: int|
                0 <= p < SCREEN_CELLS && #[trigger] sprite_col(vx, p % 64) == col && sprite_row(
                    vy,
                    p / 64,
                ) == row ==> p == lin
        }),
{
    let px = (vx + col) % 64;
    let py = (vy + row) % 32;
    let lin = px + py * 64;
    assert(lin % 64 == px && lin / 64 == py) by (nonlinear_arith)
        requires
            lin == px + py * 64,
            0 <= px < 64,
            0 <= py < 32,
    ;
    assert forall|p: int|
        0 <= p < SCREEN_CELLS && #[trigger] sprite_col(vx, p % 64) == col && sprite_row(vy, p / 64)
            == row implies p == lin by {
        let a = p % 64;
        let b = p / 64;
        assert(p == a + b * 64);
        assert(a == px);
        assert(b == py);
    }
}

} // verus!
