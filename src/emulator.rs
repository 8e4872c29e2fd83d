use vstd::prelude::*;
use crate::machine::{
    alu_spec, bcd, cell, collides, covers, draw_spec, drawn, execute_spec, fetch_spec, fits,
    initial_state, key_skip_spec, lemma_operands, lemma_sprite_target, loaded, lowest_pressed,
    misc_spec, outcome, reset_spec, sprite_bit, sprite_col, sprite_row, system_spec, tick_result,
    timer_step, uses_random, wait_key_spec, word_at, EmuError, MachineView, FONTSET, FONTSET_SIZE,
    NUM_KEYS, NUM_REGS, RAM_SIZE, SCREEN_CELLS, SCREEN_HEIGHT, SCREEN_WIDTH, STACK_SIZE,
    START_ADDR,
};

verus! {

/// The whole machine: memory, registers, stack, timers, keypad and framebuffer.
/// Every field is public so that a host can show it and set the keys.
pub struct Emulator {
    /// Address of the next instruction.
    pub pc: u16,
    /// Memory: the font from address 0, programs from `START_ADDR`.
    pub ram: [u8; RAM_SIZE],
    /// The framebuffer, row-major: pixel `(x, y)` is cell `x + y * SCREEN_WIDTH`.
    pub screen: [bool; SCREEN_CELLS],
    /// General registers; register 0xF also receives the flag results.
    pub v_reg: [u8; NUM_REGS],
    /// The index register, a memory address.
    pub i_reg: u16,
    /// Number of return addresses on the stack.
    pub sp: u16,
    pub stack: [u16; STACK_SIZE],
    /// Which keys of the keypad are held down; set by the host.
    pub keys: [bool; NUM_KEYS],
    /// Delay timer.
    pub dt: u8,
    /// Sound timer.
    pub st: u8,
    /// The last instruction word fetched, kept for inspection only.
    pub op: u16,
}

/// Relies on `fastrand::u8` over the full range `0..=255`: it returns some
/// byte, drawn from the thread-local generator. The range is never empty, so
/// the call does not panic.
#[verifier::external_body]
fn random_byte() -> u8 {
    fastrand::u8(0..=255)
}

/// Whether the pixel at cell `p` comes before sprite row `row`, column
/// `col` in the order in which a draw visits the sprite.
spec fn visited(vx: u8, vy: u8, row: int, col: int, p: int) -> bool {
    let r = sprite_row(vy, p / (SCREEN_WIDTH as int));
    let c = sprite_col(vx, p % (SCREEN_WIDTH as int));
    r < row || (r == row && c < col)
}

impl View for Emulator {
    type V = MachineView;

    open spec fn view(&self) -> MachineView {
        MachineView {
            pc: self.pc,
            ram: self.ram@,
            screen: self.screen@,
            v: self.v_reg@,
            i: self.i_reg,
            sp: self.sp,
            stack: self.stack@,
            keys: self.keys@,
            dt: self.dt,
            st: self.st,
            op: self.op,
        }
    }
}

impl Emulator {
    /// A machine in its initial state: everything zero, the font in memory
    /// from address 0 and the program counter at the load address.
    pub fn new() -> (e: Self)
        ensures
            e@ == initial_state(),
    {
        let mut e = Emulator {
            pc: START_ADDR,
            ram: [0u8; RAM_SIZE],
            screen: [false; SCREEN_CELLS],
            v_reg: [0u8; NUM_REGS],
            i_reg: 0,
            sp: 0,
            stack: [0u16; STACK_SIZE],
            keys: [false; NUM_KEYS],
            dt: 0,
            st: 0,
            op: 0,
        };
        let mut a: usize = 0;
        while a < FONTSET_SIZE
            invariant
                a <= FONTSET_SIZE,
                forall|k: int| 0 <= k < a ==> e.ram@[k] == FONTSET@[k],
                forall|k: int| FONTSET_SIZE <= k < RAM_SIZE ==> e.ram@[k] == 0u8,
                e.pc == START_ADDR && e.i_reg == 0 && e.sp == 0,
                e.dt == 0 && e.st == 0 && e.op == 0,
                e.screen@ == initial_state().screen,
                e.v_reg@ == initial_state().v,
                e.stack@ == initial_state().stack,
                e.keys@ == initial_state().keys,
            decreases FONTSET_SIZE - a,
        {
            e.ram[a] = FONTSET[a];
            a += 1;
        }
        assert(e.ram@ =~= initial_state().ram);
        e
    }

    /// Puts the machine back in its initial state, as `new` builds it. A
    /// program loaded before must be loaded again.
    pub fn reset(&mut self)
        ensures
            final(self)@ == reset_spec(old(self)@),
    {
        *self = Emulator::new();
    }

    /// Whether pixel `(x, y)` of the framebuffer is on.
    pub fn get_pixel(&self, x: usize, y: usize) -> (on: bool)
        requires
            x < SCREEN_WIDTH,
            y < SCREEN_HEIGHT,
        ensures
            on == self@.screen[cell(x as int, y as int)],
    {
        let lin = x + y * SCREEN_WIDTH;
        self.screen[lin]
    }

    /// One step of the two countdown timers: each goes down by one unless it
    /// is already zero. A host sounds its tone while the sound timer is not zero.
    pub fn tick_timers(&mut self)
        ensures
            final(self)@ == (MachineView {
                dt: timer_step(old(self).dt),
                st: timer_step(old(self).st),
                ..old(self)@
            }),
    {
        if self.dt > 0 {
            self.dt = self.dt - 1;
        }
        if self.st > 0 {
            self.st = self.st - 1;
        }
    }

    /// Copies a program into memory from the load address on. A program that
    /// does not fit is refused whole, and nothing changes.
    pub fn load(&mut self, data: &[u8]) -> (r: Result<(), EmuError>)
        ensures
            fits(data@.len()) ==> r is Ok && final(self)@ == (MachineView {
                ram: loaded(old(self)@.ram, data@),
                ..old(self)@
            }),
            !fits(data@.len()) ==> r == Err::<(), EmuError>(EmuError::LoadError)
                && final(self)@ == old(self)@,
    {
        if data.len() > RAM_SIZE - START_ADDR as usize {
            return Err(EmuError::LoadError);
        }
        let start = START_ADDR as usize;
        let mut k: usize = 0;
        while k < data.len()
            invariant
                fits(data@.len()),
                start == START_ADDR as usize,
                k <= data@.len(),
                forall|a: int| 0 <= a < RAM_SIZE ==> #[trigger] self.ram@[a] == (
                    if start <= a < start + k { data@[a - start] } else { old(self).ram@[a] }),
                self@ == (MachineView { ram: self.ram@, ..old(self)@ }),
            decreases data@.len() - k,
        {
            self.ram[start + k] = data[k];
            k += 1;
        }
        assert(self.ram@ =~= loaded(old(self)@.ram, data@));
        Ok(())
    }

    /// Pushes a return address; a fault when the stack is full.
    fn push(&mut self, val: u16) -> (r: Result<(), EmuError>)
        ensures
            old(self).sp >= STACK_SIZE ==> r == Err::<(), EmuError>(EmuError::StackFault)
                && final(self)@ == old(self)@,
            old(self).sp < STACK_SIZE ==> r is Ok && final(self)@ == (MachineView {
                stack: old(self)@.stack.update(old(self).sp as int, val),
                sp: (old(self).sp + 1) as u16,
                ..old(self)@
            }),
    {
        if self.sp as usize >= STACK_SIZE {
            return Err(EmuError::StackFault);
        }
        self.stack[self.sp as usize] = val;
        self.sp = self.sp + 1;
        Ok(())
    }

    /// Pops a return address; a fault when the stack is empty or the stack
    /// pointer lies past the stack.
    fn pop(&mut self) -> (r: Result<u16, EmuError>)
        ensures
            (old(self).sp == 0 || old(self).sp > STACK_SIZE) ==> r == Err::<u16, EmuError>(
                EmuError::StackFault,
            ) && final(self)@ == old(self)@,
            0 < old(self).sp <= STACK_SIZE ==> r == Ok::<u16, EmuError>(
                old(self)@.stack[old(self).sp - 1],
            ) && final(self)@ == (MachineView { sp: (old(self).sp - 1) as u16, ..old(self)@ }),
    {
        if self.sp == 0 || self.sp as usize > STACK_SIZE {
            return Err(EmuError::StackFault);
        }
        self.sp = self.sp - 1;
        Ok(self.stack[self.sp as usize])
    }

    /// Group 0: no-op, clear screen, return.
    fn exec_system(&mut self, op: u16) -> (r: Result<(), EmuError>)
        ensures
            outcome(old(self)@, system_spec(old(self)@, op), final(self)@, r),
    {
        let x = (op & 0x0F00) >> 8;
        let y = (op & 0x00F0) >> 4;
        let n = op & 0x000F;
        if x == 0 && y == 0 && n == 0 {
            Ok(())
        } else if x == 0 && y == 0xE && n == 0 {
            self.screen = [false; SCREEN_CELLS];
            assert(self.screen@ =~= Seq::new(SCREEN_CELLS as nat, |p: int| false));
            Ok(())
        } else if x == 0 && y == 0xE && n == 0xE {
            match self.pop() {
                Ok(pc) => {
                    self.pc = pc;
                    Ok(())
                },
                Err(e) => Err(e),
            }
        } else {
            Err(EmuError::DecodeError(op))
        }
    }

    /// Group 8: register-to-register arithmetic and logic; reg[0xF] is
    /// written last, so it holds the flag even when it is also the target.
    #[verifier::rlimit(30)]
    fn exec_alu(&mut self, op: u16) -> (r: Result<(), EmuError>)
        ensures
            outcome(old(self)@, alu_spec(old(self)@, op), final(self)@, r),
    {
        proof {
            lemma_operands(op);
        }
        let x = ((op & 0x0F00) >> 8) as usize;
        let y = ((op & 0x00F0) >> 4) as usize;
        let n = op & 0x000F;
        let a = self.v_reg[x];
        let b = self.v_reg[y];
        if n == 0 {
            self.v_reg[x] = b;
        } else if n == 1 {
            self.v_reg[x] = a | b;
        } else if n == 2 {
            self.v_reg[x] = a & b;
        } else if n == 3 {
            self.v_reg[x] = a ^ b;
        } else if n == 4 {
            let carry: u8 = if a as u16 + b as u16 > 255 { 1 } else { 0 };
            self.v_reg[x] = a.wrapping_add(b);
            self.v_reg[15] = carry;
        } else if n == 5 {
            let no_borrow: u8 = if a >= b { 1 } else { 0 };
            self.v_reg[x] = a.wrapping_sub(b);
            self.v_reg[15] = no_borrow;
        } else if n == 6 {
            self.v_reg[x] = a / 2;
            self.v_reg[15] = a % 2;
        } else if n == 7 {
            let no_borrow: u8 = if b >= a { 1 } else { 0 };
            self.v_reg[x] = b.wrapping_sub(a);
            self.v_reg[15] = no_borrow;
        } else if n == 0xE {
            self.v_reg[x] = (a % 128) * 2;
            self.v_reg[15] = a / 128;
        } else {
            return Err(EmuError::DecodeError(op));
        }
        Ok(())
    }

    /// Group E: skip on the state of the key that reg[X] names.
    fn exec_key_skip(&mut self, op: u16) -> (r: Result<(), EmuError>)
        ensures
            outcome(old(self)@, key_skip_spec(old(self)@, op), final(self)@, r),
    {
        proof {
            lemma_operands(op);
        }
        let x = ((op & 0x0F00) >> 8) as usize;
        let y = (op & 0x00F0) >> 4;
        let n = op & 0x000F;
        let k = self.v_reg[x] as usize;
        if y == 9 && n == 0xE {
            if k >= NUM_KEYS {
                return Err(EmuError::MemoryFault);
            }
            if self.keys[k] {
                self.pc = self.pc.wrapping_add(2);
            }
        } else if y == 0xA && n == 1 {
            if k >= NUM_KEYS {
                return Err(EmuError::MemoryFault);
            }
            if !self.keys[k] {
                self.pc = self.pc.wrapping_add(2);
            }
        } else {
            return Err(EmuError::DecodeError(op));
        }
        Ok(())
    }

    /// `F,X,0,A`: reg[X] takes the lowest pressed key; with none pressed the
    /// program counter steps back so that the instruction is offered again.
    fn wait_key(&mut self, x: usize)
        requires
            x < NUM_REGS,
        ensures
            final(self)@ == wait_key_spec(old(self)@, x as int),
    {
        let mut k: usize = 0;
        while k < NUM_KEYS
            invariant
                k <= NUM_KEYS,
                x < NUM_REGS,
                *self == *old(self),
                forall|j: int| 0 <= j < k ==> !#[trigger] self.keys@[j],
            decreases NUM_KEYS - k,
        {
            if self.keys[k] {
                proof {
                    let keys = self.keys@;
                    assert(lowest_pressed(keys, k as int));
                    let c = choose|c: int| lowest_pressed(keys, c);
                    assert(lowest_pressed(keys, c));
                    if c < k {
                        assert(!keys[c]);
                    }
                    if c > k {
                        assert(!keys[k as int]);
                    }
                }
                self.v_reg[x] = k as u8;
                return;
            }
            k += 1;
        }
        self.pc = self.pc.wrapping_sub(2);
    }

    /// Group F: timers, keys, the index register and memory transfers.
    fn exec_misc(&mut self, op: u16) -> (r: Result<(), EmuError>)
        ensures
            outcome(old(self)@, misc_spec(old(self)@, op), final(self)@, r),
    {
        proof {
            lemma_operands(op);
        }
        let x = ((op & 0x0F00) >> 8) as usize;
        let vx = self.v_reg[x];
        let tail = op & 0x00FF;
        if tail == 0x07 {
            self.v_reg[x] = self.dt;
        } else if tail == 0x0A {
            self.wait_key(x);
        } else if tail == 0x15 {
            self.dt = vx;
        } else if tail == 0x18 {
            self.st = vx;
        } else if tail == 0x1E {
            self.i_reg = self.i_reg.wrapping_add(vx as u16);
        } else if tail == 0x29 {
            self.i_reg = vx as u16 * 5;
        } else if tail == 0x33 {
            let i = self.i_reg as usize;
            if i + 2 >= RAM_SIZE {
                return Err(EmuError::MemoryFault);
            }
            self.ram[i] = vx / 100;
            self.ram[i + 1] = (vx / 10) % 10;
            self.ram[i + 2] = vx % 10;
            assert(bcd(vx) == (vx / 100, (vx / 10) % 10, vx % 10));
        } else if tail == 0x55 {
            let i = self.i_reg as usize;
            if i + x >= RAM_SIZE {
                return Err(EmuError::MemoryFault);
            }
            let mut k: usize = 0;
            while k <= x
                invariant
                    x < NUM_REGS,
                    i == old(self).i_reg,
                    i + x < RAM_SIZE,
                    k <= x + 1,
                    self@ == (MachineView { ram: self.ram@, ..old(self)@ }),
                    forall|a: int| 0 <= a < RAM_SIZE ==> #[trigger] self.ram@[a] == (
                        if i <= a < i + k { old(self).v_reg@[a - i] } else { old(self).ram@[a] }),
                decreases x + 1 - k,
            {
                self.ram[i + k] = self.v_reg[k];
                k += 1;
            }
            assert(self.ram@ =~= Seq::new(RAM_SIZE as nat, |a: int|
                if i <= a <= i + x { old(self).v_reg@[a - i] } else { old(self).ram@[a] }));
        } else if tail == 0x65 {
            let i = self.i_reg as usize;
            if i + x >= RAM_SIZE {
                return Err(EmuError::MemoryFault);
            }
            let mut k: usize = 0;
            while k <= x
                invariant
                    x < NUM_REGS,
                    i == old(self).i_reg,
                    i + x < RAM_SIZE,
                    k <= x + 1,
                    self@ == (MachineView { v: self.v_reg@, ..old(self)@ }),
                    forall|j: int| 0 <= j < NUM_REGS ==> #[trigger] self.v_reg@[j] == (
                        if j < k { old(self).ram@[i + j] } else { old(self).v_reg@[j] }),
                decreases x + 1 - k,
            {
                self.v_reg[k] = self.ram[i + k];
                k += 1;
            }
            assert(self.v_reg@ =~= Seq::new(NUM_REGS as nat, |j: int|
                if j <= x { old(self).ram@[i + j] } else { old(self).v_reg@[j] }));
        } else {
            return Err(EmuError::DecodeError(op));
        }
        Ok(())
    }

    /// `D,X,Y,N`: XOR the `N`-row sprite at the index register onto the
    /// framebuffer at `(reg[X], reg[Y])`, wrapping at the edges; reg[0xF]
    /// becomes 1 when a lit pixel was turned off, else 0.
    fn draw(&mut self, op: u16) -> (r: Result<(), EmuError>)
        ensures
            outcome(old(self)@, draw_spec(old(self)@, op), final(self)@, r),
    {
        proof {
            lemma_operands(op);
        }
        let x = ((op & 0x0F00) >> 8) as usize;
        let y = ((op & 0x00F0) >> 4) as usize;
        let n = (op & 0x000F) as usize;
        let vx = self.v_reg[x];
        let vy = self.v_reg[y];
        let i = self.i_reg as usize;
        if n > 0 && i + n > RAM_SIZE {
            return Err(EmuError::MemoryFault);
        }
        let ghost m = self@;
        let mut flipped = false;
        let mut row: usize = 0;
        while row < n
            invariant
                row <= n < 16,
                n > 0 ==> i + n <= RAM_SIZE,
                i == m.i,
                self@ == (MachineView { screen: self.screen@, ..m }),
                forall|p: int| 0 <= p < SCREEN_CELLS ==> #[trigger] self.screen@[p] == (m.screen[p]
                    != (covers(m, vx, vy, n as int, p) && visited(vx, vy, row as int, 0, p))),
                flipped == exists|p: int| 0 <= p < SCREEN_CELLS && #[trigger] covers(m, vx, vy, n as int, p)
                    && visited(vx, vy, row as int, 0, p) && m.screen[p],
            decreases n - row,
        {
            let pixels = self.ram[i + row];
            let mut col: usize = 0;
            while col < 8
                invariant
                    row < n < 16,
                    col <= 8,
                    i + n <= RAM_SIZE,
                    i == m.i,
                    pixels == m.ram[i + row],
                    self@ == (MachineView { screen: self.screen@, ..m }),
                    forall|p: int| 0 <= p < SCREEN_CELLS ==> #[trigger] self.screen@[p] == (m.screen[p]
                        != (covers(m, vx, vy, n as int, p) && visited(vx, vy, row as int, col as int, p))),
                    flipped == exists|p: int| 0 <= p < SCREEN_CELLS && #[trigger] covers(m, vx, vy, n as int, p)
                        && visited(vx, vy, row as int, col as int, p) && m.screen[p],
                decreases 8 - col,
            {
                let px = (vx as usize + col) % SCREEN_WIDTH;
                let py = (vy as usize + row) % SCREEN_HEIGHT;
                let lin = px + py * SCREEN_WIDTH;
                proof {
                    lemma_sprite_target(vx, vy, col as int, row as int);
                    assert(covers(m, vx, vy, n as int, lin as int) == sprite_bit(pixels, col as int));
                    assert forall|p: int| 0 <= p < SCREEN_CELLS implies visited(
                        vx,
                        vy,
                        row as int,
                        col + 1,
                        p,
                    ) == (visited(vx, vy, row as int, col as int, p) || p == lin) by {
                        assert(sprite_col(vx, p % 64) == col && sprite_row(vy, p / 64) == row ==> p == lin);
                    }
                }
                if pixels & (0x80u8 >> col as u8) != 0 {
                    let was = self.screen[lin];
                    flipped = flipped || was;
                    self.screen[lin] = !was;
                }
                col += 1;
            }
            proof {
                assert forall|p: int| 0 <= p < SCREEN_CELLS implies (covers(m, vx, vy, n as int, p)
                    && visited(vx, vy, row as int, 8, p)) == (covers(m, vx, vy, n as int, p)
                    && visited(vx, vy, row + 1, 0, p)) by {}
            }
            row += 1;
        }
        self.v_reg[15] = if flipped { 1 } else { 0 };
        proof {
            assert forall|p: int| 0 <= p < SCREEN_CELLS && covers(m, vx, vy, n as int, p) implies visited(
                vx,
                vy,
                n as int,
                0,
                p,
            ) by {}
            assert(self.screen@ =~= drawn(m, vx, vy, n as int));
            assert(flipped == collides(m, vx, vy, n as int));
        }
        Ok(())
    }

    /// The fetch phase: reads the big-endian word at the program counter,
    /// records it and advances the program counter past it.
    fn fetch(&mut self) -> (r: Result<u16, EmuError>)
        ensures
            match fetch_spec(old(self)@) {
                Ok(m) => r == Ok::<u16, EmuError>(m.op) && final(self)@ == m,
                Err(e) => r == Err::<u16, EmuError>(e) && final(self)@ == old(self)@,
            },
    {
        let pc = self.pc as usize;
        if pc + 1 >= RAM_SIZE {
            return Err(EmuError::MemoryFault);
        }
        let op = self.ram[pc] as u16 * 256 + self.ram[pc + 1] as u16;
        self.op = op;
        self.pc = self.pc + 2;
        Ok(op)
    }

    /// The execute phase: carries out one instruction word, with `rnd` as
    /// the random byte that `C,X,NN` masks. A fault changes nothing.
    pub fn execute(&mut self, op: u16, rnd: u8) -> (r: Result<(), EmuError>)
        ensures
            outcome(old(self)@, execute_spec(old(self)@, op, rnd), final(self)@, r),
    {
        proof {
            lemma_operands(op);
        }
        let g = (op & 0xF000) >> 12;
        let x = ((op & 0x0F00) >> 8) as usize;
        let y = ((op & 0x00F0) >> 4) as usize;
        let n = op & 0x000F;
        let nn = (op & 0x00FF) as u8;
        let nnn = op & 0x0FFF;
        if g == 0 {
            return self.exec_system(op);
        } else if g == 1 {
            self.pc = nnn;
        } else if g == 2 {
            let ret = self.pc;
            match self.push(ret) {
                Ok(()) => self.pc = nnn,
                Err(e) => return Err(e),
            }
        } else if g == 3 {
            if self.v_reg[x] == nn {
                self.pc = self.pc.wrapping_add(2);
            }
        } else if g == 4 {
            if self.v_reg[x] != nn {
                self.pc = self.pc.wrapping_add(2);
            }
        } else if g == 5 {
            if n != 0 {
                return Err(EmuError::DecodeError(op));
            }
            if self.v_reg[x] == self.v_reg[y] {
                self.pc = self.pc.wrapping_add(2);
            }
        } else if g == 6 {
            self.v_reg[x] = nn;
        } else if g == 7 {
            let sum = self.v_reg[x].wrapping_add(nn);
            self.v_reg[x] = sum;
        } else if g == 8 {
            return self.exec_alu(op);
        } else if g == 9 {
            if n != 0 {
                return Err(EmuError::DecodeError(op));
            }
            if self.v_reg[x] != self.v_reg[y] {
                self.pc = self.pc.wrapping_add(2);
            }
        } else if g == 0xA {
            self.i_reg = nnn;
        } else if g == 0xB {
            self.pc = nnn + self.v_reg[0] as u16;
        } else if g == 0xC {
            self.v_reg[x] = rnd & nn;
        } else if g == 0xD {
            return self.draw(op);
        } else if g == 0xE {
            return self.exec_key_skip(op);
        } else {
            return self.exec_misc(op);
        }
        Ok(())
    }

    /// One instruction cycle: fetch, then execute. The random byte that
    /// `C,X,NN` uses is drawn only for that instruction, so every other
    /// instruction has a single outcome.
    pub fn tick(&mut self) -> (r: Result<(), EmuError>)
        ensures
            exists|rnd: u8| tick_result(old(self)@, rnd, final(self)@, r),
            !uses_random(word_at(old(self)@.ram, old(self).pc as int)) ==> tick_result(
                old(self)@,
                0,
                final(self)@,
                r,
            ),
    {
        let op = match self.fetch() {
            Ok(op) => op,
            Err(e) => {
                assert(tick_result(old(self)@, 0, self@, Err(e)));
                return Err(e);
            },
        };
        let rnd: u8 = if (op & 0xF000) >> 12 == 0xC { random_byte() } else { 0 };
        let r = self.execute(op, rnd);
        assert(tick_result(old(self)@, rnd, self@, r));
        r
    }
}

} // verus!
