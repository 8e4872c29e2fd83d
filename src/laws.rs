use vstd::prelude::*;
use crate::machine::{
    cell, collides, covers, drawn, execute_spec, fetch_spec, fits, lemma_operands, lemma_sprite_target,
    loaded, op_group, op_n, op_x, op_y, reset_spec, sprite_bit, tick_result, timer_step, word_at,
    EmuError, MachineView, NUM_KEYS, RAM_SIZE, SCREEN_CELLS, SCREEN_HEIGHT, SCREEN_WIDTH,
    START_ADDR,
};

verus! {

/// Whether an instruction word matches a row of the instruction table.
pub open spec fn is_known(op: u16) -> bool {
    let g = op_group(op);
    let x = op_x(op);
    let y = op_y(op);
    let n = op_n(op);
    let tail = op & 0x00FF;
    ||| g == 0 && x == 0 && y == 0 && n == 0
    ||| g == 0 && x == 0 && y == 0xE && (n == 0 || n == 0xE)
    ||| 1 <= g <= 4
    ||| (g == 5 || g == 9) && n == 0
    ||| 6 <= g <= 7
    ||| g == 8 && (n <= 7 || n == 0xE)
    ||| 0xA <= g <= 0xD
    ||| g == 0xE && ((y == 9 && n == 0xE) || (y == 0xA && n == 1))
    ||| g == 0xF && (tail == 0x07 || tail == 0x0A || tail == 0x15 || tail == 0x18 || tail == 0x1E
        || tail == 0x29 || tail == 0x33 || tail == 0x55 || tail == 0x65)
}

/// An instruction word is refused as undecodable exactly when it matches no
/// row of the instruction table, whatever the state and the random byte.
pub proof fn lemma_decode_error_iff_unknown(m: MachineView, op: u16, rnd: u8)
    ensures
        (execute_spec(m, op, rnd) == Err::<MachineView, EmuError>(EmuError::DecodeError(op)))
            <==> !is_known(op),
{
    lemma_operands(op);
}

/// Only `C,X,NN` reads the random byte: on any other word two random bytes
/// give the same outcome.
pub proof fn lemma_only_random_op_reads_rnd(m: MachineView, op: u16, r1: u8, r2: u8)
    requires
        op_group(op) != 0xC,
    ensures
        execute_spec(m, op, r1) == execute_spec(m, op, r2),
{
}

/// Resetting twice gives the same state as resetting once.
pub proof fn lemma_reset_idempotent(m: MachineView)
    ensures
        reset_spec(reset_spec(m)) == reset_spec(m),
{
}

/// After a load, the bytes from the load address on are the program, and
/// every other byte of memory is as it was.
pub proof fn lemma_load_round_trip(ram: Seq<u8>, data: Seq<u8>)
    requires
        ram.len() == RAM_SIZE,
        fits(data.len()),
    ensures
        loaded(ram, data).len() == RAM_SIZE,
        loaded(ram, data).subrange(START_ADDR as int, START_ADDR + data.len()) == data,
        forall|a: int|
            0 <= a < RAM_SIZE && !(START_ADDR <= a < START_ADDR + data.len()) ==> #[trigger] loaded(
                ram,
                data,
            )[a] == ram[a],
{
    assert(loaded(ram, data).subrange(START_ADDR as int, START_ADDR + data.len()) =~= data);
}

/// A sprite wraps around the screen's edges: column `c` of row `r` of an
/// `n`-row sprite drawn at `(vx, vy)` lands on column `(vx + c) mod 64`,
/// row `(vy + r) mod 32`, and that pixel flips exactly when the bit is set.
pub proof fn lemma_draw_wraps(m: MachineView, vx: u8, vy: u8, n: int, c: int, r: int)
    requires
        m.screen.len() == SCREEN_CELLS,
        n < 16,
        0 <= c < 8,
        0 <= r < n,
    ensures
        ({
            let p = cell((vx + c) % (SCREEN_WIDTH as int), (vy + r) % (SCREEN_HEIGHT as int));
            &&& covers(m, vx, vy, n, p) == sprite_bit(m.ram[m.i + r], c)
            &&& drawn(m, vx, vy, n)[p] == (m.screen[p] != sprite_bit(m.ram[m.i + r], c))
        }),
{
    lemma_sprite_target(vx, vy, c, r);
}

/// Drawing a sprite a second time at the same place restores the
/// framebuffer, and that second draw reports a collision exactly when the
/// sprite covers some pixel that was off before the first draw.
pub proof fn lemma_draw_twice(m: MachineView, vx: u8, vy: u8, n: int)
    requires
        m.screen.len() == SCREEN_CELLS,
    ensures
        ({
            let once = MachineView { screen: drawn(m, vx, vy, n), ..m };
            &&& drawn(once, vx, vy, n) == m.screen
            &&& collides(once, vx, vy, n) == exists|p: int|
                0 <= p < SCREEN_CELLS && #[trigger] covers(m, vx, vy, n, p) && !m.screen[p]
        }),
{
    let once = MachineView { screen: drawn(m, vx, vy, n), ..m };
    assert(drawn(once, vx, vy, n) =~= m.screen);
    assert forall|p: int| #[trigger] covers(once, vx, vy, n, p) == covers(m, vx, vy, n, p) by {}
}

/// A timer after `k` decrements.
pub open spec fn timer_after(t: u8, k: nat) -> u8
    decreases k,
{
    if k == 0 { t } else { timer_step(timer_after(t, (k - 1) as nat)) }
}

/// Repeated decrements stop at zero: after `k` of them a timer holds
/// `t - k`, or zero once `k` reaches `t`.
pub proof fn lemma_timer_floor(t: u8, k: nat)
    ensures
        timer_after(t, k) == (if k >= t { 0 } else { t - k }),
    decreases k,
{
    if k > 0 {
        lemma_timer_floor(t, (k - 1) as nat);
    }
}

/// A key wait with no key pressed is replayed: the cycle succeeds, the
/// program counter ends where it started, and only the recorded
/// instruction word changes.
pub proof fn lemma_key_wait_stalls(m: MachineView, rnd: u8, post: MachineView, r: Result<(), EmuError>)
    requires
        m.pc + 1 < RAM_SIZE,
        op_group(word_at(m.ram, m.pc as int)) == 0xF,
        word_at(m.ram, m.pc as int) & 0x00FF == 0x0A,
        forall|k: int| 0 <= k < NUM_KEYS ==> !#[trigger] m.keys[k],
        tick_result(m, rnd, post, r),
    ensures
        r is Ok,
        post.pc == m.pc,
        post == (MachineView { op: word_at(m.ram, m.pc as int), ..m }),
{
    let w = word_at(m.ram, m.pc as int);
    lemma_operands(w);
    let f = fetch_spec(m)->Ok_0;
    assert(!exists|k: int| 0 <= k < NUM_KEYS && #[trigger] f.keys[k]);
}

} // verus!
