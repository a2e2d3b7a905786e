use vstd::prelude::*;
use crate::display::{collides, drawn, erases, visible_rows, xor_pixel, PIXELS, WIDTH};
use crate::instruction::{n_of, nn_of, op_code_of, x_of, y_of};
use crate::machine::{first_key_from, execute_spec, step_spec, timers_advanced, valid, Fault, Machine, Step, FLAG};
use crate::memory::{word_at, MEMORY_SIZE};
use vstd::arithmetic::div_mod::lemma_fundamental_div_mod_converse;

verus! {

/// The word with the given four nibbles, most significant first.
pub open spec fn word(a: int, b: int, c: int, d: int) -> u16 {
    (a * 0x1000 + b * 0x100 + c * 0x10 + d) as u16
}

proof fn lemma_word_fields(a: int, b: int, c: int, d: int)
    requires
        0 <= a < 16,
        0 <= b < 16,
        0 <= c < 16,
        0 <= d < 16,
    ensures
        op_code_of(word(a, b, c, d)) == a,
        x_of(word(a, b, c, d)) == b,
        y_of(word(a, b, c, d)) == c,
        n_of(word(a, b, c, d)) == d,
        nn_of(word(a, b, c, d)) == c * 0x10 + d,
{
    let w = a * 0x1000 + b * 0x100 + c * 0x10 + d;
    assert(word(a, b, c, d) as int == w);
    lemma_fundamental_div_mod_converse(w, 0x1000, a, b * 0x100 + c * 0x10 + d);
    lemma_fundamental_div_mod_converse(w, 0x100, a * 0x10 + b, c * 0x10 + d);
    lemma_fundamental_div_mod_converse(a * 0x10 + b, 0x10, a, b);
    lemma_fundamental_div_mod_converse(w, 0x10, a * 0x100 + b * 0x10 + c, d);
    lemma_fundamental_div_mod_converse(a * 0x100 + b * 0x10 + c, 0x10, a * 0x10 + b, c);
}

/// Setting a register to `nn` and then adding zero to it leaves `nn` there.
pub proof fn lemma_add_zero_after_set(m: Machine, x: int, nn: u8, keys: Seq<bool>, r1: u8, r2: u8)
    requires
        valid(m),
        0 <= x < 16,
    ensures
        ({
            let (o1, m1) = execute_spec(m, word(6, x, nn as int / 16, nn as int % 16), keys, r1);
            let (o2, m2) = execute_spec(m1, word(7, x, 0, 0), keys, r2);
            &&& o1 == Ok::<Step, Fault>(Step::Executed)
            &&& o2 == Ok::<Step, Fault>(Step::Executed)
            &&& m2.registers[x] == nn
        }),
{
    lemma_word_fields(6, x, nn as int / 16, nn as int % 16);
    lemma_word_fields(7, x, 0, 0);
}

/// Adding V[y] to V[x] (x not the flag register) sets the flag exactly when
/// the sum of the old values exceeds 255, and leaves the sum modulo 256 in V[x].
pub proof fn lemma_add_carry(m: Machine, x: int, y: int, keys: Seq<bool>, random: u8)
    requires
        valid(m),
        0 <= x < 16,
        0 <= y < 16,
        x != FLAG,
    ensures
        ({
            let (o, m1) = execute_spec(m, word(8, x, y, 4), keys, random);
            let sum = m.registers[x] + m.registers[y];
            &&& o == Ok::<Step, Fault>(Step::Executed)
            &&& (m1.registers[FLAG as int] == 1) == (sum > 255)
            &&& m1.registers[FLAG as int] <= 1
            &&& m1.registers[x] == sum % 256
        }),
{
    lemma_word_fields(8, x, y, 4);
}

/// Subtracting V[y] from V[x] (x not the flag register) sets the flag exactly
/// when the old V[x] exceeds the old V[y], and leaves the wrapped difference
/// in V[x].
pub proof fn lemma_subtract_borrow(m: Machine, x: int, y: int, keys: Seq<bool>, random: u8)
    requires
        valid(m),
        0 <= x < 16,
        0 <= y < 16,
        x != FLAG,
    ensures
        ({
            let (o, m1) = execute_spec(m, word(8, x, y, 5), keys, random);
            let vx = m.registers[x];
            let vy = m.registers[y];
            &&& o == Ok::<Step, Fault>(Step::Executed)
            &&& (m1.registers[FLAG as int] == 1) == (vx > vy)
            &&& m1.registers[FLAG as int] <= 1
            &&& m1.registers[x] == (vx - vy) % 256
        }),
{
    lemma_word_fields(8, x, y, 5);
}

/// A call at `a` to address `nnn`, followed by any run that leaves the stack
/// as the call left it and then reaches a return, resumes at `a + 2`.
pub proof fn lemma_call_return(
    m: Machine,
    nnn: int,
    later: Machine,
    dt1: u64,
    dt2: u64,
    keys: Seq<bool>,
    r1: u8,
    r2: u8,
)
    requires
        valid(m),
        m.key_wait is None,
        m.pc + 1 < MEMORY_SIZE,
        0 <= nnn < 0x1000,
        word_at(m.memory, m.pc) == 0x2000 + nnn,
        valid(later),
        later.key_wait is None,
        later.pc + 1 < MEMORY_SIZE,
        word_at(later.memory, later.pc) == 0x00EE,
        later.stack == step_spec(m, dt1, keys, r1).1.stack,
    ensures
        step_spec(m, dt1, keys, r1).0 == Ok::<Step, Fault>(Step::Executed),
        step_spec(m, dt1, keys, r1).1.pc == nnn,
        step_spec(later, dt2, keys, r2).0 == Ok::<Step, Fault>(Step::Executed),
        step_spec(later, dt2, keys, r2).1.pc == m.pc + 2,
        step_spec(later, dt2, keys, r2).1.stack == m.stack,
{
    lemma_word_fields(2, nnn / 0x100, (nnn / 0x10) % 0x10, nnn % 0x10);
    lemma_word_fields(0, 0, 0xE, 0xE);
    assert(word(2, nnn / 0x100, (nnn / 0x10) % 0x10, nnn % 0x10) == (0x2000 + nnn) as u16);
    assert(word(0, 0, 0xE, 0xE) == 0x00EEu16);
    assert(m.stack.push((m.pc + 2) as usize).drop_last() =~= m.stack);
}

/// Fx33 writes the decimal digits of V[x]: read back as a number they give
/// V[x], and each is below ten.
pub proof fn lemma_decimal_digits(m: Machine, x: int, keys: Seq<bool>, random: u8)
    requires
        valid(m),
        0 <= x < 16,
        m.index + 2 < MEMORY_SIZE,
    ensures
        ({
            let (o, m1) = execute_spec(m, word(0xF, x, 3, 3), keys, random);
            let i = m.index;
            &&& o == Ok::<Step, Fault>(Step::Executed)
            &&& m1.memory[i] * 100 + m1.memory[i + 1] * 10 + m1.memory[i + 2] == m.registers[x]
            &&& m1.memory[i] < 10
            &&& m1.memory[i + 1] < 10
            &&& m1.memory[i + 2] < 10
        }),
{
    lemma_word_fields(0xF, x, 3, 3);
}

/// Drawing a sprite twice at the same place on a blank display (with neither
/// coordinate in the flag register) reports no collision the first time,
/// leaves the display blank again, and reports a collision the second time
/// exactly when the first draw set some pixel.
pub proof fn lemma_draw_twice(m: Machine, x: int, y: int, n: int, keys: Seq<bool>, r1: u8, r2: u8)
    requires
        valid(m),
        0 <= x < 16,
        0 <= y < 16,
        0 <= n < 16,
        x != FLAG,
        y != FLAG,
        m.display.pixels == Seq::new(PIXELS as nat, |p: int| 0u8),
        m.index + visible_rows(m.registers[y] as int % 32, n) <= MEMORY_SIZE,
    ensures
        ({
            let (o1, m1) = execute_spec(m, word(0xD, x, y, n), keys, r1);
            let (o2, m2) = execute_spec(m1, word(0xD, x, y, n), keys, r2);
            &&& o1 == Ok::<Step, Fault>(Step::Executed)
            &&& o2 == Ok::<Step, Fault>(Step::Executed)
            &&& m1.registers[FLAG as int] == 0
            &&& m2.display.pixels == m.display.pixels
            &&& (m2.registers[FLAG as int] == 1) == (exists|p: int| 0 <= p < PIXELS && m1.display.pixels[p] == 1)
            &&& m2.registers[FLAG as int] <= 1
        }),
{
    lemma_word_fields(0xD, x, y, n);
    let w = word(0xD, x, y, n);
    let x0 = m.registers[x] as int % 64;
    let y0 = m.registers[y] as int % 32;
    let zero = m.display.pixels;
    let once = drawn(zero, m.memory, m.index, x0, y0, n);
    let m1 = execute_spec(m, w, keys, r1).1;
    assert(!collides(zero, m.memory, m.index, x0, y0, n));
    assert(m1.display.pixels == once);
    assert(m1.registers[x] == m.registers[x]);
    assert(m1.registers[y] == m.registers[y]);
    assert(drawn(once, m.memory, m.index, x0, y0, n) =~= zero);
    if exists|p: int| 0 <= p < PIXELS && once[p] == 1 {
        let p = choose|p: int| 0 <= p < PIXELS && once[p] == 1;
        assert(erases(once, m.memory, m.index, x0, y0, n, p));
    }
    if collides(once, m.memory, m.index, x0, y0, n) {
        let p = choose|p: int| 0 <= p < PIXELS && #[trigger] erases(once, m.memory, m.index, x0, y0, n, p);
        assert(once[p] == 1);
    }
}

/// A sprite whose left edge is at column 60 leaves every pixel left of that
/// column alone (nothing wraps round to column 0), and columns 60 to 63 take
/// the four leftmost bits of each of its rows.
pub proof fn lemma_clip_at_right_edge(m: Machine, x: int, y: int, n: int, keys: Seq<bool>, random: u8)
    requires
        valid(m),
        0 <= x < 16,
        0 <= y < 16,
        0 <= n < 16,
        m.registers[x] as int % 64 == 60,
        m.index + visible_rows(m.registers[y] as int % 32, n) <= MEMORY_SIZE,
    ensures
        ({
            let (o, m1) = execute_spec(m, word(0xD, x, y, n), keys, random);
            let y0 = m.registers[y] as int % 32;
            &&& o == Ok::<Step, Fault>(Step::Executed)
            &&& forall|p: int|
                0 <= p < PIXELS && (p % WIDTH as int) < 60 ==> #[trigger] m1.display.pixels[p] == m.display.pixels[p]
            &&& forall|p: int|
                0 <= p < PIXELS && (p % WIDTH as int) >= 60 && y0 <= (p / WIDTH as int) && (p / WIDTH as int)
                    < y0 + n ==> #[trigger] m1.display.pixels[p] == xor_pixel(
                    m.display.pixels[p],
                    (m.memory[m.index + (p / WIDTH as int - y0)] >> ((7 - (p % WIDTH as int - 60)) as u8)) & 1u8,
                )
        }),
{
    lemma_word_fields(0xD, x, y, n);
}

/// An instruction that is not known changes nothing.
pub proof fn lemma_unknown_changes_nothing(m: Machine, w: u16, keys: Seq<bool>, random: u8)
    ensures
        execute_spec(m, w, keys, random).0 is Ok && execute_spec(m, w, keys, random).0->Ok_0 is UnknownInstruction
            ==> execute_spec(m, w, keys, random) == (Ok::<Step, Fault>(Step::UnknownInstruction(w)), m),
{
}

/// Fetching the word FFFF, which is no instruction, only moves the program
/// counter past it (the timers advance as in every frame); the run goes on.
pub proof fn lemma_ffff_only_advances(m: Machine, dt_nanos: u64, keys: Seq<bool>, random: u8)
    requires
        valid(m),
        m.key_wait is None,
        m.pc + 1 < MEMORY_SIZE,
        word_at(m.memory, m.pc) == 0xFFFF,
    ensures
        step_spec(m, dt_nanos, keys, random) == (
            Ok::<Step, Fault>(Step::UnknownInstruction(0xFFFF)),
            Machine { pc: m.pc + 2, ..timers_advanced(m, dt_nanos) },
        ),
{
    lemma_word_fields(0xF, 0xF, 0xF, 0xF);
    assert(word(0xF, 0xF, 0xF, 0xF) == 0xFFFFu16);
}

/// Fx0A at `p` with no key held keeps the program counter at `p` and the
/// registers as they were; the frame that then sees key `k` puts `k` in V[x]
/// and moves the program counter to `p + 2`.
pub proof fn lemma_wait_for_key(
    m: Machine,
    x: int,
    k: int,
    dt1: u64,
    dt2: u64,
    none_held: Seq<bool>,
    keys: Seq<bool>,
    r1: u8,
    r2: u8,
)
    requires
        valid(m),
        0 <= x < 16,
        m.key_wait is None,
        m.pc + 1 < MEMORY_SIZE,
        word_at(m.memory, m.pc) == word(0xF, x, 0, 0xA),
        first_key_from(none_held, 0) is None,
        first_key_from(keys, 0) == Some(k),
    ensures
        ({
            let (o1, m1) = step_spec(m, dt1, none_held, r1);
            let (o2, m2) = step_spec(m1, dt2, keys, r2);
            &&& o1 == Ok::<Step, Fault>(Step::AwaitingKey)
            &&& m1.pc == m.pc
            &&& m1.registers == m.registers
            &&& o2 == Ok::<Step, Fault>(Step::Executed)
            &&& m2.registers == m.registers.update(x, k as u8)
            &&& m2.pc == m.pc + 2
            &&& m2.key_wait is None
        }),
{
    lemma_word_fields(0xF, x, 0, 0xA);
}

} // verus!
