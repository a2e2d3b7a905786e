use vstd::prelude::*;
use crate::display::{collides, drawn, valid_pixels, visible_rows, DisplayView, PIXELS};
use crate::instruction::{nn_of, nnn_of, n_of, op_code_of, x_of, y_of};
use crate::memory::{spliced, MEMORY_SIZE};
use crate::memory::word_at;
use crate::timer::{advance, TimerView};

verus! {

/// Where the hexadecimal glyphs start in memory.
pub const FONT_MEMORY_START: usize = 0x50;

/// Where a program image is loaded, and where execution starts.
pub const ROM_START: usize = 0x200;

/// Bytes in one glyph of the font.
pub const GLYPH_SIZE: usize = 5;

/// The register that takes carry, borrow, shifted-out and collision flags.
pub const FLAG: usize = 15;

/// What the interpreter did in one step.
#[derive(Clone, Copy, Debug, PartialEq, Eq, Structural)]
pub enum Step {
    /// An instruction ran, or a key that was awaited arrived.
    Executed,
    /// The interpreter waits for a key, with the program counter held at the
    /// Fx0A word that waits.
    AwaitingKey,
    /// The word was no known instruction; only the fetch took effect.
    UnknownInstruction(u16),
}

/// A fatal condition: the run cannot go on.
#[derive(Clone, Copy, Debug, PartialEq, Eq, Structural)]
pub enum Fault {
    /// A return with no call to return from.
    StackUnderflow,
    /// An access at or from this address would leave memory.
    AddressOutOfRange(usize),
    /// A program image of this many bytes does not fit above its load address.
    ProgramTooLarge(usize),
}

/// The whole state of the interpreter.
pub struct Machine {
    pub memory: Seq<u8>,
    pub display: DisplayView,
    pub stack: Seq<usize>,
    pub delay: TimerView,
    pub sound: TimerView,
    pub pc: int,
    pub index: int,
    pub registers: Seq<u8>,
    /// The register that takes the next key, while the interpreter waits for one.
    pub key_wait: Option<int>,
    /// Whether the timers count down while the interpreter waits for a key.
    pub timers_during_key_wait: bool,
}

/// The bounds that every state of the interpreter keeps.
pub open spec fn valid(m: Machine) -> bool {
    &&& m.memory.len() == MEMORY_SIZE
    &&& valid_pixels(m.display.pixels)
    &&& m.registers.len() == 16
    &&& 0 <= m.pc <= MEMORY_SIZE + 2
    &&& 0 <= m.index <= usize::MAX
    &&& forall|i: int| 0 <= i < m.stack.len() ==> #[trigger] m.stack[i] <= MEMORY_SIZE
    &&& m.key_wait matches Some(x) ==> 0 <= x < 16
    &&& m.key_wait is Some ==> m.pc + 2 <= MEMORY_SIZE
}

pub open spec fn with_reg(m: Machine, x: int, v: u8) -> Machine {
    Machine { registers: m.registers.update(x, v), ..m }
}

/// Sets the flag register first, then register `x` from the registers as
/// they are after that.
pub open spec fn with_flag_then(m: Machine, flag: u8, x: int, f: spec_fn(u8) -> u8) -> Machine {
    let m1 = with_reg(m, FLAG as int, flag);
    with_reg(m1, x, f(m1.registers[x]))
}

/// Skips the next instruction when `cond` holds.
pub open spec fn skip_if(m: Machine, cond: bool) -> Machine {
    if cond {
        Machine { pc: m.pc + 2, ..m }
    } else {
        m
    }
}

/// Whether the key named by `v` is held; a value above 15 names no key.
pub open spec fn key_down(keys: Seq<bool>, v: u8) -> bool {
    v < 16 && keys[v as int]
}

/// The lowest key from `k` on that is held.
pub open spec fn first_key_from(keys: Seq<bool>, k: int) -> Option<int>
    decreases 16 - k,
{
    if k >= 16 || k < 0 {
        None
    } else if keys[k] {
        Some(k)
    } else {
        first_key_from(keys, k + 1)
    }
}

pub open spec fn executed(m: Machine) -> (Result<Step, Fault>, Machine) {
    (Ok(Step::Executed), m)
}

pub open spec fn unknown(m: Machine, w: u16) -> (Result<Step, Fault>, Machine) {
    (Ok(Step::UnknownInstruction(w)), m)
}

pub open spec fn fault(m: Machine, f: Fault) -> (Result<Step, Fault>, Machine) {
    (Err(f), m)
}

/// 8xyN: register arithmetic, selected by the bottom nibble.
pub open spec fn arith_spec(m: Machine, w: u16) -> (Result<Step, Fault>, Machine) {
    let x = x_of(w);
    let vx = m.registers[x];
    let vy = m.registers[y_of(w)];
    let n = n_of(w);
    if n == 0 {
        executed(with_reg(m, x, vy))
    } else if n == 1 {
        executed(with_reg(m, x, vx | vy))
    } else if n == 2 {
        executed(with_reg(m, x, vx & vy))
    } else if n == 3 {
        executed(with_reg(m, x, vx ^ vy))
    } else if n == 4 {
        let sum = vx + vy;
        executed(with_reg(with_reg(m, FLAG as int, if sum > 255 { 1 } else { 0 }), x, (sum % 256) as u8))
    } else if n == 5 {
        executed(with_reg(with_reg(m, FLAG as int, if vx > vy { 1 } else { 0 }), x, ((vx - vy) % 256) as u8))
    } else if n == 6 {
        executed(with_flag_then(m, vx % 2, x, |v: u8| v / 2))
    } else if n == 7 {
        executed(with_reg(with_reg(m, FLAG as int, if vy > vx { 1 } else { 0 }), x, ((vy - vx) % 256) as u8))
    } else if n == 0xE {
        executed(with_flag_then(m, vx / 128, x, |v: u8| ((v * 2) % 256) as u8))
    } else {
        unknown(m, w)
    }
}

/// Dxyn: XORs the n-byte sprite at the index register onto the display at
/// (V[x], V[y]) and puts the collision flag in the flag register.
pub open spec fn draw_spec(m: Machine, w: u16) -> (Result<Step, Fault>, Machine) {
    let x0 = m.registers[x_of(w)] as int % 64;
    let y0 = m.registers[y_of(w)] as int % 32;
    let n = n_of(w);
    if m.index + visible_rows(y0, n) <= MEMORY_SIZE {
        let hit = collides(m.display.pixels, m.memory, m.index, x0, y0, n);
        let shown = DisplayView { pixels: drawn(m.display.pixels, m.memory, m.index, x0, y0, n), dirty: true };
        executed(with_reg(Machine { display: shown, ..m }, FLAG as int, if hit { 1 } else { 0 }))
    } else {
        fault(m, Fault::AddressOutOfRange(m.index as usize))
    }
}

/// The three decimal digits of `v`, most significant first, written at `at`.
pub open spec fn bcd_written(mem: Seq<u8>, at: int, v: u8) -> Seq<u8> {
    mem.update(at, v / 100).update(at + 1, (v / 10) % 10).update(at + 2, v % 10)
}

/// FxNN but Fx0A: timers, index register, font, decimal digits and register
/// blocks, selected by the bottom byte.
pub open spec fn misc_spec(m: Machine, w: u16) -> (Result<Step, Fault>, Machine) {
    let x = x_of(w);
    let vx = m.registers[x];
    let nn = nn_of(w);
    if nn == 0x07 {
        executed(with_reg(m, x, m.delay.count))
    } else if nn == 0x15 {
        executed(Machine { delay: TimerView { count: vx, pending: m.delay.pending }, ..m })
    } else if nn == 0x18 {
        executed(Machine { sound: TimerView { count: vx, pending: m.sound.pending }, ..m })
    } else if nn == 0x1E {
        if m.index + vx <= usize::MAX {
            executed(Machine { index: m.index + vx, ..m })
        } else {
            fault(m, Fault::AddressOutOfRange(m.index as usize))
        }
    } else if nn == 0x29 {
        executed(Machine { index: FONT_MEMORY_START + GLYPH_SIZE * vx, ..m })
    } else if nn == 0x33 {
        if m.index + 2 < MEMORY_SIZE {
            executed(Machine { memory: bcd_written(m.memory, m.index, vx), ..m })
        } else {
            fault(m, Fault::AddressOutOfRange(m.index as usize))
        }
    } else if nn == 0x55 {
        if m.index + x < MEMORY_SIZE {
            executed(Machine { memory: spliced(m.memory, m.index, m.registers.subrange(0, x + 1)), ..m })
        } else {
            fault(m, Fault::AddressOutOfRange(m.index as usize))
        }
    } else if nn == 0x65 {
        if m.index + x < MEMORY_SIZE {
            executed(Machine { registers: spliced(m.registers, 0, m.memory.subrange(m.index, m.index + x + 1)), ..m })
        } else {
            fault(m, Fault::AddressOutOfRange(m.index as usize))
        }
    } else {
        unknown(m, w)
    }
}

/// Fx0A: the lowest held key goes to V[x] at once; with none held, the
/// program counter goes back to the Fx0A word and stays there, waiting,
/// until a later frame takes a key.
pub open spec fn key_wait_spec(m: Machine, x: int, keys: Seq<bool>) -> (Result<Step, Fault>, Machine) {
    match first_key_from(keys, 0) {
        Some(k) => executed(with_reg(m, x, k as u8)),
        None => (Ok(Step::AwaitingKey), Machine { pc: m.pc - 2, key_wait: Some(x), ..m }),
    }
}

/// The effect of executing the word `w`, fetched already, with `keys` held
/// and `random` as the random byte: the outcome and the next state. A fault
/// leaves the state as it was.
pub open spec fn execute_spec(m: Machine, w: u16, keys: Seq<bool>, random: u8) -> (Result<Step, Fault>, Machine) {
    let op = op_code_of(w);
    let x = x_of(w);
    let vx = m.registers[x];
    let vy = m.registers[y_of(w)];
    let nn = nn_of(w) as u8;
    let nnn = nnn_of(w);
    if op == 0x0 {
        if n_of(w) == 0x0 {
            executed(Machine { display: DisplayView { pixels: Seq::new(PIXELS as nat, |p: int| 0u8), dirty: true }, ..m })
        } else if n_of(w) == 0xE {
            if m.stack.len() == 0 {
                fault(m, Fault::StackUnderflow)
            } else {
                executed(Machine { pc: m.stack.last() as int, stack: m.stack.drop_last(), ..m })
            }
        } else {
            unknown(m, w)
        }
    } else if op == 0x1 {
        executed(Machine { pc: nnn, ..m })
    } else if op == 0x2 {
        executed(Machine { pc: nnn, stack: m.stack.push(m.pc as usize), ..m })
    } else if op == 0x3 {
        executed(skip_if(m, vx == nn))
    } else if op == 0x4 {
        executed(skip_if(m, vx != nn))
    } else if op == 0x5 {
        executed(skip_if(m, vx == vy))
    } else if op == 0x6 {
        executed(with_reg(m, x, nn))
    } else if op == 0x7 {
        executed(with_reg(m, x, ((vx + nn) % 256) as u8))
    } else if op == 0x8 {
        arith_spec(m, w)
    } else if op == 0x9 {
        executed(skip_if(m, vx != vy))
    } else if op == 0xA {
        executed(Machine { index: nnn, ..m })
    } else if op == 0xC {
        executed(with_reg(m, x, nn & random))
    } else if op == 0xD {
        draw_spec(m, w)
    } else if op == 0xE {
        if n_of(w) == 0xE {
            executed(skip_if(m, key_down(keys, vx)))
        } else if n_of(w) == 0x1 {
            executed(skip_if(m, !key_down(keys, vx)))
        } else {
            unknown(m, w)
        }
    } else if op == 0xF {
        if nn_of(w) == 0x0A {
            key_wait_spec(m, x, keys)
        } else {
            misc_spec(m, w)
        }
    } else {
        unknown(m, w)
    }
}

/// The state after `dt_nanos` nanoseconds of timer time, under the policy
/// for timers during a key wait.
pub open spec fn timers_advanced(m: Machine, dt_nanos: u64) -> Machine {
    if m.key_wait is Some && !m.timers_during_key_wait {
        m
    } else {
        Machine { delay: advance(m.delay, dt_nanos), sound: advance(m.sound, dt_nanos), ..m }
    }
}

/// One frame of the interpreter: the timers advance; then, while a key is
/// awaited, the lowest held key (if any) goes to the waiting register and the
/// program counter moves past the Fx0A word that waited for it;
/// otherwise the word at the program counter is fetched, the program counter
/// moves past it, and the word is executed.
pub open spec fn step_spec(m: Machine, dt_nanos: u64, keys: Seq<bool>, random: u8) -> (Result<Step, Fault>, Machine) {
    let t = timers_advanced(m, dt_nanos);
    match t.key_wait {
        Some(x) => match first_key_from(keys, 0) {
            Some(k) => executed(Machine { pc: t.pc + 2, key_wait: None, ..with_reg(t, x, k as u8) }),
            None => (Ok(Step::AwaitingKey), t),
        },
        None => if t.pc + 1 < MEMORY_SIZE {
            execute_spec(Machine { pc: t.pc + 2, ..t }, word_at(t.memory, t.pc) as u16, keys, random)
        } else {
            fault(t, Fault::AddressOutOfRange(t.pc as usize))
        },
    }
}

} // verus!
