use vstd::prelude::*;
use crate::display::{Display, PIXELS};
use crate::instruction::{nn_of, nnn_of, n_of, x_of, y_of, Instruction};
use crate::machine::{
    arith_spec, bcd_written, draw_spec, execute_spec, first_key_from, key_down, key_wait_spec, misc_spec, skip_if,
    step_spec, valid, with_reg, Fault, Machine, Step, FLAG, FONT_MEMORY_START, GLYPH_SIZE,
    ROM_START,
};
use crate::memory::{spliced, Memory, MEMORY_SIZE};
use crate::stack::Stack;
use crate::timer::{Timer, TimerView};

verus! {

/// The glyphs of the hexadecimal digits 0 to F, five rows of one byte each.
pub open spec fn font_glyphs() -> Seq<u8> {
    seq![
        0xF0u8, 0x90, 0x90, 0x90, 0xF0, // 0
        0x20, 0x60, 0x20, 0x20, 0x70, // 1
        0xF0, 0x10, 0xF0, 0x80, 0xF0, // 2
        0xF0, 0x10, 0xF0, 0x10, 0xF0, // 3
        0x90, 0x90, 0xF0, 0x10, 0x10, // 4
        0xF0, 0x80, 0xF0, 0x10, 0xF0, // 5
        0xF0, 0x80, 0xF0, 0x90, 0xF0, // 6
        0xF0, 0x10, 0x20, 0x40, 0x40, // 7
        0xF0, 0x90, 0xF0, 0x90, 0xF0, // 8
        0xF0, 0x90, 0xF0, 0x10, 0xF0, // 9
        0xF0, 0x90, 0xF0, 0x90, 0x90, // A
        0xE0, 0x90, 0xE0, 0x90, 0xE0, // B
        0xF0, 0x80, 0x80, 0x80, 0xF0, // C
        0xE0, 0x90, 0x90, 0x90, 0xE0, // D
        0xF0, 0x80, 0xF0, 0x80, 0xF0, // E
        0xF0, 0x80, 0xF0, 0x80, 0x80, // F
    ]
}

fn font() -> (r: [u8; 80])
    ensures
        r@ == font_glyphs(),
{
    let r = [
        0xF0u8, 0x90, 0x90, 0x90, 0xF0, // 0
        0x20, 0x60, 0x20, 0x20, 0x70, // 1
        0xF0, 0x10, 0xF0, 0x80, 0xF0, // 2
        0xF0, 0x10, 0xF0, 0x10, 0xF0, // 3
        0x90, 0x90, 0xF0, 0x10, 0x10, // 4
        0xF0, 0x80, 0xF0, 0x10, 0xF0, // 5
        0xF0, 0x80, 0xF0, 0x90, 0xF0, // 6
        0xF0, 0x10, 0x20, 0x40, 0x40, // 7
        0xF0, 0x90, 0xF0, 0x90, 0xF0, // 8
        0xF0, 0x90, 0xF0, 0x10, 0xF0, // 9
        0xF0, 0x90, 0xF0, 0x90, 0x90, // A
        0xE0, 0x90, 0xE0, 0x90, 0xE0, // B
        0xF0, 0x80, 0x80, 0x80, 0xF0, // C
        0xE0, 0x90, 0x90, 0x90, 0xE0, // D
        0xF0, 0x80, 0xF0, 0x80, 0xF0, // E
        0xF0, 0x80, 0xF0, 0x80, 0x80, // F
    ];
    assert(r@ =~= font_glyphs());
    r
}

/// Relies on rand::random: a byte from the thread-local generator; any
/// value may come back.
#[verifier::external_body]
fn random_byte() -> (r: u8) {
    rand::random::<u8>()
}

/// The lowest key that is held, if any.
fn first_key_down(keys: &[bool; 16]) -> (r: Option<usize>)
    ensures
        first_key_from(keys@, 0) == match r {
            Some(k) => Some(k as int),
            None => None::<int>,
        },
        r matches Some(k) ==> k < 16,
{
    let mut k: usize = 0;
    while k < 16
        invariant
            k <= 16,
            first_key_from(keys@, 0) == first_key_from(keys@, k as int),
        decreases 16 - k,
    {
        if keys[k] {
            return Some(k);
        }
        k += 1;
    }
    None
}

/// The CHIP-8 interpreter: memory, display, call stack, two timers, program
/// counter, index register and sixteen general registers.
pub struct Computer {
    memory: Memory,
    display: Display,
    stack: Stack,
    delay_timer: Timer,
    sound_timer: Timer,
    program_counter: usize,
    index_register: usize,
    registers: [u8; 16],
    key_wait: Option<usize>,
    timers_during_key_wait: bool,
}

impl View for Computer {
    type V = Machine;

    closed spec fn view(&self) -> Machine {
        Machine {
            memory: self.memory@,
            display: self.display@,
            stack: self.stack@,
            delay: self.delay_timer@,
            sound: self.sound_timer@,
            pc: self.program_counter as int,
            index: self.index_register as int,
            registers: self.registers@,
            key_wait: match self.key_wait {
                Some(x) => Some(x as int),
                None => None,
            },
            timers_during_key_wait: self.timers_during_key_wait,
        }
    }
}

impl Computer {
    /// A machine with the font loaded, everything else zero, and the timers
    /// set to keep counting while a key is awaited.
    pub fn new() -> (r: Self)
        ensures
            valid(r@),
            r@.memory == spliced(Seq::new(MEMORY_SIZE as nat, |i: int| 0u8), FONT_MEMORY_START as int, font_glyphs()),
            r@.display.pixels == Seq::new(PIXELS as nat, |p: int| 0u8),
            !r@.display.dirty,
            r@.stack == Seq::<usize>::empty(),
            r@.delay == (TimerView { count: 0, pending: 0 }),
            r@.sound == (TimerView { count: 0, pending: 0 }),
            r@.pc == 0,
            r@.index == 0,
            r@.registers == Seq::new(16, |i: int| 0u8),
            r@.key_wait == None::<int>,
            r@.timers_during_key_wait,
    {
        let mut memory = Memory::new();
        let glyphs = font();
        proof {
            assert(memory@ =~= Seq::new(MEMORY_SIZE as nat, |i: int| 0u8));
        }
        memory.load(FONT_MEMORY_START, glyphs.as_slice());
        let r = Self {
            memory,
            display: Display::new(),
            stack: Stack::new(),
            delay_timer: Timer::new(),
            sound_timer: Timer::new(),
            program_counter: 0,
            index_register: 0,
            registers: [0u8; 16],
            key_wait: None,
            timers_during_key_wait: true,
        };
        assert(r@.registers =~= Seq::new(16, |i: int| 0u8));
        r
    }

    /// Copies a program image to memory at the load address and points the
    /// program counter there; an image too large to fit is refused and
    /// nothing changes.
    pub fn load_program(&mut self, data: &[u8]) -> (r: Result<(), Fault>)
        requires
            valid(old(self)@),
        ensures
            valid(final(self)@),
            data@.len() <= MEMORY_SIZE - ROM_START ==> r == Ok::<(), Fault>(()) && final(self)@ == (Machine {
                memory: spliced(old(self)@.memory, ROM_START as int, data@),
                pc: ROM_START as int,
                ..old(self)@
            }),
            data@.len() > MEMORY_SIZE - ROM_START ==> r == Err::<(), Fault>(Fault::ProgramTooLarge(data@.len() as usize))
                && final(self)@ == old(self)@,
    {
        if data.len() > MEMORY_SIZE - ROM_START {
            return Err(Fault::ProgramTooLarge(data.len()));
        }
        self.memory.load(ROM_START, data);
        self.program_counter = ROM_START;
        Ok(())
    }

    /// Executes one instruction that has been fetched already (the program
    /// counter stands just past it), with `keys` held and `random` as the
    /// byte that Cxnn draws, while no key is awaited. A fault leaves the state unchanged; an unknown
    /// instruction changes nothing.
    pub fn execute(&mut self, instruction: Instruction, keys: &[bool; 16], random: u8) -> (r: Result<Step, Fault>)
        requires
            valid(old(self)@),
            old(self)@.key_wait is None,
            2 <= old(self)@.pc <= MEMORY_SIZE,
        ensures
            valid(final(self)@),
            (r, final(self)@) == execute_spec(old(self)@, instruction.instruction, keys@, random),
    {
        let w = instruction.instruction;
        let opcode = instruction.op_code();
        match opcode {
            0x0 => {
                let lsb = instruction.n();
                match lsb {
                    0x0 => {
                        self.op_00e0_clear_screen();
                        Ok(Step::Executed)
                    },
                    0xE => self.op_00ee_return_from_subroutine(),
                    _ => Ok(Step::UnknownInstruction(w)),
                }
            },
            0x1 => {
                self.op_1nnn_jump(instruction);
                Ok(Step::Executed)
            },
            0x2 => {
                self.op_2nnn_call_subroutine(instruction);
                Ok(Step::Executed)
            },
            0x3 => {
                self.op_3xnn_skip_if_equal(instruction);
                Ok(Step::Executed)
            },
            0x4 => {
                self.op_4xnn_skip_if_not_equal(instruction);
                Ok(Step::Executed)
            },
            0x5 => {
                self.op_5xy0_skip_if_registers_equal(instruction);
                Ok(Step::Executed)
            },
            0x6 => {
                self.op_6xnn_set_register(instruction);
                Ok(Step::Executed)
            },
            0x7 => {
                self.op_7xnn_add_register(instruction);
                Ok(Step::Executed)
            },
            0x8 => {
                let lsb = instruction.n();
                match lsb {
                    0x0 => self.op_8xy0_set(instruction),
                    0x1 => self.op_8xy1_binary_or(instruction),
                    0x2 => self.op_8xy2_binary_and(instruction),
                    0x3 => self.op_8xy3_binary_xor(instruction),
                    0x4 => self.op_8xy4_add(instruction),
                    0x5 => self.op_8xy5_subtract(instruction),
                    0x6 => self.op_8xy6_shift(instruction),
                    0x7 => self.op_8xy7_subtract(instruction),
                    0xE => self.op_8xye_shift(instruction),
                    _ => return Ok(Step::UnknownInstruction(w)),
                }
                Ok(Step::Executed)
            },
            0x9 => {
                self.op_9xy0_skip_if_registers_not_equal(instruction);
                Ok(Step::Executed)
            },
            0xA => {
                self.op_annn_set_index_register(instruction);
                Ok(Step::Executed)
            },
            0xC => {
                self.op_cxnn_random(instruction, random);
                Ok(Step::Executed)
            },
            0xD => self.op_dxyn_display(instruction),
            0xE => {
                let lsb = instruction.n();
                match lsb {
                    0xE => self.op_ex9e_skip_if_key_down(instruction, keys),
                    0x1 => self.op_exa1_skip_if_key_not_down(instruction, keys),
                    _ => return Ok(Step::UnknownInstruction(w)),
                }
                Ok(Step::Executed)
            },
            0xF => {
                let lsb = instruction.nn();
                match lsb {
                    0x07 => {
                        self.op_fx07_timer(instruction);
                        Ok(Step::Executed)
                    },
                    0x15 => {
                        self.op_fx15_timer(instruction);
                        Ok(Step::Executed)
                    },
                    0x18 => {
                        self.op_fx18_timer(instruction);
                        Ok(Step::Executed)
                    },
                    0x1E => self.op_fx1e_index_register_add(instruction),
                    0x0A => self.op_fx0a_get_keyboard_input(instruction, keys),
                    0x29 => {
                        self.op_fx29_font_character(instruction);
                        Ok(Step::Executed)
                    },
                    0x33 => self.op_fx33_binary_coded_decimal_conversion(instruction),
                    0x55 => self.op_fx55_store_memory(instruction),
                    0x65 => self.op_fx65_load_memory(instruction),
                    _ => Ok(Step::UnknownInstruction(w)),
                }
            },
            _ => Ok(Step::UnknownInstruction(w)),
        }
    }

    /// One frame with `random` as the byte that Cxnn draws: the timers
    /// advance by `dt_nanos` nanoseconds (unless a key is awaited and the
    /// policy stops them), then a key that is awaited is taken, or one
    /// instruction is fetched and executed.
    pub fn step(&mut self, dt_nanos: u64, keys: &[bool; 16], random: u8) -> (r: Result<Step, Fault>)
        requires
            valid(old(self)@),
        ensures
            valid(final(self)@),
            (r, final(self)@) == step_spec(old(self)@, dt_nanos, keys@, random),
    {
        if self.key_wait.is_none() || self.timers_during_key_wait {
            self.delay_timer.update(dt_nanos);
            self.sound_timer.update(dt_nanos);
        }
        assert(self@.stack == old(self)@.stack);
        match self.key_wait {
            Some(x) => {
                match first_key_down(keys) {
                    Some(k) => {
                        self.registers[x] = k as u8;
                        self.key_wait = None;
                        self.program_counter = self.program_counter + 2;
                        assert(self@.stack == old(self)@.stack);
                        Ok(Step::Executed)
                    },
                    None => Ok(Step::AwaitingKey),
                }
            },
            None => {
                if self.program_counter >= MEMORY_SIZE - 1 {
                    return Err(Fault::AddressOutOfRange(self.program_counter));
                }
                let instruction = Instruction::new(self.memory.read_u16(self.program_counter));
                self.program_counter = self.program_counter + 2;
                self.execute(instruction, keys, random)
            },
        }
    }

    /// One frame: as `step`, with a byte drawn at random for Cxnn.
    pub fn update(&mut self, dt_nanos: u64, keys: &[bool; 16]) -> (r: Result<Step, Fault>)
        requires
            valid(old(self)@),
        ensures
            valid(final(self)@),
            exists|random: u8| (r, final(self)@) == step_spec(old(self)@, dt_nanos, keys@, random),
    {
        let random = random_byte();
        self.step(dt_nanos, keys, random)
    }

    /// Sets whether the timers keep counting while a key is awaited.
    pub fn set_timers_during_key_wait(&mut self, run: bool)
        ensures
            final(self)@ == (Machine { timers_during_key_wait: run, ..old(self)@ }),
    {
        self.timers_during_key_wait = run;
    }

    /// Whether the interpreter is waiting for a key.
    pub fn is_awaiting_key(&self) -> (r: bool)
        ensures
            r == self@.key_wait is Some,
    {
        self.key_wait.is_some()
    }

    pub fn register(&self, i: usize) -> (r: u8)
        requires
            i < 16,
        ensures
            r == self@.registers[i as int],
    {
        self.registers[i]
    }

    pub fn program_counter(&self) -> (r: usize)
        ensures
            r == self@.pc,
    {
        self.program_counter
    }

    pub fn index_register(&self) -> (r: usize)
        ensures
            r == self@.index,
    {
        self.index_register
    }

    /// How many return addresses the call stack holds.
    pub fn stack_depth(&self) -> (r: usize)
        ensures
            r == self@.stack.len(),
    {
        self.stack.len()
    }

    pub fn delay_count(&self) -> (r: u8)
        ensures
            r == self@.delay.count,
    {
        self.delay_timer.count()
    }

    pub fn sound_count(&self) -> (r: u8)
        ensures
            r == self@.sound.count,
    {
        self.sound_timer.count()
    }

    pub fn memory(&self) -> (r: &Memory)
        ensures
            r@ == self@.memory,
    {
        &self.memory
    }

    /// The display, for a host to present.
    pub fn display(&self) -> (r: &Display)
        ensures
            r@ == self@.display,
    {
        &self.display
    }

    /// Records that the display has been presented.
    pub fn mark_presented(&mut self)
        ensures
            final(self)@ == (Machine {
                display: crate::display::DisplayView { pixels: old(self)@.display.pixels, dirty: false },
                ..old(self)@
            }),
    {
        self.display.mark_presented();
    }

    /// 00E0: unsets every pixel and marks the display as changed.
    fn op_00e0_clear_screen(&mut self)
        requires
            valid(old(self)@),
        ensures
            final(self)@ == (Machine {
                display: crate::display::DisplayView { pixels: Seq::new(PIXELS as nat, |p: int| 0u8), dirty: true },
                ..old(self)@
            }),
    {
        self.display.clear();
    }

    /// 00EE: returns to the address on top of the call stack.
    fn op_00ee_return_from_subroutine(&mut self) -> (r: Result<Step, Fault>)
        requires
            valid(old(self)@),
        ensures
            old(self)@.stack.len() == 0 ==> r == Err::<Step, Fault>(Fault::StackUnderflow) && final(self)@ == old(self)@,
            old(self)@.stack.len() > 0 ==> r == Ok::<Step, Fault>(Step::Executed) && final(self)@ == (Machine {
                pc: old(self)@.stack.last() as int,
                stack: old(self)@.stack.drop_last(),
                ..old(self)@
            }),
    {
        if self.stack.len() == 0 {
            return Err(Fault::StackUnderflow);
        }
        self.program_counter = self.stack.pop();
        Ok(Step::Executed)
    }

    /// 1nnn: jumps to nnn.
    fn op_1nnn_jump(&mut self, instruction: Instruction)
        ensures
            final(self)@ == (Machine { pc: nnn_of(instruction.instruction), ..old(self)@ }),
    {
        let address = instruction.nnn();
        self.program_counter = address as usize;
    }

    /// 2nnn: pushes the program counter and jumps to nnn.
    fn op_2nnn_call_subroutine(&mut self, instruction: Instruction)
        ensures
            final(self)@ == (Machine {
                pc: nnn_of(instruction.instruction),
                stack: old(self)@.stack.push(old(self).program_counter),
                ..old(self)@
            }),
    {
        self.stack.push(self.program_counter);
        let address = instruction.nnn();
        self.program_counter = address as usize;
    }

    /// 3xnn: skips the next instruction if V[x] equals nn.
    fn op_3xnn_skip_if_equal(&mut self, instruction: Instruction)
        requires
            old(self)@.pc <= MEMORY_SIZE,
        ensures
            final(self)@ == skip_if(
                old(self)@,
                old(self)@.registers[x_of(instruction.instruction)] == nn_of(instruction.instruction) as u8,
            ),
    {
        let xi = instruction.x();
        let value = instruction.nn();
        if self.registers[xi] == value {
            self.program_counter += 2;
        }
    }

    /// 4xnn: skips the next instruction if V[x] differs from nn.
    fn op_4xnn_skip_if_not_equal(&mut self, instruction: Instruction)
        requires
            old(self)@.pc <= MEMORY_SIZE,
        ensures
            final(self)@ == skip_if(
                old(self)@,
                old(self)@.registers[x_of(instruction.instruction)] != nn_of(instruction.instruction) as u8,
            ),
    {
        let xi = instruction.x();
        let value = instruction.nn();
        if self.registers[xi] != value {
            self.program_counter += 2;
        }
    }

    /// 5xy0: skips the next instruction if V[x] equals V[y].
    fn op_5xy0_skip_if_registers_equal(&mut self, instruction: Instruction)
        requires
            old(self)@.pc <= MEMORY_SIZE,
        ensures
            final(self)@ == skip_if(
                old(self)@,
                old(self)@.registers[x_of(instruction.instruction)] == old(self)@.registers[y_of(
                    instruction.instruction,
                )],
            ),
    {
        let xy = instruction.xy();
        let xi = xy[0];
        let yi = xy[1];
        if self.registers[xi] == self.registers[yi] {
            self.program_counter += 2;
        }
    }

    /// 9xy0: skips the next instruction if V[x] differs from V[y].
    fn op_9xy0_skip_if_registers_not_equal(&mut self, instruction: Instruction)
        requires
            old(self)@.pc <= MEMORY_SIZE,
        ensures
            final(self)@ == skip_if(
                old(self)@,
                old(self)@.registers[x_of(instruction.instruction)] != old(self)@.registers[y_of(
                    instruction.instruction,
                )],
            ),
    {
        let xy = instruction.xy();
        let xi = xy[0];
        let yi = xy[1];
        if self.registers[xi] != self.registers[yi] {
            self.program_counter += 2;
        }
    }

    /// 6xnn: V[x] = nn.
    fn op_6xnn_set_register(&mut self, instruction: Instruction)
        ensures
            final(self)@ == with_reg(old(self)@, x_of(instruction.instruction), nn_of(instruction.instruction) as u8),
    {
        let register = instruction.x();
        let value = instruction.nn();
        self.registers[register] = value;
    }

    /// 7xnn: V[x] = V[x] + nn, wrapping, with no flag.
    fn op_7xnn_add_register(&mut self, instruction: Instruction)
        ensures
            final(self)@ == with_reg(
                old(self)@,
                x_of(instruction.instruction),
                ((old(self)@.registers[x_of(instruction.instruction)] + nn_of(instruction.instruction)) % 256) as u8,
            ),
    {
        let register = instruction.x();
        let value = instruction.nn();
        self.registers[register] = self.registers[register].wrapping_add(value);
    }

    /// 8xy0: V[x] = V[y].
    fn op_8xy0_set(&mut self, instruction: Instruction)
        requires
            n_of(instruction.instruction) == 0x0,
        ensures
            final(self)@ == arith_spec(old(self)@, instruction.instruction).1,
    {
        let xy = instruction.xy();
        let xi = xy[0];
        let yi = xy[1];
        self.registers[xi] = self.registers[yi];
    }

    /// 8xy1: V[x] = V[x] OR V[y].
    fn op_8xy1_binary_or(&mut self, instruction: Instruction)
        requires
            n_of(instruction.instruction) == 0x1,
        ensures
            final(self)@ == arith_spec(old(self)@, instruction.instruction).1,
    {
        let xy = instruction.xy();
        let xi = xy[0];
        let yi = xy[1];
        self.registers[xi] = self.registers[xi] | self.registers[yi];
    }

    /// 8xy2: V[x] = V[x] AND V[y].
    fn op_8xy2_binary_and(&mut self, instruction: Instruction)
        requires
            n_of(instruction.instruction) == 0x2,
        ensures
            final(self)@ == arith_spec(old(self)@, instruction.instruction).1,
    {
        let xy = instruction.xy();
        let xi = xy[0];
        let yi = xy[1];
        self.registers[xi] = self.registers[xi] & self.registers[yi];
    }

    /// 8xy3: V[x] = V[x] XOR V[y].
    fn op_8xy3_binary_xor(&mut self, instruction: Instruction)
        requires
            n_of(instruction.instruction) == 0x3,
        ensures
            final(self)@ == arith_spec(old(self)@, instruction.instruction).1,
    {
        let xy = instruction.xy();
        let xi = xy[0];
        let yi = xy[1];
        self.registers[xi] = self.registers[xi] ^ self.registers[yi];
    }

    /// 8xy4: V[x] = V[x] + V[y] modulo 256, with the carry in the flag register.
    fn op_8xy4_add(&mut self, instruction: Instruction)
        requires
            n_of(instruction.instruction) == 0x4,
        ensures
            final(self)@ == arith_spec(old(self)@, instruction.instruction).1,
    {
        let xy = instruction.xy();
        let xi = xy[0];
        let yi = xy[1];
        let sum: u16 = self.registers[xi] as u16 + self.registers[yi] as u16;
        if sum > 255 {
            self.registers[FLAG] = 1;
        } else {
            self.registers[FLAG] = 0;
        }
        self.registers[xi] = (sum % 256) as u8;
    }

    /// 8xy5: V[x] = V[x] - V[y], wrapping; the flag register is 1 when V[x]
    /// exceeded V[y].
    fn op_8xy5_subtract(&mut self, instruction: Instruction)
        requires
            n_of(instruction.instruction) == 0x5,
        ensures
            final(self)@ == arith_spec(old(self)@, instruction.instruction).1,
    {
        let xy = instruction.xy();
        let xi = xy[0];
        let yi = xy[1];
        let x = self.registers[xi];
        let y = self.registers[yi];
        if x > y {
            self.registers[FLAG] = 1;
        } else {
            self.registers[FLAG] = 0;
        }
        self.registers[xi] = x.wrapping_sub(y);
    }

    /// 8xy7: V[x] = V[y] - V[x], wrapping; the flag register is 1 when V[y]
    /// exceeded V[x].
    fn op_8xy7_subtract(&mut self, instruction: Instruction)
        requires
            n_of(instruction.instruction) == 0x7,
        ensures
            final(self)@ == arith_spec(old(self)@, instruction.instruction).1,
    {
        let xy = instruction.xy();
        let xi = xy[0];
        let yi = xy[1];
        let x = self.registers[xi];
        let y = self.registers[yi];
        if y > x {
            self.registers[FLAG] = 1;
        } else {
            self.registers[FLAG] = 0;
        }
        self.registers[xi] = y.wrapping_sub(x);
    }

    /// 8xy6: the flag register takes bit 0 of V[x], then V[x] shifts right by one.
    fn op_8xy6_shift(&mut self, instruction: Instruction)
        requires
            n_of(instruction.instruction) == 0x6,
        ensures
            final(self)@ == arith_spec(old(self)@, instruction.instruction).1,
    {
        let xi = instruction.x();
        let v = self.registers[xi];
        assert(v & 1u8 == v % 2) by (bit_vector);
        self.registers[FLAG] = v & 0x1;
        let u = self.registers[xi];
        assert(u >> 1u8 == u / 2) by (bit_vector);
        self.registers[xi] = u >> 1;
    }

    /// 8xyE: the flag register takes bit 7 of V[x], then V[x] shifts left by
    /// one, keeping the low eight bits.
    fn op_8xye_shift(&mut self, instruction: Instruction)
        requires
            n_of(instruction.instruction) == 0xE,
        ensures
            final(self)@ == arith_spec(old(self)@, instruction.instruction).1,
    {
        let xi = instruction.x();
        let v = self.registers[xi];
        assert((v & 0x80u8) >> 7u8 == v / 128) by (bit_vector);
        self.registers[FLAG] = (v & 0x80) >> 7;
        self.registers[xi] = self.registers[xi].wrapping_mul(2);
    }

    /// Dxyn: draws the n-row sprite at I at (V[x], V[y]); the flag register
    /// records whether a set pixel was unset.
    fn op_dxyn_display(&mut self, instruction: Instruction) -> (r: Result<Step, Fault>)
        requires
            valid(old(self)@),
        ensures
            (r, final(self)@) == draw_spec(old(self)@, instruction.instruction),
    {
        let xy = instruction.xy();
        let xi = xy[0];
        let yi = xy[1];
        let num_rows = instruction.n();
        let x = self.registers[xi];
        let y = self.registers[yi];
        let y0: usize = y as usize % 32;
        let visible: usize = if (num_rows as usize) <= 32 - y0 { num_rows as usize } else { 32 - y0 };
        if self.index_register > MEMORY_SIZE - visible {
            return Err(Fault::AddressOutOfRange(self.index_register));
        }
        let vf = self.display.xor_sprite(x, y, num_rows, &self.memory, self.index_register);
        self.registers[FLAG] = vf;
        Ok(Step::Executed)
    }

    /// Fx07: V[x] = the delay timer's count.
    fn op_fx07_timer(&mut self, instruction: Instruction)
        requires
            nn_of(instruction.instruction) == 0x07,
        ensures
            final(self)@ == misc_spec(old(self)@, instruction.instruction).1,
    {
        let xi = instruction.x();
        self.registers[xi] = self.delay_timer.count();
    }

    /// Fx15: the delay timer's count = V[x].
    fn op_fx15_timer(&mut self, instruction: Instruction)
        requires
            nn_of(instruction.instruction) == 0x15,
        ensures
            final(self)@ == misc_spec(old(self)@, instruction.instruction).1,
    {
        let xi = instruction.x();
        self.delay_timer.set_count(self.registers[xi]);
    }

    /// Fx18: the sound timer's count = V[x].
    fn op_fx18_timer(&mut self, instruction: Instruction)
        requires
            nn_of(instruction.instruction) == 0x18,
        ensures
            final(self)@ == misc_spec(old(self)@, instruction.instruction).1,
    {
        let xi = instruction.x();
        self.sound_timer.set_count(self.registers[xi]);
    }

    /// Fx1E: I = I + V[x].
    fn op_fx1e_index_register_add(&mut self, instruction: Instruction) -> (r: Result<Step, Fault>)
        requires
            nn_of(instruction.instruction) == 0x1E,
        ensures
            (r, final(self)@) == misc_spec(old(self)@, instruction.instruction),
    {
        let xi = instruction.x();
        let x = self.registers[xi] as usize;
        if self.index_register > usize::MAX - x {
            return Err(Fault::AddressOutOfRange(self.index_register));
        }
        self.index_register = self.index_register + x;
        Ok(Step::Executed)
    }

    /// Fx0A: puts the lowest held key in V[x]; with no key held, moves the
    /// program counter back to this word and waits for a key.
    fn op_fx0a_get_keyboard_input(&mut self, instruction: Instruction, keys: &[bool; 16]) -> (r: Result<Step, Fault>)
        requires
            valid(old(self)@),
            2 <= old(self)@.pc <= MEMORY_SIZE,
            nn_of(instruction.instruction) == 0x0A,
        ensures
            valid(final(self)@),
            (r, final(self)@) == key_wait_spec(old(self)@, x_of(instruction.instruction), keys@),
    {
        let x = instruction.x();
        match first_key_down(keys) {
            Some(k) => {
                self.registers[x] = k as u8;
                assert(self@.stack == old(self)@.stack);
                Ok(Step::Executed)
            },
            None => {
                self.program_counter = self.program_counter - 2;
                self.key_wait = Some(x);
                assert(self@.stack == old(self)@.stack);
                Ok(Step::AwaitingKey)
            },
        }
    }

    /// Fx29: I = the address of the glyph of the digit V[x].
    fn op_fx29_font_character(&mut self, instruction: Instruction)
        requires
            nn_of(instruction.instruction) == 0x29,
        ensures
            final(self)@ == misc_spec(old(self)@, instruction.instruction).1,
    {
        let xi = instruction.x();
        let x = self.registers[xi];
        self.index_register = FONT_MEMORY_START + GLYPH_SIZE * x as usize;
    }

    /// Fx33: writes the hundreds, tens and ones digits of V[x] at I, I+1, I+2.
    fn op_fx33_binary_coded_decimal_conversion(&mut self, instruction: Instruction) -> (r: Result<Step, Fault>)
        requires
            valid(old(self)@),
            nn_of(instruction.instruction) == 0x33,
        ensures
            (r, final(self)@) == misc_spec(old(self)@, instruction.instruction),
    {
        let xi = instruction.x();
        if self.index_register >= MEMORY_SIZE - 2 {
            return Err(Fault::AddressOutOfRange(self.index_register));
        }
        let mut value = self.registers[xi];
        let ones_place = value % 10;
        self.memory.write_u8(self.index_register + 2, ones_place);
        value = value / 10;
        let tens_place = value % 10;
        self.memory.write_u8(self.index_register + 1, tens_place);
        value = value / 10;
        let hundreds_place = value % 10;
        self.memory.write_u8(self.index_register, hundreds_place);
        proof {
            let v = old(self)@.registers[x_of(instruction.instruction)];
            assert(self@.memory =~= bcd_written(old(self)@.memory, old(self)@.index, v));
        }
        Ok(Step::Executed)
    }

    /// Fx55: stores V[0] to V[x] at I onward.
    fn op_fx55_store_memory(&mut self, instruction: Instruction) -> (r: Result<Step, Fault>)
        requires
            valid(old(self)@),
            nn_of(instruction.instruction) == 0x55,
        ensures
            (r, final(self)@) == misc_spec(old(self)@, instruction.instruction),
    {
        let x: usize = instruction.x();
        if self.index_register >= MEMORY_SIZE - x {
            return Err(Fault::AddressOutOfRange(self.index_register));
        }
        let ghost m0 = self@;
        assert(spliced(m0.memory, m0.index, m0.registers.subrange(0, 0)) =~= m0.memory);
        let mut i: usize = 0;
        while i <= x
            invariant
                x < 16,
                x == x_of(instruction.instruction),
                self.index_register + x < MEMORY_SIZE,
                i <= x + 1,
                self@ == (Machine {
                    memory: spliced(m0.memory, m0.index, m0.registers.subrange(0, i as int)),
                    ..m0
                }),
                m0.memory.len() == MEMORY_SIZE,
                m0 == old(self)@,
            decreases x + 1 - i,
        {
            let value = self.registers[i];
            self.memory.write_u8(self.index_register + i, value);
            proof {
                assert(self@.memory =~= spliced(m0.memory, m0.index, m0.registers.subrange(0, i + 1)));
            }
            i += 1;
        }
        Ok(Step::Executed)
    }

    /// Fx65: loads V[0] to V[x] from I onward.
    fn op_fx65_load_memory(&mut self, instruction: Instruction) -> (r: Result<Step, Fault>)
        requires
            valid(old(self)@),
            nn_of(instruction.instruction) == 0x65,
        ensures
            (r, final(self)@) == misc_spec(old(self)@, instruction.instruction),
    {
        let x: usize = instruction.x();
        if self.index_register >= MEMORY_SIZE - x {
            return Err(Fault::AddressOutOfRange(self.index_register));
        }
        let ghost m0 = self@;
        assert(spliced(m0.registers, 0, m0.memory.subrange(m0.index, m0.index)) =~= m0.registers);
        let mut i: usize = 0;
        while i <= x
            invariant
                x < 16,
                x == x_of(instruction.instruction),
                self.index_register + x < MEMORY_SIZE,
                i <= x + 1,
                self@ == (Machine {
                    registers: spliced(m0.registers, 0, m0.memory.subrange(m0.index, m0.index + i)),
                    ..m0
                }),
                m0.memory.len() == MEMORY_SIZE,
                m0.registers.len() == 16,
                m0 == old(self)@,
            decreases x + 1 - i,
        {
            let value = self.memory.read_u8(self.index_register + i);
            self.registers[i] = value;
            proof {
                assert(self@.registers =~= spliced(
                    m0.registers,
                    0,
                    m0.memory.subrange(m0.index, m0.index + i + 1),
                ));
            }
            i += 1;
        }
        Ok(Step::Executed)
    }

    /// Annn: I = nnn.
    fn op_annn_set_index_register(&mut self, instruction: Instruction)
        ensures
            final(self)@ == (Machine { index: nnn_of(instruction.instruction), ..old(self)@ }),
    {
        let value = instruction.nnn();
        self.index_register = value as usize;
    }

    /// Cxnn: V[x] = nn AND the random byte `random`.
    fn op_cxnn_random(&mut self, instruction: Instruction, random: u8)
        ensures
            final(self)@ == with_reg(old(self)@, x_of(instruction.instruction), nn_of(instruction.instruction) as u8 & random),
    {
        let xi = instruction.x();
        let value = instruction.nn();
        self.registers[xi] = value & random;
    }

    /// Ex9E: skips the next instruction if the key named by V[x] is held.
    fn op_ex9e_skip_if_key_down(&mut self, instruction: Instruction, keys: &[bool; 16])
        requires
            old(self)@.pc <= MEMORY_SIZE,
        ensures
            final(self)@ == skip_if(old(self)@, key_down(keys@, old(self)@.registers[x_of(instruction.instruction)])),
    {
        let xi = instruction.x();
        let key = self.registers[xi];
        if key < 16 && keys[key as usize] {
            self.program_counter += 2;
        }
    }

    /// ExA1: skips the next instruction if the key named by V[x] is not held.
    fn op_exa1_skip_if_key_not_down(&mut self, instruction: Instruction, keys: &[bool; 16])
        requires
            old(self)@.pc <= MEMORY_SIZE,
        ensures
            final(self)@ == skip_if(old(self)@, !key_down(keys@, old(self)@.registers[x_of(instruction.instruction)])),
    {
        let xi = instruction.x();
        let key = self.registers[xi];
        if !(key < 16 && keys[key as usize]) {
            self.program_counter += 2;
        }
    }
}

} // verus!
