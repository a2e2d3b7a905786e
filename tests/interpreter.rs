use chip8::computer::Computer;
use chip8::instruction::Instruction;
use chip8::machine::{Fault, Step};

const NO_KEYS: [bool; 16] = [false; 16];
const SECOND: u64 = 1_000_000_000;

fn machine(program: &[u16]) -> Computer {
    let mut bytes: Vec<u8> = Vec::new();
    for w in program {
        bytes.extend_from_slice(&w.to_be_bytes());
    }
    let mut c = Computer::new();
    c.load_program(&bytes).unwrap();
    c
}

fn run(c: &mut Computer, steps: usize) {
    for _ in 0..steps {
        assert_eq!(c.step(0, &NO_KEYS, 0), Ok(Step::Executed));
    }
}

fn lit(c: &Computer) -> usize {
    let mut count = 0;
    for r in 0..32 {
        for col in 0..64 {
            count += c.display().pixel(r, col) as usize;
        }
    }
    count
}

#[test]
fn new_machine_holds_the_font() {
    let c = Computer::new();
    assert_eq!(c.program_counter(), 0);
    assert_eq!(c.index_register(), 0);
    assert_eq!(c.stack_depth(), 0);
    assert_eq!(c.memory().read_u8(0x4F), 0);
    assert_eq!(c.memory().read_u8(0x50), 0xF0);
    assert_eq!(c.memory().read_u8(0x55), 0x20);
    assert_eq!(c.memory().read_u8(0x9F), 0x80);
    assert_eq!(c.memory().read_u8(0xA0), 0);
    assert!(!c.display().is_dirty());
}

#[test]
fn program_loads_at_0x200() {
    let c = machine(&[0x1234]);
    assert_eq!(c.program_counter(), 0x200);
    assert_eq!(c.memory().read_u16(0x200), 0x1234);
}

#[test]
fn program_too_large_is_refused() {
    let mut c = Computer::new();
    let big = vec![0u8; 4096 - 0x200 + 1];
    assert_eq!(c.load_program(&big), Err(Fault::ProgramTooLarge(3585)));
    assert_eq!(c.program_counter(), 0);
    let fits = vec![0xAAu8; 4096 - 0x200];
    assert_eq!(c.load_program(&fits), Ok(()));
    assert_eq!(c.memory().read_u8(4095), 0xAA);
}

#[test]
fn set_then_add_zero_keeps_value() {
    let mut c = machine(&[0x6A42, 0x7A00]);
    run(&mut c, 2);
    assert_eq!(c.register(0xA), 0x42);
}

#[test]
fn add_immediate_wraps_without_flag() {
    let mut c = machine(&[0x6F07, 0x60FF, 0x7002]);
    run(&mut c, 3);
    assert_eq!(c.register(0), 1);
    assert_eq!(c.register(0xF), 7);
}

#[test]
fn add_registers_with_carry() {
    let mut c = machine(&[0x6AFF, 0x6B02, 0x8AB4]);
    run(&mut c, 3);
    assert_eq!(c.register(0xA), 1);
    assert_eq!(c.register(0xF), 1);
    let mut d = machine(&[0x6A80, 0x6B7F, 0x8AB4]);
    run(&mut d, 3);
    assert_eq!(d.register(0xA), 0xFF);
    assert_eq!(d.register(0xF), 0);
}

#[test]
fn subtract_registers_with_borrow() {
    let mut c = machine(&[0x6A05, 0x6B07, 0x8AB5]);
    run(&mut c, 3);
    assert_eq!(c.register(0xA), 254);
    assert_eq!(c.register(0xF), 0);
    let mut d = machine(&[0x6A07, 0x6B05, 0x8AB5]);
    run(&mut d, 3);
    assert_eq!(d.register(0xA), 2);
    assert_eq!(d.register(0xF), 1);
    let mut e = machine(&[0x6A05, 0x6B05, 0x8AB5]);
    run(&mut e, 3);
    assert_eq!(e.register(0xA), 0);
    assert_eq!(e.register(0xF), 0);
}

#[test]
fn reverse_subtract() {
    let mut c = machine(&[0x6A05, 0x6B07, 0x8AB7]);
    run(&mut c, 3);
    assert_eq!(c.register(0xA), 2);
    assert_eq!(c.register(0xF), 1);
    let mut d = machine(&[0x6A07, 0x6B05, 0x8AB7]);
    run(&mut d, 3);
    assert_eq!(d.register(0xA), 254);
    assert_eq!(d.register(0xF), 0);
}

#[test]
fn shifts_report_the_lost_bit() {
    let mut c = machine(&[0x6A81, 0x8A06]);
    run(&mut c, 2);
    assert_eq!(c.register(0xA), 0x40);
    assert_eq!(c.register(0xF), 1);
    let mut d = machine(&[0x6A81, 0x8A0E]);
    run(&mut d, 2);
    assert_eq!(d.register(0xA), 0x02);
    assert_eq!(d.register(0xF), 1);
    let mut e = machine(&[0x6A40, 0x8A0E]);
    run(&mut e, 2);
    assert_eq!(e.register(0xA), 0x80);
    assert_eq!(e.register(0xF), 0);
}

#[test]
fn logic_operations() {
    let mut c = machine(&[0x6A0C, 0x6B0A, 0x8AB1]);
    run(&mut c, 3);
    assert_eq!(c.register(0xA), 0x0E);
    let mut d = machine(&[0x6A0C, 0x6B0A, 0x8AB2]);
    run(&mut d, 3);
    assert_eq!(d.register(0xA), 0x08);
    let mut e = machine(&[0x6A0C, 0x6B0A, 0x8AB3]);
    run(&mut e, 3);
    assert_eq!(e.register(0xA), 0x06);
    let mut f = machine(&[0x6B0A, 0x8AB0]);
    run(&mut f, 2);
    assert_eq!(f.register(0xA), 0x0A);
}

#[test]
fn call_and_return() {
    // 0x200: call 0x206; 0x202: V1 = 1; 0x204: jump 0x204; 0x206: V2 = 5; 0x208: return
    let mut c = machine(&[0x2206, 0x6101, 0x1204, 0x6205, 0x00EE]);
    run(&mut c, 1);
    assert_eq!(c.program_counter(), 0x206);
    assert_eq!(c.stack_depth(), 1);
    run(&mut c, 2);
    assert_eq!(c.program_counter(), 0x202);
    assert_eq!(c.stack_depth(), 0);
    assert_eq!(c.register(2), 5);
    run(&mut c, 2);
    assert_eq!(c.register(1), 1);
    assert_eq!(c.program_counter(), 0x204);
}

#[test]
fn return_without_call_underflows() {
    let mut c = machine(&[0x00EE]);
    assert_eq!(c.step(0, &NO_KEYS, 0), Err(Fault::StackUnderflow));
}

#[test]
fn decimal_digits_of_157() {
    let mut c = machine(&[0x6A9D, 0xA300, 0xFA33]);
    run(&mut c, 3);
    assert_eq!(c.memory().read_u8(0x300), 1);
    assert_eq!(c.memory().read_u8(0x301), 5);
    assert_eq!(c.memory().read_u8(0x302), 7);
}

#[test]
fn decimal_digits_past_memory_fault() {
    let mut c = machine(&[0xAFFE, 0xF033]);
    run(&mut c, 1);
    assert_eq!(c.step(0, &NO_KEYS, 0), Err(Fault::AddressOutOfRange(0xFFE)));
    assert_eq!(c.memory().read_u8(0xFFE), 0);
}

#[test]
fn draw_twice_collides_and_erases() {
    // I = glyph of 0; V0 = V1 = 0; draw it twice
    let mut c = machine(&[0xA050, 0x6000, 0x6100, 0xD015, 0xD015]);
    run(&mut c, 4);
    assert_eq!(c.register(0xF), 0);
    assert_eq!(lit(&c), 14);
    assert!(c.display().is_dirty());
    run(&mut c, 1);
    assert_eq!(c.register(0xF), 1);
    assert_eq!(lit(&c), 0);
}

#[test]
fn draw_at_column_60_clips() {
    // V0 = 60, V1 = 0, I = glyph of 0, whose top row is F0
    let mut c = machine(&[0x603C, 0x6100, 0xA050, 0xD011]);
    run(&mut c, 4);
    for col in 60..64 {
        assert_eq!(c.display().pixel(0, col), 1);
    }
    for col in 0..4 {
        assert_eq!(c.display().pixel(0, col), 0);
    }
    assert_eq!(lit(&c), 4);
}

#[test]
fn draw_past_memory_faults() {
    let mut c = machine(&[0xAFFF, 0x6000, 0x6100, 0xD012]);
    run(&mut c, 3);
    assert_eq!(c.step(0, &NO_KEYS, 0), Err(Fault::AddressOutOfRange(0xFFF)));
}

#[test]
fn clear_screen_marks_changed() {
    let mut c = machine(&[0xA050, 0xD005, 0x00E0]);
    run(&mut c, 2);
    c.mark_presented();
    assert!(!c.display().is_dirty());
    run(&mut c, 1);
    assert_eq!(lit(&c), 0);
    assert!(c.display().is_dirty());
}

#[test]
fn delay_timer_counts_down_with_frames() {
    let mut c = machine(&[0x600A, 0xF015, 0x1204]);
    run(&mut c, 2);
    assert_eq!(c.delay_count(), 10);
    assert_eq!(c.step(SECOND, &NO_KEYS, 0), Ok(Step::Executed));
    assert_eq!(c.delay_count(), 0);
    assert_eq!(c.step(SECOND, &NO_KEYS, 0), Ok(Step::Executed));
    assert_eq!(c.delay_count(), 0);
}

#[test]
fn read_delay_and_set_sound_timer() {
    let mut c = machine(&[0x6014, 0xF015, 0xF118, 0xF207]);
    run(&mut c, 3);
    assert_eq!(c.sound_count(), 0);
    let mut d = machine(&[0x6014, 0xF015, 0xF018, 0xF207]);
    run(&mut d, 4);
    assert_eq!(d.sound_count(), 20);
    assert_eq!(d.register(2), 20);
}

#[test]
fn skip_if_equal_and_not_equal() {
    let mut c = machine(&[0x6005, 0x3005]);
    run(&mut c, 2);
    assert_eq!(c.program_counter(), 0x206);
    let mut d = machine(&[0x6005, 0x4005]);
    run(&mut d, 2);
    assert_eq!(d.program_counter(), 0x204);
    let mut e = machine(&[0x6005, 0x4006]);
    run(&mut e, 2);
    assert_eq!(e.program_counter(), 0x206);
}

#[test]
fn skip_on_register_comparison() {
    let mut c = machine(&[0x6005, 0x6105, 0x5010]);
    run(&mut c, 3);
    assert_eq!(c.program_counter(), 0x208);
    let mut d = machine(&[0x6005, 0x6105, 0x9010]);
    run(&mut d, 3);
    assert_eq!(d.program_counter(), 0x206);
}

#[test]
fn unknown_word_only_advances() {
    let mut c = machine(&[0x6A42, 0xFFFF, 0x6B01]);
    run(&mut c, 1);
    assert_eq!(c.step(0, &NO_KEYS, 0), Ok(Step::UnknownInstruction(0xFFFF)));
    assert_eq!(c.program_counter(), 0x204);
    assert_eq!(c.register(0xA), 0x42);
    assert_eq!(c.memory().read_u16(0x202), 0xFFFF);
    run(&mut c, 1);
    assert_eq!(c.register(0xB), 1);
}

#[test]
fn other_unknown_words() {
    for w in [0x0123u16, 0x8AB8, 0xE0FF, 0xB123, 0xF0FF] {
        let mut c = machine(&[w]);
        assert_eq!(c.step(0, &NO_KEYS, 0), Ok(Step::UnknownInstruction(w)));
        assert_eq!(c.program_counter(), 0x202);
    }
}

#[test]
fn fetch_past_memory_faults() {
    let mut c = machine(&[0x1FFF]);
    run(&mut c, 1);
    assert_eq!(c.step(0, &NO_KEYS, 0), Err(Fault::AddressOutOfRange(0xFFF)));
}

#[test]
fn index_register_operations() {
    let mut c = machine(&[0xA100, 0x6A10, 0xFA1E]);
    run(&mut c, 3);
    assert_eq!(c.index_register(), 0x110);
    let mut d = machine(&[0x6A0B, 0xFA29]);
    run(&mut d, 2);
    assert_eq!(d.index_register(), 0x50 + 5 * 0xB);
}

#[test]
fn store_and_load_register_block() {
    let mut c = machine(&[0x6011, 0x6122, 0x6233, 0x6344, 0xA300, 0xF255, 0x6000, 0x6100, 0x6200, 0xF165]);
    run(&mut c, 6);
    assert_eq!(c.memory().read_u8(0x300), 0x11);
    assert_eq!(c.memory().read_u8(0x301), 0x22);
    assert_eq!(c.memory().read_u8(0x302), 0x33);
    assert_eq!(c.memory().read_u8(0x303), 0);
    run(&mut c, 4);
    assert_eq!(c.register(0), 0x11);
    assert_eq!(c.register(1), 0x22);
    assert_eq!(c.register(2), 0);
    assert_eq!(c.register(3), 0x44);
}

#[test]
fn store_past_memory_faults() {
    let mut c = machine(&[0xAFFE, 0xF255]);
    run(&mut c, 1);
    assert_eq!(c.step(0, &NO_KEYS, 0), Err(Fault::AddressOutOfRange(0xFFE)));
    let mut d = machine(&[0xAFFF, 0xF165]);
    run(&mut d, 1);
    assert_eq!(d.step(0, &NO_KEYS, 0), Err(Fault::AddressOutOfRange(0xFFF)));
}

#[test]
fn key_skips() {
    let mut keys = [false; 16];
    keys[5] = true;
    let mut c = machine(&[0x6A05, 0xEA9E]);
    run(&mut c, 1);
    assert_eq!(c.step(0, &keys, 0), Ok(Step::Executed));
    assert_eq!(c.program_counter(), 0x206);
    let mut d = machine(&[0x6A05, 0xEAA1]);
    run(&mut d, 1);
    assert_eq!(d.step(0, &keys, 0), Ok(Step::Executed));
    assert_eq!(d.program_counter(), 0x204);
    let mut e = machine(&[0x6A05, 0xEAA1]);
    run(&mut e, 2);
    assert_eq!(e.program_counter(), 0x206);
    let mut f = machine(&[0x6A20, 0xEA9E]);
    run(&mut f, 2);
    assert_eq!(f.program_counter(), 0x204);
}

#[test]
fn wait_for_key() {
    let mut c = machine(&[0xFA0A, 0x6B01]);
    assert_eq!(c.step(0, &NO_KEYS, 0), Ok(Step::AwaitingKey));
    assert!(c.is_awaiting_key());
    assert_eq!(c.program_counter(), 0x200);
    assert_eq!(c.step(0, &NO_KEYS, 0), Ok(Step::AwaitingKey));
    assert_eq!(c.program_counter(), 0x200);
    assert_eq!(c.register(0xA), 0);
    let mut keys = [false; 16];
    keys[9] = true;
    keys[7] = true;
    assert_eq!(c.step(0, &keys, 0), Ok(Step::Executed));
    assert!(!c.is_awaiting_key());
    assert_eq!(c.register(0xA), 7);
    assert_eq!(c.program_counter(), 0x202);
    run(&mut c, 1);
    assert_eq!(c.register(0xB), 1);
}

#[test]
fn key_held_when_waiting_starts_is_taken_at_once() {
    let mut keys = [false; 16];
    keys[0xC] = true;
    let mut c = machine(&[0xF30A, 0x6B01]);
    assert_eq!(c.step(0, &keys, 0), Ok(Step::Executed));
    assert!(!c.is_awaiting_key());
    assert_eq!(c.register(3), 0xC);
    assert_eq!(c.program_counter(), 0x202);
}

#[test]
fn timers_during_key_wait_follow_policy() {
    let mut c = machine(&[0x6014, 0xF015, 0xF00A]);
    run(&mut c, 2);
    assert_eq!(c.step(0, &NO_KEYS, 0), Ok(Step::AwaitingKey));
    assert_eq!(c.step(SECOND / 4, &NO_KEYS, 0), Ok(Step::AwaitingKey));
    assert_eq!(c.delay_count(), 5);
    c.set_timers_during_key_wait(false);
    assert_eq!(c.step(SECOND, &NO_KEYS, 0), Ok(Step::AwaitingKey));
    assert_eq!(c.delay_count(), 5);
}

#[test]
fn random_is_masked() {
    let mut c = machine(&[0xC0F0, 0xC10F]);
    assert_eq!(c.step(0, &NO_KEYS, 0xAB), Ok(Step::Executed));
    assert_eq!(c.register(0), 0xA0);
    assert_eq!(c.step(0, &NO_KEYS, 0xAB), Ok(Step::Executed));
    assert_eq!(c.register(1), 0x0B);
}

#[test]
fn update_draws_a_byte_for_random() {
    let mut c = machine(&[0x60FF, 0xC000, 0xC1FF]);
    assert_eq!(c.update(0, &NO_KEYS), Ok(Step::Executed));
    assert_eq!(c.update(0, &NO_KEYS), Ok(Step::Executed));
    assert_eq!(c.register(0), 0);
    assert_eq!(c.update(0, &NO_KEYS), Ok(Step::Executed));
    assert_eq!(c.program_counter(), 0x206);
}

#[test]
fn execute_runs_a_word_directly() {
    let mut c = machine(&[0x0000]);
    assert_eq!(c.execute(Instruction::new(0x6A05), &NO_KEYS, 0), Ok(Step::Executed));
    assert_eq!(c.register(0xA), 5);
    assert_eq!(c.program_counter(), 0x200);
}
