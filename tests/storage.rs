use chip8::memory::Memory;
use chip8::stack::Stack;

#[test]
fn memory_starts_zeroed() {
    let m = Memory::new();
    assert_eq!(m.read_u8(0), 0);
    assert_eq!(m.read_u8(4095), 0);
}

#[test]
fn memory_load_and_read_back() {
    let mut m = Memory::new();
    m.load(0x200, &[0x12, 0x34, 0x56]);
    assert_eq!(m.read_u8(0x1FF), 0);
    assert_eq!(m.read_u8(0x200), 0x12);
    assert_eq!(m.read_u8(0x202), 0x56);
    assert_eq!(m.read_u8(0x203), 0);
    assert_eq!(m.read_u16(0x200), 0x1234);
    assert_eq!(m.read_u16(0x201), 0x3456);
    let mut out = [0u8; 3];
    m.read_u8_array(0x200, &mut out);
    assert_eq!(out, [0x12, 0x34, 0x56]);
}

#[test]
fn memory_write_last_byte() {
    let mut m = Memory::new();
    m.write_u8(4095, 0xAB);
    assert_eq!(m.read_u8(4095), 0xAB);
    assert_eq!(m.read_u16(4094), 0x00AB);
}

#[test]
fn stack_is_last_in_first_out() {
    let mut s = Stack::new();
    assert_eq!(s.len(), 0);
    s.push(0x202);
    s.push(0x304);
    assert_eq!(s.len(), 2);
    assert_eq!(s.pop(), 0x304);
    assert_eq!(s.pop(), 0x202);
    assert_eq!(s.len(), 0);
}
