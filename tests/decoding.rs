use chip8::instruction::Instruction;

#[test]
fn fields_of_a_word() {
    let i = Instruction::new(0xD2A7);
    assert_eq!(i.op_code(), 0xD);
    assert_eq!(i.x(), 0x2);
    assert_eq!(i.y(), 0xA);
    assert_eq!(i.xy(), [0x2, 0xA]);
    assert_eq!(i.n(), 0x7);
    assert_eq!(i.nn(), 0xA7);
    assert_eq!(i.nnn(), 0x2A7);
}

#[test]
fn fields_of_extreme_words() {
    let lo = Instruction::new(0x0000);
    assert_eq!((lo.op_code(), lo.x(), lo.y(), lo.n(), lo.nn(), lo.nnn()), (0, 0, 0, 0, 0, 0));
    let hi = Instruction::new(0xFFFF);
    assert_eq!((hi.op_code(), hi.x(), hi.y(), hi.n(), hi.nn(), hi.nnn()), (0xF, 0xF, 0xF, 0xF, 0xFF, 0xFFF));
}
