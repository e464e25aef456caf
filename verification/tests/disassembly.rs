use chip8::disassemble;

#[test]
fn control_flow_words_disassemble() {
    assert_eq!(disassemble(0x00E0), "CLS");
    assert_eq!(disassemble(0x00EE), "RET");
    assert_eq!(disassemble(0x0123), "SYS 123");
    assert_eq!(disassemble(0x1ABC), "JP ABC");
    assert_eq!(disassemble(0x2ABC), "CALL ABC");
    assert_eq!(disassemble(0xB123), "JP V0 123");
}

#[test]
fn skip_words_disassemble() {
    assert_eq!(disassemble(0x3A0F), "SE A F");
    assert_eq!(disassemble(0x4A10), "SNE A 10");
    assert_eq!(disassemble(0x5AB0), "SE A B");
    assert_eq!(disassemble(0x9AB0), "SNE A B");
    assert_eq!(disassemble(0xE19E), "SKP 1");
    assert_eq!(disassemble(0xE1A1), "SKNP 1");
}

#[test]
fn register_words_disassemble() {
    assert_eq!(disassemble(0x6A05), "LD A 5");
    assert_eq!(disassemble(0x7A03), "ADD A 3");
    assert_eq!(disassemble(0x8AB0), "LD A B");
    assert_eq!(disassemble(0x8AB1), "OR A B");
    assert_eq!(disassemble(0x8AB2), "AND A B");
    assert_eq!(disassemble(0x8AB3), "XOR A B");
    assert_eq!(disassemble(0x8AB4), "ADD A B");
    assert_eq!(disassemble(0x8AB5), "SUB A B");
    assert_eq!(disassemble(0x8AB6), "SHR A B");
    assert_eq!(disassemble(0x8AB7), "SUBN A B");
    assert_eq!(disassemble(0x8ABE), "SHL A B");
    assert_eq!(disassemble(0xC4FF), "RND 4");
}

#[test]
fn memory_and_timer_words_disassemble() {
    assert_eq!(disassemble(0xA300), "LD I 300");
    assert_eq!(disassemble(0xD125), "SNE 1 2 5");
    assert_eq!(disassemble(0xF107), "LD 1 DT");
    assert_eq!(disassemble(0xF10A), "LD 1 K");
    assert_eq!(disassemble(0xF115), "LD DT 1");
    assert_eq!(disassemble(0xF118), "LD ST 1");
    assert_eq!(disassemble(0xF11E), "ADD I 1");
    assert_eq!(disassemble(0xF129), "LD F 1");
    assert_eq!(disassemble(0xF133), "LD B 1");
    assert_eq!(disassemble(0xF155), "LD [I] 1");
    assert_eq!(disassemble(0xF165), "LD 1 [I]");
}

#[test]
fn unknown_words_disassemble_to_a_question_mark() {
    assert_eq!(disassemble(0x5AB1), "?");
    assert_eq!(disassemble(0x8AB8), "?");
    assert_eq!(disassemble(0xFFFF), "?");
}

#[test]
fn hexadecimal_fields_are_uppercase_and_unpadded() {
    assert_eq!(disassemble(0x1000), "JP 0");
    assert_eq!(disassemble(0x100F), "JP F");
    assert_eq!(disassemble(0x1010), "JP 10");
    assert_eq!(disassemble(0x1FFF), "JP FFF");
    assert_eq!(disassemble(0x6000), "LD 0 0");
}
