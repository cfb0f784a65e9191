use pfvm::instr::{
    Instruction, CLASS_JMP, CLASS_LD, CLASS_RET, JMP, LDH, LDHI, LDI, LDW, LDWI, MODE_ABS,
    MODE_IMM, MODE_IND, RETA, RETK, RVAL_A, RVAL_K, SIZE_H, SIZE_W,
};
use pfvm::machine::PsuedoMachine;

#[test]
fn ldi() {
    let mut pm = PsuedoMachine::new();
    let instr = Instruction::new(CLASS_LD | MODE_IMM | SIZE_W, 0, 0, 0xDEADBEEF);
    let pkt = [0 as u8; 64];
    let ret = pm.execute(&instr, &pkt);
    assert!(ret.unwrap() == None);
    assert!(pm.accumulator() == 0xDEADBEEF);
}

#[test]
fn ldw() {
    let mut pm = PsuedoMachine::new();
    let mut pkt = [0 as u8; 64];
    pkt[3] = 0xDE;
    pkt[4] = 0xAD;
    pkt[5] = 0xBE;
    pkt[6] = 0xEF;
    let instr = Instruction::new(MODE_ABS | SIZE_W | CLASS_LD, 0, 0, 3);
    let ret = pm.execute(&instr, &pkt);
    assert!(ret.unwrap() == None);
    assert!(pm.accumulator() == 0xDEADBEEF);
}

#[test]
fn ldh() {
    let mut pm = PsuedoMachine::new();
    let mut pkt = [0 as u8; 64];
    pkt[3] = 0xDE;
    pkt[4] = 0xAD;
    pkt[5] = 0xBE;
    pkt[6] = 0xEF;
    let instr = Instruction::new(MODE_ABS | SIZE_H | CLASS_LD, 0, 0, 3);
    let ret = pm.execute(&instr, &pkt);
    assert!(ret.unwrap() == None);
    assert!(pm.accumulator() == 0xDEAD);
}

#[test]
fn ldwi() {
    let mut pm = PsuedoMachine::new();
    let mut pkt = [0 as u8; 64];
    pkt[4] = 0xDE;
    pkt[5] = 0xAD;
    pkt[6] = 0xBE;
    pkt[7] = 0xEF;
    pm.set_index(1);
    let instr = Instruction::new(MODE_IND | SIZE_W | CLASS_LD, 0, 0, 3);
    let ret = pm.execute(&instr, &pkt);
    assert!(ret.unwrap() == None);
    assert!(pm.accumulator() == 0xDEADBEEF);
}

#[test]
fn ldhi() {
    let mut pm = PsuedoMachine::new();
    let mut pkt = [0 as u8; 64];
    pkt[4] = 0xDE;
    pkt[5] = 0xAD;
    pkt[6] = 0xBE;
    pkt[7] = 0xEF;
    pm.set_index(1);
    let instr = Instruction::new(MODE_IND | SIZE_H | CLASS_LD, 0, 0, 3);
    let ret = pm.execute(&instr, &pkt);
    assert!(ret.unwrap() == None);
    assert!(pm.accumulator() == 0xDEAD);
}

#[test]
fn named_opcodes_match_their_fields() {
    assert_eq!(LDI, CLASS_LD | MODE_IMM | SIZE_W);
    assert_eq!(LDW, CLASS_LD | MODE_ABS | SIZE_W);
    assert_eq!(LDH, CLASS_LD | MODE_ABS | SIZE_H);
    assert_eq!(LDWI, CLASS_LD | MODE_IND | SIZE_W);
    assert_eq!(LDHI, CLASS_LD | MODE_IND | SIZE_H);
    assert_eq!(JMP, CLASS_JMP | MODE_IMM | SIZE_W);
    assert_eq!(RETK, CLASS_RET | RVAL_K);
    assert_eq!(RETA, CLASS_RET | RVAL_A);
}

#[test]
fn ldi_advances_frame_and_touches_nothing_else() {
    let mut pm = PsuedoMachine::new();
    let instr = Instruction::new(LDI, 0, 0, 0xDEADBEEF);
    let pkt = [0 as u8; 0];
    // no packet bytes at all: an immediate load never reads the packet
    let ret = pm.execute(&instr, &pkt);
    assert!(ret.unwrap() == None);
    assert_eq!(pm.accumulator(), 0xDEADBEEF);
    assert_eq!(pm.frame(), 1);
    assert_eq!(pm.index(), 0);
    for n in 0..16 {
        assert_eq!(pm.mem(n), 0);
    }
}

#[test]
fn ldh_zero_extends() {
    let mut pm = PsuedoMachine::new();
    let mut pkt = [0 as u8; 8];
    pkt[3] = 0xDE;
    pkt[4] = 0xAD;
    let instr = Instruction::new(LDH, 0, 0, 3);
    let ret = pm.execute(&instr, &pkt);
    assert!(ret.unwrap() == None);
    assert_eq!(pm.accumulator(), 0x0000DEAD);
}

#[test]
fn loads_at_the_exact_end_succeed() {
    let mut pm = PsuedoMachine::new();
    let pkt = [0x01, 0x02, 0x03, 0x04];
    // the word read covers bytes 0..4 of a 4-byte packet: just in bounds
    let instr = Instruction::new(LDW, 0, 0, 0);
    assert!(pm.execute(&instr, &pkt).unwrap() == None);
    assert_eq!(pm.accumulator(), 0x01020304);
    // the half-word read covers bytes 2..4: just in bounds
    let instr = Instruction::new(LDH, 0, 0, 2);
    assert!(pm.execute(&instr, &pkt).unwrap() == None);
    assert_eq!(pm.accumulator(), 0x0304);
    assert_eq!(pm.frame(), 2);
}

#[test]
fn ldw_offset_past_end_fails() {
    let mut pm = PsuedoMachine::new();
    pm.set_accumulator(77);
    let pkt = [0 as u8; 8];
    let instr = Instruction::new(LDW, 0, 0, 8);
    let ret = pm.execute(&instr, &pkt);
    assert!(ret.is_err());
    assert_eq!(pm.accumulator(), 77);
    assert_eq!(pm.frame(), 0);
}

#[test]
fn ldw_width_past_end_fails() {
    let mut pm = PsuedoMachine::new();
    pm.set_accumulator(77);
    let pkt = [0 as u8; 8];
    // offset 5 is in bounds but bytes 5..9 are not
    let instr = Instruction::new(LDW, 0, 0, 5);
    let ret = pm.execute(&instr, &pkt);
    assert!(ret.is_err());
    assert_eq!(pm.accumulator(), 77);
    assert_eq!(pm.frame(), 0);
}

#[test]
fn ldh_width_past_end_fails() {
    let mut pm = PsuedoMachine::new();
    pm.set_accumulator(77);
    let pkt = [0 as u8; 8];
    let instr = Instruction::new(LDH, 0, 0, 7);
    let ret = pm.execute(&instr, &pkt);
    assert!(ret.is_err());
    assert_eq!(pm.accumulator(), 77);
    assert_eq!(pm.frame(), 0);
}

#[test]
fn ldwi_offset_overflow_fails() {
    let mut pm = PsuedoMachine::new();
    pm.set_index(u32::MAX);
    pm.set_accumulator(77);
    let pkt = [0 as u8; 64];
    // index + k overflows the 32-bit address register: must fail, not wrap
    // into the in-bounds offset 0
    let instr = Instruction::new(LDWI, 0, 0, 1);
    let ret = pm.execute(&instr, &pkt);
    assert!(ret.is_err());
    assert_eq!(pm.accumulator(), 77);
    assert_eq!(pm.frame(), 0);
}

#[test]
fn ldhi_offset_overflow_fails() {
    let mut pm = PsuedoMachine::new();
    pm.set_index(1);
    pm.set_accumulator(77);
    let pkt = [0 as u8; 64];
    let instr = Instruction::new(LDHI, 0, 0, u32::MAX);
    let ret = pm.execute(&instr, &pkt);
    assert!(ret.is_err());
    assert_eq!(pm.accumulator(), 77);
    assert_eq!(pm.frame(), 0);
}

#[test]
fn jump_taken_when_accumulator_zero() {
    let mut pm = PsuedoMachine::new();
    let pkt = [0 as u8; 4];
    let instr = Instruction::new(JMP, 3, 9, 0);
    let ret = pm.execute(&instr, &pkt);
    assert!(ret.unwrap() == None);
    assert_eq!(pm.frame(), 3);
    assert_eq!(pm.accumulator(), 0);
}

#[test]
fn jump_not_taken_when_accumulator_nonzero() {
    let mut pm = PsuedoMachine::new();
    pm.set_accumulator(1);
    let pkt = [0 as u8; 4];
    let instr = Instruction::new(JMP, 3, 9, 0);
    let ret = pm.execute(&instr, &pkt);
    assert!(ret.unwrap() == None);
    assert_eq!(pm.frame(), 9);
    assert_eq!(pm.accumulator(), 1);
}

#[test]
fn unknown_opcode_fails_and_mutates_nothing() {
    let mut pm = PsuedoMachine::new();
    pm.set_accumulator(5);
    pm.set_index(6);
    pm.set_memory(2, 7);
    let pkt = [0 as u8; 64];
    // 0x0D is jump-class but not a recognized operation
    let instr = Instruction::new(0x0D, 1, 1, 0);
    let ret = pm.execute(&instr, &pkt);
    assert!(ret.is_err());
    assert_eq!(pm.frame(), 0);
    assert_eq!(pm.accumulator(), 5);
    assert_eq!(pm.index(), 6);
    assert_eq!(pm.mem(2), 7);
    for n in 0..16 {
        if n != 2 {
            assert_eq!(pm.mem(n), 0);
        }
    }
}

#[test]
fn accessors_report_what_setters_wrote() {
    let mut pm = PsuedoMachine::new();
    pm.set_frame(11);
    pm.set_accumulator(22);
    pm.set_index(33);
    pm.set_memory(0, 44);
    pm.set_memory(15, 55);
    assert_eq!(pm.frame(), 11);
    assert_eq!(pm.accumulator(), 22);
    assert_eq!(pm.index(), 33);
    assert_eq!(pm.mem(0), 44);
    assert_eq!(pm.mem(15), 55);
    assert_eq!(pm.mem(7), 0);
    let mem = pm.memory();
    assert_eq!(mem.len(), 16);
    assert_eq!(mem[0], 44);
    assert_eq!(mem[15], 55);
}
