use std::collections::HashMap;

use gbemu::opcode::{Flags, Opcode, Opcodes, Operand};

fn operand(name: &str) -> Operand {
    Operand { name: name.to_string(), immediate: true, bytes: None, increment: None, decrement: None }
}

fn opcode(mnemonic: &str, operands: Vec<Operand>) -> Opcode {
    Opcode {
        mnemonic: mnemonic.to_string(),
        bytes: 1,
        cycles: vec![4],
        operands,
        immediate: true,
        flags: Flags { z: "-".to_string(), n: "-".to_string(), h: "-".to_string(), c: "-".to_string() },
    }
}

#[test]
fn display_joins_operands_with_spaces() {
    let ld = opcode("LD", vec![operand("A"), operand("n8")]);
    assert_eq!(ld.to_display_string(), "LD A n8");
    let jr = opcode("JR", vec![operand("NZ"), operand("e8")]);
    assert_eq!(jr.to_display_string(), "JR NZ e8");
    let inc = opcode("INC", vec![operand("HL")]);
    assert_eq!(inc.to_display_string(), "INC HL");
}

#[test]
fn display_without_operands_keeps_the_space() {
    let nop = opcode("NOP", vec![]);
    assert_eq!(nop.to_display_string(), "NOP ");
}

#[test]
fn opcode_table_lookup() {
    let mut unprefixed = HashMap::new();
    unprefixed.insert("0x00".to_string(), opcode("NOP", vec![]));
    let mut cbprefixed = HashMap::new();
    cbprefixed.insert("0x37".to_string(), opcode("SWAP", vec![operand("A")]));
    let table = Opcodes { unprefixed, cbprefixed };
    assert_eq!(table.unprefixed["0x00"].to_display_string(), "NOP ");
    assert_eq!(table.cbprefixed["0x37"].to_display_string(), "SWAP A");
}
