use vm8::assembler::assembler::assemble;
use vm8::assembler::isa::{Instruction, Narrow, Wide};

#[test]
fn every_instruction_decodes_from_its_opcode() {
    let mut known = 0;
    for b in 0..=255u8 {
        if let Some(i) = Instruction::from_u8(b) {
            assert_eq!(i.opcode(), b);
            known += 1;
        }
    }
    assert_eq!(known, 32 + 24 + 2);
}

#[test]
fn width_marker() {
    for b in 0..=255u8 {
        match Instruction::from_u8(b) {
            Some(Instruction::Narrow(_)) => assert!(b & 0x80 == 0),
            Some(Instruction::Wide { .. }) => assert!(b & 0x80 != 0),
            _ => {}
        }
    }
}

#[test]
fn wide_opcodes_are_built_from_their_fields() {
    let i = Instruction::Wide { op: Wide::Lda, indexed: true, indirect: true };
    assert_eq!(i.opcode(), 0b1001_1000);
    let i = Instruction::Wide { op: Wide::Jmp, indexed: false, indirect: false };
    assert_eq!(i.opcode(), 0x82);
    let i = Instruction::Wide { op: Wide::Jgt, indexed: true, indirect: false };
    assert_eq!(i.opcode(), 128 + 8 + 5);
    assert_eq!(Instruction::from_u8(0x86), None);
    assert_eq!(Instruction::from_u8(0xA0), None);
    assert_eq!(Instruction::from_u8(32), None);
}

#[test]
fn mnemonics() {
    assert_eq!(Narrow::from_mnemonic("brk"), Some(Narrow::Brk));
    assert_eq!(Narrow::from_mnemonic("brk").map(|n| n.opcode()), Some(23));
    assert_eq!(Narrow::from_mnemonic("lda"), None);
    assert_eq!(Narrow::from_mnemonic("NOP"), None);
    assert_eq!(Wide::from_mnemonic("jez"), Some(Wide::Jez));
    assert_eq!(Wide::from_mnemonic("org"), None);
    assert_eq!(Narrow::from_u8(25), Some(Narrow::LdaConst));
    assert_eq!(Wide::from_selector(3), Some(Wide::Jsr));
    assert_eq!(Wide::Jsr.sel(), 3);
}

#[test]
fn image_decodes_back_to_the_mnemonics() {
    let program = "start: lda #7\ntab\nsta 0x0100,x\njsr (start+2)\nbrk\npss\nadc\njgt (0x10),x\nhlt";
    let image = assemble(program).unwrap();
    let expected = vec![
        Instruction::Narrow(Narrow::LdaConst),
        Instruction::Narrow(Narrow::Tab),
        Instruction::Wide { op: Wide::Sta, indexed: true, indirect: false },
        Instruction::Wide { op: Wide::Jsr, indexed: false, indirect: true },
        Instruction::Narrow(Narrow::Brk),
        Instruction::Narrow(Narrow::Pss),
        Instruction::Narrow(Narrow::Adc),
        Instruction::Wide { op: Wide::Jgt, indexed: true, indirect: true },
        Instruction::Narrow(Narrow::Hlt),
    ];
    let mut found = Vec::new();
    let mut at = 0;
    while at < image.len() {
        let i = Instruction::from_u8(image[at]).unwrap();
        at += match i {
            Instruction::Narrow(Narrow::LdaConst) => 2,
            Instruction::Narrow(_) => 1,
            _ => 3,
        };
        found.push(i);
    }
    assert_eq!(at, image.len());
    assert_eq!(found, expected);
}
