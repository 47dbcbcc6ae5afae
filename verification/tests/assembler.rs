use vm8::assembler::assembler::{assemble, Assembler};

fn image(program: &str) -> Vec<u8> {
    assemble(program).unwrap().into_vec()
}

fn failure(program: &str) -> String {
    assemble(program).unwrap_err()
}

#[test]
fn immediate_load_and_halt() {
    assert_eq!(image("lda #0d42\nhlt"), vec![25, 42, 1]);
}

#[test]
fn label_forward_reference() {
    let program = "jmp target\ndat 0x00\ntarget: lda #0d7\n        hlt";
    assert_eq!(image(program), vec![0x82, 0x00, 0x04, 0x00, 25, 7, 1]);
}

#[test]
fn indexed_indirect_opcode() {
    assert_eq!(image("lda (0x0010),x"), vec![0x98, 0x00, 0x10]);
}

#[test]
fn addressing_modes() {
    assert_eq!(image("sta 0x1234"), vec![0x81, 0x12, 0x34]);
    assert_eq!(image("jsr 0x1234,x"), vec![0x8B, 0x12, 0x34]);
    assert_eq!(image("jez (0x1234)"), vec![0x94, 0x12, 0x34]);
    assert_eq!(image("jgt (4660),x"), vec![0x9D, 0x12, 0x34]);
}

#[test]
fn dat_string() {
    assert_eq!(image("dat \"AB\"\nhlt"), vec![0x41, 0x42, 1]);
}

#[test]
fn dat_string_in_utf8() {
    assert_eq!(image("dat \"\u{e9}\"\nend: jmp end"), vec![0xC3, 0xA9, 0x82, 0x00, 0x02]);
}

#[test]
fn dat_empty_string_takes_no_room() {
    assert_eq!(image("dat \"\"\nend: jmp end"), vec![0x82, 0x00, 0x00]);
}

#[test]
fn dat_list_and_constants() {
    let program = "#BYTE ten 0d10\n#ENDD\ndat 1, ten, 0x0f,0b11\nhlt";
    assert_eq!(image(program), vec![1, 10, 15, 3, 1]);
}

#[test]
fn dat_single_byte() {
    assert_eq!(image("dat 0xff\nhlt"), vec![255, 1]);
}

#[test]
fn macro_expansion() {
    let program = "#MACR inca\n    lda $1\n    inc\n    sta $1\n#ENDM\n#ENDD\n!inca 0x10\nhlt";
    assert_eq!(image(program), vec![0x80, 0x00, 0x10, 6, 0x81, 0x00, 0x10, 1]);
}

#[test]
fn macro_with_ten_arguments() {
    let program = "#MACR pick\ndat $10\ndat $1\n#ENDM\n#ENDD\n!pick 1 2 3 4 5 6 7 8 9 77";
    assert_eq!(image(program), vec![77, 1]);
}

#[test]
fn macro_after_label() {
    let program = "#MACR two\nnop\nnop\n#ENDM\n#ENDD\nstart: !two\njmp start";
    assert_eq!(image(program), vec![0, 0, 0x82, 0, 0]);
}

#[test]
fn nested_macros() {
    let program = "#MACR inner\ndat $1\n#ENDM\n#MACR outer\n!inner $1\n!inner $2\n#ENDM\n#ENDD\n!outer 3 4";
    assert_eq!(image(program), vec![3, 4]);
}

#[test]
fn macro_that_invokes_itself_fails() {
    let program = "#MACR again\n!again\n#ENDM\n#ENDD\n!again";
    assert!(failure(program).ends_with("macros nest too deeply"));
}

#[test]
fn unknown_macro() {
    assert_eq!(failure("!nope 1"), "error on line 1: macro nope not found");
}

#[test]
fn error_inside_macro() {
    let program = "#MACR bad\nfoo\n#ENDM\n#ENDD\nnop\n!bad";
    assert_eq!(
        failure(program),
        "error on line 6: error in macro bad: unrecognised instruction foo"
    );
}

#[test]
fn org_places_bytes_and_fills_with_zero() {
    assert_eq!(image("hlt\norg 4\nnop\nhlt"), vec![1, 0, 0, 0, 0, 1]);
}

#[test]
fn org_backwards_overwrites() {
    assert_eq!(image("dat 1,2,3\norg 1\ndat 9"), vec![1, 9, 3]);
}

#[test]
fn labels_follow_org() {
    assert_eq!(image("org 0x10\nhere: jmp here"), {
        let mut v = vec![0u8; 16];
        v.extend_from_slice(&[0x82, 0x00, 0x10]);
        v
    });
}

#[test]
fn label_arithmetic() {
    assert_eq!(image("a: jmp a+4"), vec![0x82, 0, 4]);
    assert_eq!(image("nop\nnop\na: jmp a - 0x2"), vec![0, 0, 0x82, 0, 0]);
    assert_eq!(image("a: jmp a-1"), vec![0x82, 0xFF, 0xFF]);
    assert_eq!(image("a: jmp (a+1),x"), vec![0x9A, 0, 1]);
}

#[test]
fn label_offset_without_value() {
    assert_eq!(failure("a: jmp a+"), "error compiling: line 1: literal  too short");
}

#[test]
fn unknown_label() {
    assert_eq!(failure("nop\njmp nowhere"), "error compiling: line 2: unrecognised label nowhere");
}

#[test]
fn label_only_line_and_comments() {
    let program = "; a comment\n\nstart:\n  nop ; does nothing\n  jmp start ; back\n";
    assert_eq!(image(program), vec![0, 0x82, 0, 0]);
}

#[test]
fn narrow_mnemonics_map_to_their_opcodes() {
    let names = [
        "nop", "hlt", "swp", "tab", "tax", "txa", "inc", "dec", "add", "adc", "sub", "sbc", "lsr",
        "lsl", "clc", "sec", "put", "psa", "ppa", "pss", "pps", "ssp", "gsp", "brk", "rts",
    ];
    for (i, name) in names.iter().enumerate() {
        assert_eq!(image(name), vec![i as u8]);
    }
    let late = ["get", "not", "and", "ior", "xor", "gbf"];
    for (i, name) in late.iter().enumerate() {
        assert_eq!(image(name), vec![26 + i as u8]);
    }
}

#[test]
fn immediate_constant() {
    assert_eq!(image("#BYTE star 0x2a\n#ENDD\nlda #star"), vec![25, 42]);
    assert_eq!(failure("lda #star"), "error on line 1: undefined constant star");
}

#[test]
fn immediate_that_does_not_fit() {
    assert_eq!(failure("lda #256"), "error on line 1: operand 256 does not fit in a byte");
    assert_eq!(failure("dat 0x100"), "error on line 1: operand 0x100 does not fit in a byte");
}

#[test]
fn operand_errors() {
    assert_eq!(failure("lda"), "error on line 1: instr lda requires op, found none");
    assert_eq!(failure("lda #1,x"), "error on line 1: literal operand cannot be offset");
    assert_eq!(
        failure("sta #1"),
        "error on line 1: literal operands are not allowed for non-lda instructions"
    );
    assert_eq!(failure("dat \"abc"), "error on line 1: string operand with no close quote");
    assert_eq!(failure("dat \""), "error on line 1: string operand with no close quote");
    assert_eq!(
        failure("lda (0x10"),
        "error on line 1: indirect address operand with no close bracket"
    );
    assert_eq!(
        failure("lda \"abc\""),
        "error on line 1: string operands are not allowed for non-dat instructions"
    );
    assert_eq!(
        failure("jmp caf\u{e9}"),
        "error on line 1: string literal \"caf\u{e9}\" contains non-ascii characters"
    );
}

#[test]
fn unknown_instruction_reports_its_line() {
    assert_eq!(failure("nop\n\nfoo 1"), "error on line 3: unrecognised instruction foo");
}

#[test]
fn directive_after_the_block() {
    assert_eq!(
        failure("nop\n#BYTE x 1"),
        "error on line 2: directive \"#BYTE x 1\" after the start of instructions"
    );
}

#[test]
fn declaration_errors() {
    assert_eq!(failure("#BYTE x 1\nnop"), "error on line 2: declarations without #ENDD");
    assert_eq!(
        failure("#WORD x 1\n#ENDD"),
        "error on line 1: unrecognised declaration \"#WORD x 1\""
    );
    assert_eq!(failure("#AB\n#ENDD"), "error on line 1: unrecognised declaration \"#AB\"");
    assert_eq!(failure("#BYTE\n#ENDD"), "error on line 1: declaration \"#BYTE\" missing name");
    assert_eq!(failure("#BYTE x\n#ENDD"), "error on line 1: declaration \"#BYTE x\" missing value");
    assert_eq!(failure("#BYTE x 0q1\n#ENDD"), "error on line 1: unsupported radix 0q in literal 0q1");
    assert_eq!(failure("#BYTE x 256\n#ENDD"), "error on line 1: unsupported radix 25 in literal 256");
    assert_eq!(failure("#BYTE x 7f\n#ENDD"), "error on line 1: literal 7f too short");
    assert_eq!(failure("#MACR m\nnop\n#ENDM"), "error on line 3: declarations without #ENDD");
    assert_eq!(failure("#MACR m\nnop\n#ENDD"), "error on line 1: macro without close tag");
}

#[test]
fn declaration_errors_count_blank_lines() {
    assert_eq!(
        failure("\n#BYTE a 1\n\n; note\n#BOGUS\n#ENDD"),
        "error on line 5: unrecognised declaration \"#BOGUS\""
    );
    assert_eq!(
        failure("#BYTE a 1\n\n#MACR m\nnop\n\n#ENDD"),
        "error on line 3: macro without close tag"
    );
}

#[test]
fn declarations_read_on_their_own() {
    let mut a = Assembler::new();
    let block = vec![
        String::from("; constants"),
        String::from("#BYTE one 1"),
        String::from("#MACR twice"),
        String::from("; kept in the body"),
        String::from("dat $1"),
        String::from("dat $1"),
        String::from("#ENDM and more"),
        String::from("#BYTE two 0b10"),
    ];
    assert_eq!(a.process_declares(block), Ok(()));
    assert_eq!(a.constants.get("one"), Some(&1));
    assert_eq!(a.constants.get("two"), Some(&2));
    assert_eq!(a.constants.get("three"), None);
    assert_eq!(a.macros.get("twice").map(|b| b.len()), Some(3));
    assert_eq!(
        a.process_declares(vec![String::from("#BYTE three"), String::from("#BYTE four 4")]),
        Err(String::from("declaration \"#BYTE three\" missing value"))
    );
    assert_eq!(a.constants.get("four"), None);
    assert_eq!(
        a.declare_all(&vec![String::from("#BYTE five 5"), String::from("nop")]),
        Err((1, String::from("unrecognised declaration \"nop\"")))
    );
    assert_eq!(a.constants.get("five"), Some(&5));
}

#[test]
fn declarations_after_blank_lines() {
    assert_eq!(image("\n  \n#BYTE x 7\n; note\n#ENDD\nlda #x"), vec![25, 7]);
}

#[test]
fn program_too_large() {
    assert_eq!(image("org 0xffff\nhlt").len(), 65536);
    assert_eq!(
        failure("org 0xffff\nhlt\nhlt"),
        "error on line 3: program does not fit in 65536 bytes"
    );
}

#[test]
fn same_program_same_image() {
    let program = "#MACR m\nlda $1\nsta $2\n#ENDM\n#ENDD\nstart: !m 1 2\njmp start+3\ndat \"xyz\"";
    assert_eq!(assemble(program), assemble(program));
}

#[test]
fn passes_one_by_one() {
    let mut a = Assembler::new();
    a.process_declares(vec![String::from("#BYTE k 0d9")]).unwrap();
    let first = a.read_line("top: lda #k", 0).unwrap().unwrap();
    assert_eq!(first.program_text_line, 1);
    a.lines.push(first);
    let second = a.read_line("jmp top", 1).unwrap().unwrap();
    a.lines.push(second);
    assert_eq!(a.read_line("   ; nothing", 2).unwrap().is_none(), true);
    assert_eq!(a.counter, 5);
    assert_eq!(a.compile().unwrap().into_vec(), vec![25, 9, 0x82, 0, 0]);
}

#[test]
fn label_defined_twice() {
    assert_eq!(failure("a: nop\nb: nop\na: hlt"), "error on line 3: label a is defined twice");
    let program = "#MACR m\nhere: jmp here\n#ENDM\n#ENDD\n!m\n!m";
    assert_eq!(
        failure(program),
        "error on line 6: error in macro m: label here is defined twice"
    );
}

#[test]
fn macro_name_ends_at_white_space_or_comment() {
    let program = "#MACR one ; a single nop\nnop\n#ENDM\n#MACR two\tnops\nnop\nnop\n#ENDM\n#ENDD\n!one\n!two";
    assert_eq!(image(program), vec![0, 0, 0]);
}

#[test]
fn constants_can_be_set_again() {
    assert_eq!(image("#BYTE k 1\n#BYTE k 2\n#ENDD\nlda #k"), vec![25, 2]);
}

#[test]
fn only_the_first_colon_splits() {
    assert_eq!(
        failure("dat \"a:b\""),
        "error on line 1: unrecognised instruction b\""
    );
}

#[test]
fn org_takes_a_number_only() {
    assert_eq!(
        failure("start: nop\nnop\norg start\nhlt"),
        "error on line 3: org requires a numeric address, found start"
    );
    assert_eq!(image("nop\nnop\norg 0\nhlt"), vec![1, 0]);
}

#[test]
fn wide_mnemonic_needs_a_space() {
    assert_eq!(failure("lda\t#1"), "error on line 1: unrecognised instruction lda\t#1");
}

#[test]
fn empty_program() {
    assert_eq!(image(""), Vec::<u8>::new());
    assert_eq!(image("\n\n ; nothing\n"), Vec::<u8>::new());
}

#[test]
fn marks_that_directives_do_not_take() {
    assert_eq!(failure("org 0x10,x"), "error on line 1: offset operands are not allowed for org");
    assert_eq!(failure("org (0x10)"), "error on line 1: indirect operands are not allowed for org");
    assert_eq!(failure("dat 1,x"), "error on line 1: offset operands are not allowed for dat");
    assert_eq!(failure("dat (1)"), "error on line 1: indirect operands are not allowed for dat");
    assert_eq!(image("#BYTE x 9\n#ENDD\ndat 1, x"), vec![1, 9]);
}

#[test]
fn text_outside_ascii() {
    assert_eq!(image("nop ; caf\u{e9} \u{2603}\nhlt"), vec![0, 1]);
    assert_eq!(image("\u{a0}nop\u{2003}\n"), vec![0]);
    assert_eq!(failure("\u{e9}t\u{e9} 1"), "error on line 1: unrecognised instruction \u{e9}t\u{e9}");
}

#[test]
fn narrow_mnemonic_takes_no_operand() {
    assert_eq!(failure("hlt 5"), "error on line 1: instr hlt takes no op, found 5");
    assert_eq!(failure("l: psa  a, b ; c"), "error on line 1: instr psa takes no op, found a, b");
    assert_eq!(image("hlt   ; stop"), vec![1]);
}

#[test]
fn a_long_program() {
    let mut program = String::from("#BYTE k 3\n#MACR m\nlda #k\nsta $1\n#ENDM\n#ENDD\n");
    for i in 0..3000 {
        program.push_str(&format!("l{}: !m 0x{:04x} ; line {}\n", i, i, i));
    }
    program.push_str("jmp l2999\n");
    let bytes = image(&program);
    assert_eq!(bytes.len(), 3000 * 5 + 3);
    assert_eq!(&bytes[0..5], &[25, 3, 0x81, 0, 0]);
    let target = 2999 * 5;
    assert_eq!(&bytes[15000..], &[0x82, (target >> 8) as u8, (target & 255) as u8]);
}
