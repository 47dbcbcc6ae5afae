use vm8::assembler::assembler::assemble;
use vm8::processor::Processor;

fn run(p: &mut Processor) {
    let mut steps = 0;
    while !p.halted {
        p.execute();
        steps += 1;
        assert!(steps < 100_000);
    }
}

#[test]
fn runs_immediate_load_and_halt() {
    let mut p = Processor::new_with_memory(&[25, 42, 1]);
    run(&mut p);
    assert_eq!(p.a, 42);
    assert!(p.halted);
}

#[test]
fn runs_label_forward_reference() {
    let image = assemble("jmp target\ndat 0x00\ntarget: lda #0d7\n        hlt").unwrap();
    let mut p = Processor::new_with_memory(&image);
    run(&mut p);
    assert_eq!(p.a, 7);
}

#[test]
fn indexed_indirect_load() {
    let mut p = Processor::new_with_memory(&[0x98, 0x00, 0x10]);
    p.x = 1;
    p.memory[0x10] = 0x00;
    p.memory[0x11] = 0x20;
    p.memory[0x20] = 0xAA;
    p.memory[0x21] = 0xBB;
    assert!(!p.execute());
    assert_eq!(p.a, 0xBB);
    assert_eq!(p.program_counter, 3);
}

#[test]
fn carry_propagating_add() {
    let mut p = Processor::new_with_memory(&[8]);
    p.a = 0xFF;
    p.b = 0x01;
    p.execute();
    assert_eq!(p.a, 0x00);
    assert_eq!(p.status & 1, 1);
    assert_eq!(p.status & 2, 2);
}

#[test]
fn add_takes_the_carry_in() {
    let mut p = Processor::new_with_memory(&[15, 8]);
    p.a = 1;
    p.b = 2;
    p.execute();
    p.execute();
    assert_eq!(p.a, 4);
    assert_eq!(p.status & 1, 0);
    assert_eq!(p.status & 2, 0);
}

#[test]
fn macro_program_runs() {
    let program = "#MACR inca\n    lda $1\n    inc\n    sta $1\n#ENDM\n#ENDD\n!inca 0x10\nhlt";
    let image = assemble(program).unwrap();
    let mut p = Processor::new_with_memory(&image);
    p.memory[0x10] = 9;
    run(&mut p);
    assert_eq!(p.a, 9);
    assert_eq!(p.x, 1);
    assert_eq!(p.memory[0x10], 9);
}

#[test]
fn register_moves() {
    let mut p = Processor::new_with_memory(&[25, 5, 3, 4, 25, 9, 2, 5, 6, 7, 7, 1]);
    p.execute();
    p.execute();
    assert_eq!((p.a, p.b), (5, 5));
    p.execute();
    assert_eq!(p.x, 5);
    p.execute();
    p.execute();
    assert_eq!((p.a, p.b), (5, 9));
    p.execute();
    assert_eq!(p.a, 5);
    p.execute();
    assert_eq!(p.x, 6);
    p.execute();
    p.execute();
    assert_eq!(p.x, 4);
    p.execute();
    assert!(p.halted);
}

#[test]
fn inc_and_dec_wrap() {
    let mut p = Processor::new_with_memory(&[7, 6]);
    p.execute();
    assert_eq!(p.x, 255);
    p.execute();
    assert_eq!(p.x, 0);
}

#[test]
fn rotates_through_carry() {
    let mut p = Processor::new_with_memory(&[12, 12, 13, 13]);
    p.a = 0b1000_0001;
    p.execute();
    assert_eq!(p.a, 0b0000_0010);
    assert_eq!(p.status & 1, 1);
    p.execute();
    assert_eq!(p.a, 0b0000_0101);
    assert_eq!(p.status & 1, 0);
    p.execute();
    assert_eq!(p.a, 0b0000_0010);
    assert_eq!(p.status & 1, 1);
    p.execute();
    assert_eq!(p.a, 0b1000_0001);
    assert_eq!(p.status & 1, 0);
}

#[test]
fn carry_set_and_clear() {
    let mut p = Processor::new_with_memory(&[15, 14]);
    p.status = 0b1000_0000;
    p.a = 1;
    p.execute();
    assert_eq!(p.status, 0b1000_0001);
    p.execute();
    assert_eq!(p.status, 0b1000_0000);
}

#[test]
fn bitwise_operations() {
    let mut p = Processor::new_with_memory(&[27, 28, 29, 30]);
    p.a = 0b0000_1111;
    p.b = 0b1010_1010;
    p.execute();
    assert_eq!(p.a, 0b1111_0000);
    p.execute();
    assert_eq!(p.a, 0b1010_0000);
    p.execute();
    assert_eq!(p.a, 0b1010_1010);
    p.execute();
    assert_eq!(p.a, 0);
    assert_eq!(p.status & 2, 2);
}

#[test]
fn status_byte_read_and_written() {
    let mut p = Processor::new_with_memory(&[20, 19]);
    p.a = 0b0000_0101;
    p.execute();
    assert_eq!(p.status, 0b0000_0101);
    p.execute();
    assert_eq!(p.a, 0b0000_0101);
}

#[test]
fn stack_pointer_set_and_read() {
    let mut p = Processor::new_with_memory(&[21, 25, 0, 3, 22]);
    p.a = 0x12;
    p.b = 0x34;
    p.execute();
    assert_eq!(p.stack_pointer, 0x1234);
    p.execute();
    p.execute();
    p.execute();
    assert_eq!((p.a, p.b), (0x12, 0x34));
}

#[test]
fn push_and_pop() {
    let mut p = Processor::new_with_memory(&[17, 25, 0, 18]);
    p.a = 0x5A;
    p.stack_pointer = 0x200;
    p.execute();
    assert_eq!(p.memory[0x200], 0x5A);
    assert_eq!(p.stack_pointer, 0x201);
    p.execute();
    assert_eq!(p.a, 0);
    p.execute();
    assert_eq!(p.a, 0x5A);
    assert_eq!(p.stack_pointer, 0x200);
}

#[test]
fn balanced_pushes_and_pops() {
    let mut p = Processor::new_with_memory(&[17, 17, 18, 17, 18, 18]);
    p.a = 0x77;
    p.stack_pointer = 0x300;
    for _ in 0..6 {
        p.execute();
    }
    assert_eq!(p.a, 0x77);
    assert_eq!(p.stack_pointer, 0x300);
}

#[test]
fn stack_pointer_wraps() {
    let mut p = Processor::new_with_memory(&[17, 18, 18]);
    p.a = 3;
    p.stack_pointer = 0xFFFF;
    p.execute();
    assert_eq!(p.memory[0xFFFF], 3);
    assert_eq!(p.stack_pointer, 0);
    p.execute();
    assert_eq!(p.stack_pointer, 0xFFFF);
}

#[test]
fn stack_pointer_is_brought_into_range() {
    let mut p = Processor::new_with_memory(&[17, 18, 0]);
    p.a = 9;
    p.stack_pointer = 70000;
    p.execute();
    assert_eq!(p.memory[70000 - 65536], 9);
    assert_eq!(p.stack_pointer, 70001 - 65536);
    p.execute();
    assert_eq!(p.stack_pointer, 70000 - 65536);
    p.stack_pointer = 65536 + 5;
    p.execute();
    assert_eq!(p.stack_pointer, 65536 + 5);
    assert!(p.readout().contains("sp: 0x10005\n"));
}

#[test]
fn subroutine_call_and_return() {
    let image = assemble("jsr sub\nhlt\nsub: lda #0d5\nrts").unwrap();
    let mut p = Processor::new_with_memory(&image);
    p.stack_pointer = 0x100;
    p.execute();
    assert_eq!(p.program_counter, 4);
    assert_eq!(p.stack_pointer, 0x102);
    assert_eq!(p.memory[0x100], 3);
    assert_eq!(p.memory[0x101], 0);
    p.execute();
    p.execute();
    assert_eq!(p.program_counter, 3);
    assert_eq!(p.stack_pointer, 0x100);
    p.execute();
    assert!(p.halted);
    assert_eq!(p.a, 5);
}

#[test]
fn store_and_jumps() {
    let image = assemble("lda #7\nsta 0x0040\njgt over\nhlt\nover: lda #0\njez end\nhlt\nend: jmp end").unwrap();
    let mut p = Processor::new_with_memory(&image);
    p.execute();
    p.execute();
    assert_eq!(p.memory[0x40], 7);
    p.execute();
    assert_eq!(p.program_counter, 9);
    p.execute();
    p.execute();
    assert_eq!(p.program_counter, 15);
    p.execute();
    assert_eq!(p.program_counter, 15);
}

#[test]
fn jumps_not_taken() {
    let mut p = Processor::new_with_memory(&[0x85, 0, 9, 0x84, 0, 9]);
    p.a = 1;
    p.b = 1;
    p.execute();
    assert_eq!(p.program_counter, 3);
    p.execute();
    assert_eq!(p.program_counter, 6);
}

#[test]
fn breakpoint_returns_and_leaves_flags() {
    let mut p = Processor::new_with_memory(&[23, 0]);
    p.status = 0;
    assert!(p.execute());
    assert_eq!(p.program_counter, 1);
    assert_eq!(p.status, 0);
    assert!(!p.execute());
    assert_eq!(p.status, 2);
}

#[test]
fn zero_flag_follows_a() {
    let mut p = Processor::new_with_memory(&[0, 25, 3, 25, 0]);
    p.execute();
    assert_eq!(p.status & 2, 2);
    p.execute();
    assert_eq!(p.status & 2, 0);
    p.execute();
    assert_eq!(p.status & 2, 2);
}

#[test]
fn reserved_opcodes_do_nothing() {
    let mut p = Processor::new_with_memory(&[9, 10, 11, 32, 127, 0x86, 0, 0, 0x87, 0, 0]);
    p.a = 4;
    p.b = 5;
    p.x = 6;
    for _ in 0..7 {
        p.execute();
    }
    assert_eq!((p.a, p.b, p.x), (4, 5, 6));
    assert_eq!(p.program_counter, 11);
    assert!(!p.halted);
}

#[test]
fn output_is_buffered() {
    let mut p = Processor::new_with_memory(&[25, 72, 16, 25, 105, 16, 1]);
    run(&mut p);
    assert_eq!(p.take_output(), vec![72, 105]);
    assert_eq!(p.take_output(), Vec::<u8>::new());
}

#[test]
fn input_is_read_byte_by_byte() {
    let mut p = Processor::new_with_memory(&[31, 26, 26, 26, 31]);
    assert!(p.wants_input());
    p.update_input_buf(&[7, 8]);
    p.execute();
    assert_eq!(p.a, 2);
    p.execute();
    assert_eq!(p.a, 7);
    p.execute();
    assert_eq!(p.a, 8);
    p.execute();
    assert_eq!(p.a, 0);
    p.execute();
    assert_eq!(p.a, 0);
    assert!(!p.wants_input());
}

#[test]
fn input_fill_saturates() {
    let mut p = Processor::new_with_memory(&[31, 26, 31]);
    p.update_input_buf(&[1u8; 256]);
    p.execute();
    assert_eq!(p.a, 255);
    assert_eq!(p.status & 1, 1);
    p.execute();
    p.execute();
    assert_eq!(p.a, 255);
    assert_eq!(p.status & 1, 0);
}

#[test]
fn program_counter_wraps_past_the_end() {
    let mut p = Processor::new_with_memory(&[0, 1]);
    p.program_counter = 65535;
    p.execute();
    assert_eq!(p.program_counter, 65536);
    p.execute();
    assert_eq!(p.program_counter, 2);
    assert!(p.halted);
}

#[test]
fn same_image_same_run() {
    let image = assemble("lda #3\ntax\nloop: dec\ntxa\njez end\njmp loop\nend: hlt").unwrap();
    let mut p = Processor::new_with_memory(&image);
    let mut q = Processor::new_with_memory(&image);
    run(&mut p);
    run(&mut q);
    assert_eq!((p.a, p.b, p.x, p.status), (q.a, q.b, q.x, q.status));
    assert_eq!(p.program_counter, q.program_counter);
    assert_eq!(p.memory[..], q.memory[..]);
}

#[test]
fn readout_shows_the_registers() {
    let mut p = Processor::new_with_memory(&[]);
    p.a = 0x0a;
    p.b = 0xff;
    p.x = 1;
    p.program_counter = 0x1234;
    p.stack_pointer = 0x20;
    p.status = 0b10;
    assert_eq!(
        p.readout(),
        "a :   0x0a\nb :   0xff\nx :   0x01\npc: 0x1234\nsp: 0x0020\n      ------zc\ns : 0b00000010\n"
    );
}

#[test]
fn readout_of_a_counter_past_the_end() {
    let mut p = Processor::new_with_memory(&[]);
    p.program_counter = 65536;
    assert!(p.readout().contains("pc: 0x10000\n"));
}

#[test]
fn runs_on_recorded_input() {
    let image = assemble("loop: get\nput\njez end\njmp loop\nend: hlt").unwrap();
    let mut feeds = vec![vec![72u8, 105]];
    feeds.resize(12, Vec::new());
    let mut p = Processor::new_with_memory(&image);
    assert!(p.execute_until_halt(&feeds));
    assert_eq!(p.take_output(), vec![72, 105, 0]);

    let mut q = Processor::new_with_memory(&image);
    assert!(!q.execute_until_halt(&feeds[..5].to_vec()));
    assert_eq!(q.take_output(), vec![72]);
    assert_eq!(q.program_counter, 1);
    assert!(q.execute_until_halt(&vec![Vec::new(); 20]));
    assert_eq!(q.take_output(), vec![105, 0]);

    let mut late = Processor::new_with_memory(&image);
    let mut later = vec![Vec::new(); 6];
    later[3] = vec![9];
    later[4] = vec![10];
    assert!(late.execute_until_halt(&later));
    assert_eq!(late.take_output(), vec![0]);
    assert_eq!(late.get_buffer, vec![9]);
}

#[test]
fn bare_pushes_and_pops_leave_the_registers() {
    let mut p = Processor::new_with_memory(&[]);
    p.a = 0x33;
    p.b = 4;
    p.x = 5;
    p.status = 0b101;
    p.program_counter = 77;
    p.stack_pointer = 0xFFFE;
    p.memory[0x10] = 1;
    for op in [17u8, 17, 18, 17, 17, 18, 18, 18] {
        p.execute_single_width(op);
    }
    assert_eq!((p.a, p.b, p.x, p.status), (0x33, 4, 5, 0b101));
    assert_eq!(p.program_counter, 77);
    assert_eq!(p.stack_pointer, 0xFFFE);
    assert_eq!(p.memory[0xFFFE], 0x33);
    assert_eq!(p.memory[0xFFFF], 0x33);
    assert_eq!(p.memory[0], 0x33);
    assert_eq!(p.memory[1], 0);
    assert_eq!(p.memory[0x10], 1);
}
