//! The processor: three 8-bit registers, a status byte, a program counter,
//! a stack pointer and 64 KiB of memory, and the interpreter that steps
//! through an image.
//!
//! The processor does no input or output of its own. `put` appends to the
//! write buffer, which the host empties; `get` and `gbf` read the input
//! buffer, which the host fills.

pub mod laws;

use vstd::prelude::*;
use vstd::string::*;
use crate::text::{binary, binary_text, hex, hex_text};
use crate::utils::{bytes_to_16, u16_to_bytes};

verus! {

/// The size of the memory.
pub const MEMORY_SIZE: usize = 65536;

/// The state of the virtual machine.
pub struct Processor {
    pub memory: [u8; 65536],
    pub a: u8,
    pub b: u8,
    pub x: u8,
    /// The address of the next instruction. It may stand past the end of
    /// the memory after an instruction at the very end; the next fetch
    /// brings it back.
    pub program_counter: usize,
    /// Bit 0 is the carry flag, bit 1 the zero flag.
    pub status: u8,
    pub halted: bool,
    /// The next free slot of the stack, which grows upward. Only its value
    /// modulo 65536 counts; every push and pop leaves it within 0..65536.
    pub stack_pointer: usize,
    /// The bytes that `put` wrote and the host has not taken yet.
    pub write_buffer: Vec<u8>,
    /// The bytes of input that the program has not read yet.
    pub get_buffer: Vec<u8>,
}

/// The mathematical image of a [`Processor`].
pub struct Machine {
    /// The 65536 bytes of the memory.
    pub memory: Seq<u8>,
    pub a: u8,
    pub b: u8,
    pub x: u8,
    /// The program counter as it stands.
    pub pc: int,
    /// The stack pointer as it stands. Only its value modulo 65536
    /// counts; every push and pop leaves it within 0..65536.
    pub sp: int,
    pub status: u8,
    pub halted: bool,
    /// The input not yet read.
    pub input: Seq<u8>,
    /// The output written so far and not yet taken.
    pub output: Seq<u8>,
}

impl View for Processor {
    type V = Machine;

    open spec fn view(&self) -> Machine {
        Machine {
            memory: self.memory@,
            a: self.a,
            b: self.b,
            x: self.x,
            pc: self.program_counter as int,
            sp: self.stack_pointer as int,
            status: self.status,
            halted: self.halted,
            input: self.get_buffer@,
            output: self.write_buffer@,
        }
    }
}

/// The address that a program counter fetches from: the counter itself
/// within the memory, and the counter modulo 65535 past its end.
pub open spec fn fetch_address(pc: int) -> int {
    if pc > 65535 {
        pc % 65535
    } else {
        pc
    }
}

/// The 16-bit value with high byte `hi` and low byte `lo`.
pub open spec fn be16(hi: u8, lo: u8) -> int {
    hi * 256 + lo
}

/// The status byte with the carry flag set to `carry`.
pub open spec fn with_carry(status: u8, carry: bool) -> u8 {
    if carry {
        status | 1
    } else {
        status & 0xFE
    }
}

/// The status byte with the zero flag set to `zero`.
pub open spec fn with_zero(status: u8, zero: bool) -> u8 {
    if zero {
        status | 2
    } else {
        status & 0xFD
    }
}

/// The carry flag as a number.
pub open spec fn carry_of(status: u8) -> u8 {
    status & 1
}

/// Whether the zero flag is set.
pub open spec fn zero_of(status: u8) -> bool {
    status & 2 != 0
}

impl Machine {
    /// Whether the memory has its size and the pointers are in range.
    pub open spec fn wf(self) -> bool {
        &&& self.memory.len() == 65536
        &&& 0 <= self.sp < 65536
        &&& 0 <= self.pc
    }

    /// The machine that starts on `image`: the image at address 0, zeros
    /// after it, and everything else zero.
    pub open spec fn loaded(image: Seq<u8>) -> Machine {
        Machine {
            memory: Seq::new(
                65536,
                |i: int|
                    if i < image.len() {
                        image[i]
                    } else {
                        0u8
                    },
            ),
            a: 0,
            b: 0,
            x: 0,
            pc: 0,
            sp: 0,
            status: 0,
            halted: false,
            input: Seq::empty(),
            output: Seq::empty(),
        }
    }

    /// The machine with `bytes` added to its input.
    pub open spec fn fed(self, bytes: Seq<u8>) -> Machine {
        Machine { input: self.input + bytes, ..self }
    }

    /// The machine with its output taken.
    pub open spec fn drained(self) -> Machine {
        Machine { output: Seq::empty(), ..self }
    }

    /// The address that the stack pointer stands for.
    pub open spec fn stack_top(self) -> int {
        self.sp % 65536
    }

    /// The machine after a push of `byte`: the byte is written at the stack
    /// pointer, which moves up by one, modulo 65536.
    pub open spec fn pushed(self, byte: u8) -> Machine {
        Machine {
            memory: self.memory.update(self.stack_top(), byte),
            sp: (self.stack_top() + 1) % 65536,
            ..self
        }
    }

    /// The byte that a pop yields: the one below the stack pointer.
    pub open spec fn top(self) -> u8 {
        self.memory[(self.stack_top() + 65535) % 65536]
    }

    /// The machine after a pop: the stack pointer moves down by one,
    /// modulo 65536.
    pub open spec fn popped(self) -> Machine {
        Machine { sp: (self.stack_top() + 65535) % 65536, ..self }
    }

    /// The machine after the narrow operation `opcode`, the program counter
    /// standing behind the opcode. The opcodes that stand for nothing do
    /// nothing.
    pub open spec fn narrow(self, opcode: u8) -> Machine {
        if opcode == 1 {
            Machine { halted: true, ..self }
        } else if opcode == 2 {
            Machine { a: self.b, b: self.a, ..self }
        } else if opcode == 3 {
            Machine { b: self.a, ..self }
        } else if opcode == 4 {
            Machine { x: self.a, ..self }
        } else if opcode == 5 {
            Machine { a: self.x, ..self }
        } else if opcode == 6 {
            Machine { x: ((self.x + 1) % 256) as u8, ..self }
        } else if opcode == 7 {
            Machine { x: ((self.x + 255) % 256) as u8, ..self }
        } else if opcode == 8 {
            let sum = self.a + self.b + carry_of(self.status);
            Machine { a: (sum % 256) as u8, status: with_carry(self.status, sum > 255), ..self }
        } else if opcode == 12 {
            Machine {
                a: (self.a << 1) | carry_of(self.status),
                status: with_carry(self.status, self.a & 128 != 0),
                ..self
            }
        } else if opcode == 13 {
            Machine {
                a: (self.a >> 1) | (carry_of(self.status) << 7),
                status: with_carry(self.status, self.a & 1 != 0),
                ..self
            }
        } else if opcode == 14 {
            Machine { status: with_carry(self.status, false), ..self }
        } else if opcode == 15 {
            Machine { status: with_carry(self.status, true), ..self }
        } else if opcode == 16 {
            Machine { output: self.output.push(self.a), ..self }
        } else if opcode == 17 {
            self.pushed(self.a)
        } else if opcode == 18 {
            Machine { a: self.top(), ..self.popped() }
        } else if opcode == 19 {
            Machine { a: self.status, ..self }
        } else if opcode == 20 {
            Machine { status: self.a, ..self }
        } else if opcode == 21 {
            Machine { sp: be16(self.a, self.b), ..self }
        } else if opcode == 22 {
            Machine {
                a: (self.stack_top() / 256) as u8,
                b: (self.stack_top() % 256) as u8,
                ..self
            }
        } else if opcode == 24 {
            let hi = self.top();
            let lo = self.popped().top();
            Machine { pc: be16(hi, lo), ..self.popped().popped() }
        } else if opcode == 25 {
            Machine { a: self.memory[fetch_address(self.pc)], pc: self.pc + 1, ..self }
        } else if opcode == 26 {
            if self.input.len() > 0 {
                Machine { a: self.input[0], input: self.input.drop_first(), ..self }
            } else {
                Machine { a: 0, ..self }
            }
        } else if opcode == 27 {
            Machine { a: !self.a, ..self }
        } else if opcode == 28 {
            Machine { a: self.a & self.b, ..self }
        } else if opcode == 29 {
            Machine { a: self.a | self.b, ..self }
        } else if opcode == 30 {
            Machine { a: self.a ^ self.b, ..self }
        } else if opcode == 31 {
            Machine {
                a: if self.input.len() > 255 {
                    255u8
                } else {
                    self.input.len() as u8
                },
                status: with_carry(self.status, self.input.len() > 255),
                ..self
            }
        } else {
            self
        }
    }

    /// The address that the wide instruction at the program counter works
    /// on: the operand, high byte first; where the opcode is indirect, the
    /// address found at the operand; and where it is indexed, that plus
    /// `X`, modulo 65536.
    pub open spec fn effective_address(self, opcode: u8) -> int {
        let base = be16(
            self.memory[fetch_address(self.pc + 1)],
            self.memory[fetch_address(self.pc + 2)],
        );
        let addr = if opcode & 0x10 != 0 {
            be16(self.memory[base], self.memory[(base + 1) % 65536])
        } else {
            base
        };
        if opcode & 0x08 != 0 {
            (addr + self.x) % 65536
        } else {
            addr
        }
    }

    /// The machine after the wide operation `opcode`, the program counter
    /// standing at the opcode. The counter moves behind the operand; then
    /// bits 2..0 of the opcode select what is done with the address.
    pub open spec fn wide(self, opcode: u8) -> Machine {
        let addr = self.effective_address(opcode);
        let next = Machine { pc: self.pc + 3, ..self };
        let selector = opcode & 0x07;
        if selector == 0 {
            Machine { a: self.memory[addr], ..next }
        } else if selector == 1 {
            Machine { memory: self.memory.update(addr, self.a), ..next }
        } else if selector == 2 {
            Machine { pc: addr, ..next }
        } else if selector == 3 {
            let back = next.pc % 65536;
            Machine { pc: addr, ..next.pushed((back % 256) as u8).pushed((back / 256) as u8) }
        } else if selector == 4 {
            if zero_of(self.status) {
                Machine { pc: addr, ..next }
            } else {
                next
            }
        } else if selector == 5 {
            if self.a > self.b {
                Machine { pc: addr, ..next }
            } else {
                next
            }
        } else {
            next
        }
    }

    /// The opcode that the program counter stands at.
    pub open spec fn opcode(self) -> u8 {
        self.memory[fetch_address(self.pc)]
    }

    /// Whether the next instruction is a breakpoint.
    pub open spec fn at_break(self) -> bool {
        self.opcode() == 23
    }

    /// Whether the next instruction reads the input buffer.
    pub open spec fn wants_input(self) -> bool {
        self.opcode() == 26 || self.opcode() == 31
    }

    /// The machine after one instruction. A breakpoint only moves the
    /// program counter on. Any other instruction is executed, narrow where
    /// bit 7 of the opcode is clear and wide where it is set, and the zero
    /// flag is then set from `A`.
    pub open spec fn step(self) -> Machine {
        let at = Machine { pc: fetch_address(self.pc), ..self };
        let opcode = self.opcode();
        if opcode == 23 {
            Machine { pc: at.pc + 1, ..at }
        } else {
            let after = if opcode < 128 {
                Machine { pc: at.pc + 1, ..at }.narrow(opcode)
            } else {
                at.wide(opcode)
            };
            Machine { status: with_zero(after.status, after.a == 0), ..after }
        }
    }
}

/// The readout of the registers: one line for each of `A`, `B`, `X`, the
/// program counter and the stack pointer, in hexadecimal, and the status
/// byte in binary under the letters of its flags.
pub open spec fn readout_text(a: u8, b: u8, x: u8, pc: usize, sp: usize, status: u8) -> Seq<char> {
    "a :   0x"@ + hex_text(a as nat, 2) + "\nb :   0x"@ + hex_text(b as nat, 2) + "\nx :   0x"@
        + hex_text(x as nat, 2) + "\npc: 0x"@ + hex_text(pc as nat, 4) + "\nsp: 0x"@ + hex_text(
        sp as nat,
        4,
    ) + "\n      ------zc\ns : 0b"@ + binary_text(status as nat, 8) + "\n"@
}

/// The bytes of each element of a recorded input.
pub open spec fn feed_views(feeds: Seq<Vec<u8>>) -> Seq<Seq<u8>> {
    feeds.map_values(|f: Vec<u8>| f@)
}

/// The address that a program counter fetches from.
pub fn fetch(pc: usize) -> (r: usize)
    ensures
        r == fetch_address(pc as int),
        r < 65536,
{
    if pc > 65535 {
        pc % 65535
    } else {
        pc
    }
}

/// The status byte with the carry flag set to `carry`.
pub fn set_carry(status: u8, carry: bool) -> (r: u8)
    ensures
        r == with_carry(status, carry),
{
    if carry {
        status | 1
    } else {
        status & 0xFE
    }
}

impl Default for Processor {
    fn default() -> (p: Processor)
        ensures
            p@ == Machine::loaded(Seq::empty()),
            p.program_counter == 0,
            p.stack_pointer == 0,
    {
        let p = Processor {
            memory: [0u8;65536],
            a: 0,
            b: 0,
            x: 0,
            program_counter: 0,
            status: 0,
            halted: false,
            stack_pointer: 0,
            write_buffer: Vec::new(),
            get_buffer: Vec::new(),
        };
        assert(p@.memory =~= Machine::loaded(Seq::empty()).memory);
        p
    }
}

impl Processor {
    /// A processor with `mem` loaded at address 0 and everything else zero.
    pub fn new_with_memory(mem: &[u8]) -> (p: Processor)
        requires
            mem@.len() <= 65536,
        ensures
            p@ == Machine::loaded(mem@),
            p.program_counter == 0,
            p.stack_pointer == 0,
    {
        let mut p = Self::default();
        let mut i: usize = 0;
        while i < mem.len()
            invariant
                i <= mem@.len() <= 65536,
                p@ == (Machine { memory: p.memory@, ..Machine::loaded(Seq::empty()) }),
                p.program_counter == 0,
                p.stack_pointer == 0,
                forall|j: int| 0 <= j < i ==> p.memory@[j] == mem@[j],
                forall|j: int| i <= j < 65536 ==> p.memory@[j] == 0,
            decreases mem@.len() - i,
        {
            p.memory[i] = mem[i];
            i += 1;
        }
        assert(p@.memory =~= Machine::loaded(mem@).memory);
        p
    }

    /// The registers, written out for a person to read.
    pub fn readout(&self) -> (r: String)
        ensures
            r@ == readout_text(
                self.a,
                self.b,
                self.x,
                self.program_counter,
                self.stack_pointer,
                self.status,
            ),
    {
        let mut ret = String::from_str("a :   0x");
        ret.append(hex(self.a as usize, 2).as_str());
        ret.append("\nb :   0x");
        ret.append(hex(self.b as usize, 2).as_str());
        ret.append("\nx :   0x");
        ret.append(hex(self.x as usize, 2).as_str());
        ret.append("\npc: 0x");
        ret.append(hex(self.program_counter, 4).as_str());
        ret.append("\nsp: 0x");
        ret.append(hex(self.stack_pointer, 4).as_str());
        ret.append("\n      ------zc\ns : 0b");
        ret.append(binary(self.status as usize, 8).as_str());
        ret.append("\n");
        ret
    }

    /// Adds `incoming`, the bytes that have arrived, to the input buffer.
    pub fn update_input_buf(&mut self, incoming: &[u8])
        ensures
            final(self)@ == old(self)@.fed(incoming@),
            final(self).program_counter == old(self).program_counter,
    {
        let mut i: usize = 0;
        while i < incoming.len()
            invariant
                i <= incoming@.len(),
                self.get_buffer@ == old(self).get_buffer@ + incoming@.take(i as int),
                self@ == (Machine { input: self.get_buffer@, ..old(self)@ }),
                self.program_counter == old(self).program_counter,
            decreases incoming@.len() - i,
        {
            self.get_buffer.push(incoming[i]);
            assert(incoming@.take(i + 1) =~= incoming@.take(i as int).push(incoming@[i as int]));
            i += 1;
        }
        assert(incoming@.take(i as int) =~= incoming@);
    }

    /// Hands out the bytes that `put` wrote since the last call.
    pub fn take_output(&mut self) -> (r: Vec<u8>)
        ensures
            r@ == old(self)@.output,
            final(self)@ == old(self)@.drained(),
            final(self).program_counter == old(self).program_counter,
    {
        let mut out: Vec<u8> = Vec::new();
        core::mem::swap(&mut out, &mut self.write_buffer);
        out
    }

    /// Tells whether the next instruction reads the input buffer, so that
    /// the host can bring the buffer up to date first.
    pub fn wants_input(&self) -> (r: bool)
        ensures
            r == self@.wants_input(),
    {
        let opcode = self.memory[fetch(self.program_counter)];
        opcode == 26 || opcode == 31
    }

    /// Pushes `byte` on the stack.
    pub fn push(&mut self, byte: u8)
        ensures
            final(self)@ == old(self)@.pushed(byte),
            final(self).program_counter == old(self).program_counter,
    {
        let sp = self.stack_pointer % 65536;
        self.memory[sp] = byte;
        self.stack_pointer = (sp + 1) % 65536;
    }

    /// Pops a byte off the stack.
    pub fn pop(&mut self) -> (byte: u8)
        ensures
            byte == old(self)@.top(),
            final(self)@ == old(self)@.popped(),
            final(self).program_counter == old(self).program_counter,
    {
        let sp = (self.stack_pointer % 65536 + 65535) % 65536;
        self.stack_pointer = sp;
        self.memory[sp]
    }

    /// Executes the narrow operation `instr`, the program counter standing
    /// behind the opcode.
    pub fn execute_single_width(&mut self, instr: u8)
        requires
            old(self).program_counter < usize::MAX,
        ensures
            final(self)@ == old(self)@.narrow(instr),
    {
        if instr == 1 {
            self.halted = true;
        } else if instr == 2 {
            let tmp = self.a;
            self.a = self.b;
            self.b = tmp;
        } else if instr == 3 {
            self.b = self.a;
        } else if instr == 4 {
            self.x = self.a;
        } else if instr == 5 {
            self.a = self.x;
        } else if instr == 6 {
            if self.x == 255 {
                self.x = 0;
            } else {
                self.x += 1;
            }
        } else if instr == 7 {
            if self.x == 0 {
                self.x = 255;
            } else {
                self.x -= 1;
            }
        } else if instr == 8 {
            let status: u8 = self.status;
            let carry: u8 = status & 1;
            assert(carry <= 1) by (bit_vector)
                requires
                    carry == status & 1,
            ;
            let sum: u16 = self.a as u16 + self.b as u16 + carry as u16;
            self.status = set_carry(self.status, sum > 255);
            self.a = (sum % 256) as u8;
        } else if instr == 12 {
            let carry: u8 = self.status & 1;
            self.status = set_carry(self.status, self.a & 128 != 0);
            self.a = (self.a << 1) | carry;
        } else if instr == 13 {
            let carry: u8 = self.status & 1;
            self.status = set_carry(self.status, self.a & 1 != 0);
            self.a = (self.a >> 1) | (carry << 7);
        } else if instr == 14 {
            self.status = set_carry(self.status, false);
        } else if instr == 15 {
            self.status = set_carry(self.status, true);
        } else if instr == 16 {
            self.write_buffer.push(self.a);
        } else if instr == 17 {
            self.push(self.a);
        } else if instr == 18 {
            self.a = self.pop();
        } else if instr == 19 {
            self.a = self.status;
        } else if instr == 20 {
            self.status = self.a;
        } else if instr == 21 {
            self.stack_pointer = bytes_to_16(self.a, self.b) as usize;
        } else if instr == 22 {
            let (hi, lo) = u16_to_bytes((self.stack_pointer % 65536) as u16);
            self.a = hi;
            self.b = lo;
        } else if instr == 24 {
            let hi = self.pop();
            let lo = self.pop();
            self.program_counter = bytes_to_16(hi, lo) as usize;
        } else if instr == 25 {
            self.a = self.memory[fetch(self.program_counter)];
            self.program_counter += 1;
        } else if instr == 26 {
            if self.get_buffer.len() > 0 {
                self.a = self.get_buffer.remove(0);
                assert(self.get_buffer@ =~= old(self).get_buffer@.drop_first());
            } else {
                self.a = 0;
            }
        } else if instr == 27 {
            self.a = !self.a;
        } else if instr == 28 {
            self.a = self.a & self.b;
        } else if instr == 29 {
            self.a = self.a | self.b;
        } else if instr == 30 {
            self.a = self.a ^ self.b;
        } else if instr == 31 {
            let fill = self.get_buffer.len();
            self.a = if fill > 255 {
                255
            } else {
                fill as u8
            };
            self.status = set_carry(self.status, fill > 255);
        }
    }

    /// Executes the wide operation `instr`, the program counter standing at
    /// the opcode.
    pub fn execute_wide(&mut self, instr: u8)
        requires
            old(self).program_counter <= usize::MAX - 3,
        ensures
            final(self)@ == old(self)@.wide(instr),
    {
        let op1 = self.memory[fetch(self.program_counter + 1)];
        let op2 = self.memory[fetch(self.program_counter + 2)];
        self.program_counter += 3;
        let base = bytes_to_16(op1, op2) as usize;
        let mut addr: usize = if instr & 0x10 != 0 {
            let hb = self.memory[base];
            let lb = self.memory[(base + 1) % 65536];
            bytes_to_16(hb, lb) as usize
        } else {
            base
        };
        if instr & 0x08 != 0 {
            addr = (addr + self.x as usize) % 65536;
        }
        let selector: u8 = instr & 0x07;
        if selector == 0 {
            self.a = self.memory[addr];
        } else if selector == 1 {
            self.memory[addr] = self.a;
        } else if selector == 2 {
            self.program_counter = addr;
        } else if selector == 3 {
            let (hb, lb) = u16_to_bytes((self.program_counter % 65536) as u16);
            self.push(lb);
            self.push(hb);
            self.program_counter = addr;
        } else if selector == 4 {
            if self.status & 2 != 0 {
                self.program_counter = addr;
            }
        } else if selector == 5 {
            if self.a > self.b {
                self.program_counter = addr;
            }
        }
    }

    /// Runs on a recorded input: before each instruction the next element
    /// of `feeds` is added to the input buffer; the run ends where the
    /// processor halts or the feeds end. Tells whether it halted.
    pub fn execute_until_halt(&mut self, feeds: &Vec<Vec<u8>>) -> (halted: bool)
        ensures
            final(self)@ == old(self)@.run(feed_views(feeds@)),
            halted == final(self).halted,
    {
        let ghost all = feed_views(feeds@);
        let mut i: usize = 0;
        assert(all.skip(0) =~= all);
        while i < feeds.len() && !self.halted
            invariant
                i <= feeds.len(),
                all == feed_views(feeds@),
                self@.run(all.skip(i as int)) == old(self)@.run(all),
            decreases feeds.len() - i,
        {
            let ghost rest = all.skip(i as int);
            assert(rest.drop_first() =~= all.skip(i + 1));
            assert(rest[0] == feeds@[i as int]@);
            self.update_input_buf(feeds[i].as_slice());
            self.execute();
            i += 1;
        }
        self.halted
    }

    /// Executes one instruction and tells whether it was a breakpoint.
    /// After every instruction but a breakpoint the zero flag tells whether
    /// `A` is zero.
    pub fn execute(&mut self) -> (brk: bool)
        ensures
            final(self)@ == old(self)@.step(),
            brk == old(self)@.at_break(),
            !brk ==> zero_of(final(self).status) == (final(self).a == 0),
    {
        self.program_counter = fetch(self.program_counter);
        let instr = self.memory[self.program_counter];
        if instr == 23 {
            self.program_counter += 1;
            return true;
        }
        if instr < 128 {
            self.program_counter += 1;
            self.execute_single_width(instr);
        } else {
            self.execute_wide(instr);
        }
        let status = self.status;
        if self.a == 0 {
            self.status = status | 2;
            assert((status | 2) & 2 != 0) by (bit_vector);
        } else {
            self.status = status & 0xFD;
            assert((status & 0xFD) & 2 == 0) by (bit_vector);
        }
        false
    }
}

} // verus!
