//! What holds of every run of the processor: the stack discipline, the
//! return from a subroutine, and that a run is a function of the image and
//! the input.

use vstd::prelude::*;
use super::{fetch_address, with_zero, zero_of, Machine};

verus! {

impl Machine {
    /// The machine with the zero flag set from `A`, as after every
    /// instruction but a breakpoint.
    pub open spec fn settled(self) -> Machine {
        Machine { status: with_zero(self.status, self.a == 0), ..self }
    }

    /// The machine after the narrow operation `op`: as an instruction
    /// executed, with the zero flag set after it, where `executed` is set;
    /// else the bare operation.
    pub open spec fn done(self, op: u8, executed: bool) -> Machine {
        if executed {
            self.narrow(op).settled()
        } else {
            self.narrow(op)
        }
    }

    /// The machine after the narrow operations `ops`, one after the other.
    pub open spec fn after_each(self, ops: Seq<u8>, executed: bool) -> Machine
        decreases ops.len(),
    {
        if ops.len() == 0 {
            self
        } else {
            self.done(ops[0], executed).after_each(ops.drop_first(), executed)
        }
    }

    /// The machine after the narrow instructions `ops` were executed, one
    /// after the other.
    pub open spec fn after(self, ops: Seq<u8>) -> Machine {
        self.after_each(ops, true)
    }

    /// The machine after the bare narrow operations `ops`, one after the
    /// other: what as many calls of `execute_single_width` leave.
    pub open spec fn narrowed(self, ops: Seq<u8>) -> Machine {
        self.after_each(ops, false)
    }

    /// The machine after a run: before each instruction the host adds what
    /// has arrived, one element of `feeds`, to the input; the run ends
    /// where the machine halts or the feeds end.
    pub open spec fn run(self, feeds: Seq<Seq<u8>>) -> Machine
        decreases feeds.len(),
    {
        if feeds.len() == 0 || self.halted {
            self
        } else {
            self.fed(feeds[0]).step().run(feeds.drop_first())
        }
    }
}

/// How deep the stack stands after the pushes (`psa`, 17) and pops (`ppa`,
/// 18) of `ops`, from `depth` on; `None` where `ops` holds anything else or
/// pops more than was pushed.
pub open spec fn stack_depth(ops: Seq<u8>, depth: int) -> Option<int>
    decreases ops.len(),
{
    if ops.len() == 0 {
        Some(depth)
    } else if ops[0] == 17 {
        stack_depth(ops.drop_first(), depth + 1)
    } else if ops[0] == 18 && depth > 0 {
        stack_depth(ops.drop_first(), depth - 1)
    } else {
        None
    }
}

/// The deepest that the stack stands during the pushes and pops of `ops`,
/// from `depth` on.
pub open spec fn stack_peak(ops: Seq<u8>, depth: int) -> int
    decreases ops.len(),
{
    if ops.len() == 0 {
        depth
    } else if ops[0] == 17 {
        stack_peak(ops.drop_first(), depth + 1)
    } else {
        let later = stack_peak(ops.drop_first(), depth - 1);
        if later > depth {
            later
        } else {
            depth
        }
    }
}

/// Whether `ops` is a balanced sequence of pushes and pops: it never pops
/// more than it has pushed, and pops all of it in the end.
pub open spec fn balanced(ops: Seq<u8>) -> bool {
    stack_depth(ops, 0) == Some(0int)
}

/// The address of the `j`-th slot of a stack that starts at `base`.
pub open spec fn slot(base: int, j: int) -> int {
    (base + j) % 65536
}

/// Whether `address` is one of the first `count` slots of a stack that
/// starts at `base`.
pub open spec fn in_slots(base: int, count: int, address: int) -> bool {
    (address - base) % 65536 < count
}

/// Whether the machine `m` differs from `start` by a stack alone: `depth`
/// copies of `A` stand in the slots above where the stack pointer stood,
/// memory outside the first `peak` slots is as it was, and so is every
/// register; the status byte too, unless the flags were set after each
/// instruction.
pub open spec fn holds_copies(
    m: Machine,
    start: Machine,
    depth: int,
    peak: int,
    executed: bool,
) -> bool {
    &&& m.memory.len() == 65536
    &&& m.a == start.a
    &&& m.b == start.b
    &&& m.x == start.x
    &&& m.pc == start.pc
    &&& m.halted == start.halted
    &&& m.input == start.input
    &&& m.output == start.output
    &&& !executed ==> m.status == start.status
    &&& m.sp == slot(start.sp, depth)
    &&& forall|j: int| 0 <= j < depth ==> m.memory[#[trigger] slot(start.sp, j)] == start.a
    &&& forall|address: int|
        0 <= address < 65536 && !#[trigger] in_slots(start.sp, peak, address) ==> m.memory[address]
            == start.memory[address]
}

/// What a push of `A` leaves behind.
pub proof fn lemma_push_step(m: Machine, executed: bool)
    requires
        0 <= m.sp < 65536,
    ensures
        m.done(17, executed).memory == m.memory.update(m.sp, m.a),
        m.done(17, executed).sp == (m.sp + 1) % 65536,
        m.done(17, executed) == (Machine {
            memory: m.done(17, executed).memory,
            sp: m.done(17, executed).sp,
            status: m.done(17, executed).status,
            ..m
        }),
        !executed ==> m.done(17, executed).status == m.status,
{
}

/// What a pop into `A` leaves behind.
pub proof fn lemma_pop_step(m: Machine, executed: bool)
    requires
        0 <= m.sp < 65536,
    ensures
        m.done(18, executed).sp == (m.sp + 65535) % 65536,
        m.done(18, executed).a == m.memory[(m.sp + 65535) % 65536],
        m.done(18, executed) == (Machine {
            a: m.done(18, executed).a,
            sp: m.done(18, executed).sp,
            status: m.done(18, executed).status,
            ..m
        }),
        !executed ==> m.done(18, executed).status == m.status,
{
}

/// A stack of copies with one more copy pushed is a stack of copies, one
/// deeper.
pub proof fn lemma_copies_pushed(
    m: Machine,
    next: Machine,
    start: Machine,
    depth: int,
    peak: int,
    executed: bool,
)
    requires
        0 <= start.sp < 65536,
        0 <= depth < peak,
        holds_copies(m, start, depth, peak, executed),
        next == (Machine {
            memory: m.memory.update(m.sp, start.a),
            sp: (m.sp + 1) % 65536,
            status: next.status,
            ..m
        }),
        !executed ==> next.status == m.status,
    ensures
        holds_copies(next, start, depth + 1, peak, executed),
{
    assert(m.sp == slot(start.sp, depth));
    assert(in_slots(start.sp, peak, m.sp));
    assert forall|j: int| 0 <= j < depth + 1 implies next.memory[#[trigger] slot(start.sp, j)]
        == start.a by {
        if slot(start.sp, j) != m.sp {
            assert(j < depth);
            assert(m.memory[slot(start.sp, j)] == start.a);
        }
    }
    assert forall|address: int|
        0 <= address < 65536 && !#[trigger] in_slots(start.sp, peak, address) implies next.memory[address]
        == start.memory[address] by {
        assert(address != m.sp);
    }
}

/// A stack of copies with one copy popped is a stack of copies, one less
/// deep, and the copy popped is the value of `A`.
pub proof fn lemma_copies_popped(
    m: Machine,
    next: Machine,
    start: Machine,
    depth: int,
    peak: int,
    executed: bool,
)
    requires
        0 <= start.sp < 65536,
        0 < depth,
        holds_copies(m, start, depth, peak, executed),
        next == (Machine {
            a: m.memory[(m.sp + 65535) % 65536],
            sp: (m.sp + 65535) % 65536,
            status: next.status,
            ..m
        }),
        !executed ==> next.status == m.status,
    ensures
        holds_copies(next, start, depth - 1, peak, executed),
{
    assert((m.sp + 65535) % 65536 == slot(start.sp, depth - 1));
    assert(m.memory[slot(start.sp, depth - 1)] == start.a);
    assert forall|j: int| 0 <= j < depth - 1 implies next.memory[#[trigger] slot(start.sp, j)]
        == start.a by {
        assert(m.memory[slot(start.sp, j)] == start.a);
    }
    assert forall|address: int|
        0 <= address < 65536 && !#[trigger] in_slots(start.sp, peak, address) implies next.memory[address]
        == start.memory[address] by {
        assert(m.memory[address] == start.memory[address]);
    }
}

/// Pushes and pops of `A` that never pop more than was pushed leave a
/// stack of copies of `A`, as deep as they pushed more than they popped.
pub proof fn lemma_pushes_and_pops(
    m: Machine,
    start: Machine,
    ops: Seq<u8>,
    depth: int,
    peak: int,
    executed: bool,
)
    requires
        0 <= start.sp < 65536,
        0 <= depth,
        holds_copies(m, start, depth, peak, executed),
        stack_depth(ops, depth) is Some,
        stack_peak(ops, depth) <= peak,
    ensures
        holds_copies(
            m.after_each(ops, executed),
            start,
            stack_depth(ops, depth)->Some_0,
            peak,
            executed,
        ),
        stack_depth(ops, depth)->Some_0 >= 0,
    decreases ops.len(),
{
    if ops.len() > 0 {
        let next = m.done(ops[0], executed);
        let rest = ops.drop_first();
        if ops[0] == 17 {
            lemma_peak_reaches(rest, depth + 1);
            lemma_push_step(m, executed);
            lemma_copies_pushed(m, next, start, depth, peak, executed);
            lemma_pushes_and_pops(next, start, rest, depth + 1, peak, executed);
        } else {
            lemma_pop_step(m, executed);
            lemma_copies_popped(m, next, start, depth, peak, executed);
            lemma_pushes_and_pops(next, start, rest, depth - 1, peak, executed);
        }
    }
}

/// The peak is no lower than where the stack stands at the start.
pub proof fn lemma_peak_reaches(ops: Seq<u8>, depth: int)
    ensures
        stack_peak(ops, depth) >= depth,
    decreases ops.len(),
{
    if ops.len() > 0 && ops[0] == 17 {
        lemma_peak_reaches(ops.drop_first(), depth + 1);
    }
}

/// The stack discipline. After pushes and pops of `A` that never pop more
/// than was pushed, executed as instructions or as bare operations:
/// `A` holds what it held; the stack pointer stands as many slots above
/// where it stood as was pushed more than popped, modulo 65536; those
/// slots hold copies of `A`; memory outside the slots that the stack
/// reached at its deepest is as it was; and so are the other registers,
/// the status byte too where the operations were bare.
pub proof fn lemma_stack_discipline(m: Machine, ops: Seq<u8>, executed: bool)
    requires
        m.wf(),
        stack_depth(ops, 0) is Some,
    ensures
        holds_copies(
            m.after_each(ops, executed),
            m,
            stack_depth(ops, 0)->Some_0,
            stack_peak(ops, 0),
            executed,
        ),
{
    lemma_pushes_and_pops(m, m, ops, 0, stack_peak(ops, 0), executed);
}

/// After a balanced sequence of pushes and pops of `A`, executed as
/// instructions, `A` holds what it held before and the stack pointer
/// stands where it stood.
pub proof fn lemma_balanced_stack(m: Machine, ops: Seq<u8>)
    requires
        m.wf(),
        balanced(ops),
    ensures
        m.after(ops).a == m.a,
        m.after(ops).sp == m.sp,
{
    lemma_stack_discipline(m, ops, true);
}

/// After a balanced sequence of pushes and pops of `A` as bare operations,
/// what as many calls of `execute_single_width` do, every register and the
/// status byte are as they were.
pub proof fn lemma_balanced_operations(m: Machine, ops: Seq<u8>)
    requires
        m.wf(),
        balanced(ops),
    ensures
        m.narrowed(ops) == (Machine { memory: m.narrowed(ops).memory, ..m }),
{
    lemma_stack_discipline(m, ops, false);
}

/// What a `jsr` leaves on the stack: the address of the byte behind it,
/// high byte on top, and the stack pointer two slots up.
pub proof fn lemma_call_step(m: Machine)
    requires
        m.wf(),
        m.opcode() >= 128,
        m.opcode() & 0x07 == 3,
        fetch_address(m.pc) + 3 <= 65535,
    ensures
        m.step().sp == (m.sp + 2) % 65536,
        m.step().top() == ((fetch_address(m.pc) + 3) / 256) as u8,
        m.step().popped().top() == ((fetch_address(m.pc) + 3) % 256) as u8,
{
    let at = Machine { pc: fetch_address(m.pc), ..m };
    let next = Machine { pc: at.pc + 3, ..at };
    let back = next.pc % 65536;
    let low = next.pushed((back % 256) as u8);
    let both = low.pushed((back / 256) as u8);
    assert(m.opcode() != 23);
    assert(low.sp == (m.sp + 1) % 65536);
    assert(both.sp == (m.sp + 2) % 65536);
    assert(both.memory == m.memory.update(m.sp, (back % 256) as u8).update(
        (m.sp + 1) % 65536,
        (back / 256) as u8,
    ));
    assert(m.step().memory == both.memory);
    assert(m.step().sp == both.sp);
}

/// What an `rts` does: it takes the high byte and then the low byte of the
/// program counter off the stack.
pub proof fn lemma_return_step(n: Machine)
    requires
        n.wf(),
        n.opcode() == 24,
    ensures
        n.step().pc == n.top() * 256 + n.popped().top(),
        n.step().sp == (n.sp + 65534) % 65536,
{
    let at = Machine { pc: fetch_address(n.pc) + 1, ..n };
    assert(at.top() == n.top());
    assert(at.popped().top() == n.popped().top());
    assert(at.popped().popped().sp == (n.sp + 65534) % 65536);
}

/// The two bytes of an address give the address back, and two slots down
/// from two slots up is where the stack pointer stood.
pub proof fn lemma_bytes_join(back: int, sp: int)
    requires
        0 <= back <= 65535,
        0 <= sp < 65536,
    ensures
        ((back / 256) as u8) * 256 + ((back % 256) as u8) == back,
        ((sp + 2) % 65536 + 65534) % 65536 == sp,
{
}

/// A subroutine returns behind its call. Let `m` stand at a `jsr` whose
/// return address fits 16 bits, and let `n` stand at an `rts` with the
/// stack as the `jsr` left it: the stack pointer and the two bytes below
/// it. Then after the `rts` the program counter stands at the byte after
/// the `jsr`, and the stack pointer where it stood before the `jsr`.
pub proof fn lemma_call_and_return(m: Machine, n: Machine)
    requires
        m.wf(),
        n.wf(),
        m.opcode() >= 128,
        m.opcode() & 0x07 == 3,
        fetch_address(m.pc) + 3 <= 65535,
        n.opcode() == 24,
        n.sp == m.step().sp,
        n.top() == m.step().top(),
        n.popped().top() == m.step().popped().top(),
    ensures
        n.step().pc == fetch_address(m.pc) + 3,
        n.step().sp == m.sp,
{
    lemma_call_step(m);
    lemma_return_step(n);
    lemma_bytes_join(fetch_address(m.pc) + 3, m.sp);
}

/// After every instruction but a breakpoint the zero flag tells whether
/// `A` is zero.
pub proof fn lemma_zero_flag(m: Machine)
    requires
        !m.at_break(),
    ensures
        zero_of(m.step().status) == (m.step().a == 0),
{
    let after = if m.opcode() < 128 {
        Machine { pc: fetch_address(m.pc) + 1, ..m }.narrow(m.opcode())
    } else {
        Machine { pc: fetch_address(m.pc), ..m }.wide(m.opcode())
    };
    let status = after.status;
    assert((status | 2) & 2 != 0) by (bit_vector);
    assert((status & 0xFD) & 2 == 0) by (bit_vector);
}

/// A run is a function of the image and of the input: two machines loaded
/// with one image and fed the same bytes at the same steps end in the same
/// state. `Processor::execute_until_halt` is such a run.
pub proof fn lemma_run_is_deterministic(image: Seq<u8>, feeds: Seq<Seq<u8>>, p: Machine, q: Machine)
    requires
        p == Machine::loaded(image),
        q == Machine::loaded(image),
    ensures
        p.run(feeds) == q.run(feeds),
{
}

} // verus!
