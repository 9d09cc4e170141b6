//! The stack machine. The library decides each step: which instruction comes
//! next, what moves on and off the stack, and which arithmetic is due. The
//! arithmetic itself is on doubles, and is done by the caller, which hands
//! the result back with `push_value`. Values are held as the bit patterns of
//! doubles, as in `chunk`.

use vstd::prelude::*;
use crate::chunk::{byte_opcode, Chunk, OPCODE};
use crate::compiler::{compiler, Listing};

verus! {

/// The outcome of interpreting a source text.
#[derive(Debug, Clone, Copy, PartialEq, Eq, Structural)]
pub enum INTERPRETRESULT {
    INTERPRETOK,
    INTERPRETCOMPILEERROR,
    INTERPRETRUNTIMEERROR,
}

/// An arithmetic instruction on two operands.
#[derive(Debug, Clone, Copy, PartialEq, Eq, Structural)]
pub enum Arithmetic {
    ADD,
    SUB,
    MUL,
    DIVIDE,
}

/// What one step of the machine did, and what it leaves to the caller.
#[derive(Debug, Clone, Copy, PartialEq, Eq, Structural)]
pub enum Step {
    /// `OPRETURN` popped this value; the run ends.
    Returned(u64),
    /// `OPCONSTANT` pushed this constant.
    Pushed(u64),
    /// `OPNEGATE` popped this value; its negation is to be pushed.
    Negate(u64),
    /// An arithmetic instruction popped `a`, then `b`; `op` applied to `a`
    /// and `b`, in that order, is to be pushed.
    Binary(Arithmetic, u64, u64),
}

/// The arithmetic an opcode stands for, if any.
pub open spec fn arithmetic_of(op: OPCODE) -> Option<Arithmetic> {
    match op {
        OPCODE::OPADD => Some(Arithmetic::ADD),
        OPCODE::OPSUB => Some(Arithmetic::SUB),
        OPCODE::OPMUL => Some(Arithmetic::MUL),
        OPCODE::OPDIVIDE => Some(Arithmetic::DIVIDE),
        _ => None,
    }
}

/// The machine: the next instruction to run, and the value stack.
pub struct Vm {
    pub ip: usize,
    pub stack: Vec<u64>,
}

impl Vm {
    /// The machine can run the instruction at `ip` in chunk `c`: the byte is
    /// an opcode, an `OPCONSTANT` has an operand that indexes a constant, and
    /// the stack holds the operands the instruction pops.
    pub open spec fn steppable(&self, c: &Chunk) -> bool {
        &&& self.ip < c.code.len()
        &&& c.code@[self.ip as int] < 7
        &&& match byte_opcode(c.code@[self.ip as int]) {
            OPCODE::OPCONSTANT => {
                &&& self.ip + 1 < c.code.len()
                &&& c.code@[self.ip + 1] < c.constants.values.len()
            },
            OPCODE::OPRETURN | OPCODE::OPNEGATE => self.stack.len() >= 1,
            _ => self.stack.len() >= 2,
        }
    }

    /// A machine at the start, with an empty stack.
    pub fn new_vm() -> (vm: Vm)
        ensures
            vm.ip == 0,
            vm.stack@ == Seq::<u64>::empty(),
    {
        Vm { ip: 0, stack: Vec::with_capacity(256) }
    }

    /// Interprets `source`: it is compiled, which lists its tokens, and the
    /// result is `INTERPRETOK`. The machine is left as it was.
    pub fn interpret(&mut self, source: String) -> (r: (INTERPRETRESULT, Listing))
        requires
            source@.len() < usize::MAX,
        ensures
            r.0 == INTERPRETRESULT::INTERPRETOK,
            r.1.lists(source@),
            final(self).ip == old(self).ip,
            final(self).stack@ == old(self).stack@,
    {
        let compiler = compiler::new();
        let listing = compiler.compile(&source);
        (INTERPRETRESULT::INTERPRETOK, listing)
    }

    /// Reads the instruction at `ip` and moves past it.
    pub fn read_byte(&mut self, c: &Chunk) -> (ins: OPCODE)
        requires
            old(self).ip < c.code.len(),
            c.code@[old(self).ip as int] < 7,
        ensures
            ins == byte_opcode(c.code@[old(self).ip as int]),
            final(self).ip == old(self).ip + 1,
            final(self).stack@ == old(self).stack@,
    {
        let ins: OPCODE = OPCODE::from(c.read_chunk_byte(self.ip));
        self.ip += 1;
        ins
    }

    /// Reads the constant whose index is the byte at `ip`, and moves past
    /// that byte.
    pub fn read_constants(&mut self, c: &Chunk) -> (v: u64)
        requires
            old(self).ip < c.code.len(),
            c.code@[old(self).ip as int] < c.constants.values.len(),
        ensures
            v == c.constants.values@[c.code@[old(self).ip as int] as int],
            final(self).ip == old(self).ip + 1,
            final(self).stack@ == old(self).stack@,
    {
        let index = c.read_chunk_byte(self.ip);
        self.ip += 1;
        c.get_constant(index as usize)
    }

    /// Empties the stack.
    pub fn reset_stack(&mut self)
        ensures
            final(self).stack@ == Seq::<u64>::empty(),
            final(self).ip == old(self).ip,
    {
        self.stack = Vec::new();
    }

    /// Pops the two operands of an arithmetic instruction: first `a`, the
    /// top, then `b`.
    pub fn binary_op(&mut self) -> (operands: (u64, u64))
        requires
            old(self).stack.len() >= 2,
        ensures
            operands.0 == old(self).stack@[old(self).stack.len() - 1],
            operands.1 == old(self).stack@[old(self).stack.len() - 2],
            final(self).stack@ == old(self).stack@.subrange(0, old(self).stack.len() - 2),
            final(self).ip == old(self).ip,
    {
        let a = self.pop_value();
        let b = self.pop_value();
        (a, b)
    }

    /// Pops the top of the stack.
    fn pop_value(&mut self) -> (v: u64)
        requires
            old(self).stack.len() >= 1,
        ensures
            v == old(self).stack@.last(),
            final(self).stack@ == old(self).stack@.drop_last(),
            final(self).ip == old(self).ip,
    {
        self.stack.pop().unwrap()
    }

    /// Pushes a value: the result of the arithmetic that a step left to the
    /// caller.
    pub fn push_value(&mut self, v: u64)
        ensures
            final(self).stack@ == old(self).stack@.push(v),
            final(self).ip == old(self).ip,
    {
        self.stack.push(v);
    }

    /// Whether the instruction at `ip` can be run.
    pub fn can_step(&self, c: &Chunk) -> (b: bool)
        ensures
            b == self.steppable(c),
    {
        if self.ip >= c.code.len() {
            return false;
        }
        let byte = c.code[self.ip];
        if byte >= 7 {
            return false;
        }
        match OPCODE::from(byte) {
            OPCODE::OPCONSTANT => self.ip + 1 < c.code.len() && (c.code[self.ip + 1] as usize)
                < c.constants.values.len(),
            OPCODE::OPRETURN | OPCODE::OPNEGATE => self.stack.len() >= 1,
            _ => self.stack.len() >= 2,
        }
    }

    /// Runs the instruction at `ip`: `OPRETURN` pops the result,
    /// `OPCONSTANT` pushes its constant, `OPNEGATE` pops its operand, and
    /// an arithmetic instruction pops its two operands; the last two leave
    /// the result to be pushed by the caller.
    pub fn step(&mut self, c: &Chunk) -> (s: Step)
        requires
            old(self).steppable(c),
        ensures
            ({
                let ip = old(self).ip as int;
                let st = old(self).stack@;
                let n = st.len() as int;
                match byte_opcode(c.code@[ip]) {
                    OPCODE::OPRETURN => {
                        &&& s == Step::Returned(st[n - 1])
                        &&& final(self).stack@ == st.drop_last()
                        &&& final(self).ip == ip + 1
                    },
                    OPCODE::OPCONSTANT => {
                        let v = c.constants.values@[c.code@[ip + 1] as int];
                        &&& s == Step::Pushed(v)
                        &&& final(self).stack@ == st.push(v)
                        &&& final(self).ip == ip + 2
                    },
                    OPCODE::OPNEGATE => {
                        &&& s == Step::Negate(st[n - 1])
                        &&& final(self).stack@ == st.drop_last()
                        &&& final(self).ip == ip + 1
                    },
                    op => {
                        &&& s == Step::Binary(arithmetic_of(op)->0, st[n - 1], st[n - 2])
                        &&& final(self).stack@ == st.subrange(0, n - 2)
                        &&& final(self).ip == ip + 1
                    },
                }
            }),
    {
        let ins = self.read_byte(c);
        match ins {
            OPCODE::OPRETURN => Step::Returned(self.pop_value()),
            OPCODE::OPCONSTANT => {
                let v = self.read_constants(c);
                self.stack.push(v);
                Step::Pushed(v)
            },
            OPCODE::OPNEGATE => Step::Negate(self.pop_value()),
            OPCODE::OPADD => {
                let (a, b) = self.binary_op();
                Step::Binary(Arithmetic::ADD, a, b)
            },
            OPCODE::OPSUB => {
                let (a, b) = self.binary_op();
                Step::Binary(Arithmetic::SUB, a, b)
            },
            OPCODE::OPMUL => {
                let (a, b) = self.binary_op();
                Step::Binary(Arithmetic::MUL, a, b)
            },
            OPCODE::OPDIVIDE => {
                let (a, b) = self.binary_op();
                Step::Binary(Arithmetic::DIVIDE, a, b)
            },
        }
    }

    /// Frees the machine: nothing is done.
    pub fn free_vm(&mut self)
        ensures
            final(self).ip == old(self).ip,
            final(self).stack@ == old(self).stack@,
    {
    }
}


/// The arithmetic instructions are the bytes 3 to 6, and each names its own
/// operation: 3 adds, 4 subtracts, 5 multiplies, 6 divides; the other
/// opcodes name none, and no two opcodes name the same operation.
pub proof fn law_arithmetic_opcodes()
    ensures
        arithmetic_of(byte_opcode(3)) == Some(Arithmetic::ADD),
        arithmetic_of(byte_opcode(4)) == Some(Arithmetic::SUB),
        arithmetic_of(byte_opcode(5)) == Some(Arithmetic::MUL),
        arithmetic_of(byte_opcode(6)) == Some(Arithmetic::DIVIDE),
        forall|b: u8| b < 3 ==> #[trigger] arithmetic_of(byte_opcode(b)) is None,
        forall|x: OPCODE, y: OPCODE|
            #[trigger] arithmetic_of(x) is Some && arithmetic_of(x) == #[trigger] arithmetic_of(y)
                ==> x == y,
{
    crate::chunk::law_opcode_encoding();
}

} // verus!
