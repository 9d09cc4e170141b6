//! Bytecode: opcodes, the constant pool, chunks of code, and the
//! disassembly of a chunk.
//!
//! Constants are double-precision numbers. The library holds each one as its
//! IEEE-754 bit pattern (what `f64::to_bits` gives); it only stores and
//! retrieves them, and never computes on them.

use vstd::prelude::*;

verus! {

/// An instruction of the machine.
#[derive(Debug, Clone, Copy, PartialEq, Eq, Structural)]
pub enum OPCODE {
    OPCONSTANT,
    OPNEGATE,
    OPRETURN,
    OPADD,
    OPSUB,
    OPMUL,
    OPDIVIDE,
}

/// The byte that encodes an opcode: its position in the list, from 0.
pub open spec fn opcode_byte(op: OPCODE) -> u8 {
    match op {
        OPCODE::OPCONSTANT => 0,
        OPCODE::OPNEGATE => 1,
        OPCODE::OPRETURN => 2,
        OPCODE::OPADD => 3,
        OPCODE::OPSUB => 4,
        OPCODE::OPMUL => 5,
        OPCODE::OPDIVIDE => 6,
    }
}

/// The opcode a byte below 7 encodes.
pub open spec fn byte_opcode(b: u8) -> OPCODE
    recommends
        b < 7,
{
    if b == 0 {
        OPCODE::OPCONSTANT
    } else if b == 1 {
        OPCODE::OPNEGATE
    } else if b == 2 {
        OPCODE::OPRETURN
    } else if b == 3 {
        OPCODE::OPADD
    } else if b == 4 {
        OPCODE::OPSUB
    } else if b == 5 {
        OPCODE::OPMUL
    } else {
        OPCODE::OPDIVIDE
    }
}

impl From<OPCODE> for u8 {
    fn from(value: OPCODE) -> (b: u8) {
        match value {
            OPCODE::OPCONSTANT => 0,
            OPCODE::OPNEGATE => 1,
            OPCODE::OPRETURN => 2,
            OPCODE::OPADD => 3,
            OPCODE::OPSUB => 4,
            OPCODE::OPMUL => 5,
            OPCODE::OPDIVIDE => 6,
        }
    }
}

impl vstd::std_specs::convert::FromSpecImpl<OPCODE> for u8 {
    open spec fn obeys_from_spec() -> bool {
        true
    }

    open spec fn from_spec(v: OPCODE) -> u8 {
        opcode_byte(v)
    }
}

impl OPCODE {
    /// The opcode that byte `value` encodes. Only the bytes 0 to 6 encode an
    /// opcode.
    pub fn from(value: u8) -> (op: OPCODE)
        requires
            value < 7,
        ensures
            op == byte_opcode(value),
            opcode_byte(op) == value,
    {
        match value {
            0 => OPCODE::OPCONSTANT,
            1 => OPCODE::OPNEGATE,
            2 => OPCODE::OPRETURN,
            3 => OPCODE::OPADD,
            4 => OPCODE::OPSUB,
            5 => OPCODE::OPMUL,
            _ => OPCODE::OPDIVIDE,
        }
    }
}

/// Encoding an opcode as a byte and decoding the byte gives the opcode back.
pub proof fn law_opcode_byte_roundtrip(op: OPCODE)
    ensures
        opcode_byte(op) < 7,
        byte_opcode(opcode_byte(op)) == op,
{
}

/// Decoding a byte below 7 as an opcode and encoding the opcode gives the
/// byte back.
pub proof fn law_byte_opcode_roundtrip(b: u8)
    requires
        b < 7,
    ensures
        opcode_byte(byte_opcode(b)) == b,
{
}

/// The constant pool of a chunk, each constant held as the bit pattern of a
/// double.
pub struct ValueArr {
    pub values: Vec<u64>,
}

impl ValueArr {
    /// An empty pool.
    pub fn new() -> (a: ValueArr)
        ensures
            a.values@ == Seq::<u64>::empty(),
    {
        ValueArr { values: Vec::new() }
    }

    /// Appends `value` and returns its index.
    pub fn write_value(&mut self, value: u64) -> (count: usize)
        ensures
            count == old(self).values.len(),
            final(self).values@ == old(self).values@.push(value),
    {
        let count = self.values.len();
        self.values.push(value);
        count
    }

    /// The constant at index `which`.
    pub fn read_value(&self, which: usize) -> (v: u64)
        requires
            which < self.values.len(),
        ensures
            v == self.values@[which as int],
    {
        self.values[which]
    }

    /// Empties the pool.
    pub fn free(&mut self)
        ensures
            final(self).values@ == Seq::<u64>::empty(),
    {
        self.values = Vec::new();
    }
}

/// The index that `write_value` returns reads back, with `read_value`, the
/// value it wrote; what was there before stays.
pub proof fn law_value_read_back(before: ValueArr, after: ValueArr, value: u64, index: usize)
    requires
        index == before.values.len(),
        after.values@ == before.values@.push(value),
    ensures
        index < after.values.len(),
        after.values@[index as int] == value,
        forall|i: int| 0 <= i < before.values.len() ==> after.values@[i] == before.values@[i],
{
}

/// One instruction of a disassembly listing.
#[derive(Debug, Clone, Copy)]
pub struct Disassembly {
    /// Where the instruction starts.
    pub offset: usize,
    /// Its source line, or `None` when that is the line of the byte before
    /// (the listing shows `|` then).
    pub line: Option<usize>,
    pub op: OPCODE,
    /// For `OPCONSTANT`: the index of its constant, and the constant.
    pub constant: Option<(u8, u64)>,
    /// Where the next instruction starts.
    pub next: usize,
}

/// The instructions of a chunk, from its start, and whether the listing
/// reached the end of the code (`true`) or stopped at an instruction that
/// cannot be decoded (`false`).
pub struct ChunkListing {
    pub instructions: Vec<Disassembly>,
    pub complete: bool,
}

/// A chunk of bytecode: the code, the source line of each byte, and the
/// constants.
pub struct Chunk {
    pub code: Vec<u8>,
    pub lines: Vec<usize>,
    pub constants: ValueArr,
}

impl Chunk {
    /// The instruction at `offset` can be decoded: its byte and its line
    /// exist, the byte is an opcode, and an `OPCONSTANT` has an operand byte
    /// that indexes a constant.
    pub open spec fn decodable(&self, offset: int) -> bool {
        &&& 0 <= offset < self.code.len()
        &&& offset < self.lines.len()
        &&& self.code@[offset] < 7
        &&& self.code@[offset] == 0 ==> {
            &&& offset + 1 < self.code.len()
            &&& self.code@[offset + 1] < self.constants.values.len()
        }
    }

    /// What the disassembler lists for the instruction at `offset`.
    pub open spec fn disassembly_at(&self, offset: int) -> Disassembly {
        let op = byte_opcode(self.code@[offset]);
        Disassembly {
            offset: offset as usize,
            line: if offset > 0 && self.lines@[offset] == self.lines@[offset - 1] {
                None
            } else {
                Some(self.lines@[offset])
            },
            op,
            constant: if op == OPCODE::OPCONSTANT {
                let k = self.code@[offset + 1];
                Some((k, self.constants.values@[k as int]))
            } else {
                None
            },
            next: (if op == OPCODE::OPCONSTANT {
                offset + 2
            } else {
                offset + 1
            }) as usize,
        }
    }

    /// The listing of the instructions from `offset` on.
    pub open spec fn walk(&self, offset: int) -> (Seq<Disassembly>, bool)
        decreases self.code.len() - offset,
    {
        if offset < 0 || offset >= self.code.len() {
            (Seq::empty(), true)
        } else if !self.decodable(offset) {
            (Seq::empty(), false)
        } else {
            let d = self.disassembly_at(offset);
            let rest = self.walk(d.next as int);
            (seq![d] + rest.0, rest.1)
        }
    }

    /// An empty chunk.
    pub fn new() -> (c: Chunk)
        ensures
            c.code@ == Seq::<u8>::empty(),
            c.lines@ == Seq::<usize>::empty(),
            c.constants.values@ == Seq::<u64>::empty(),
    {
        Chunk { code: Vec::new(), lines: Vec::new(), constants: ValueArr::new() }
    }

    /// Appends `byte`, from source line `line`.
    pub fn write(&mut self, byte: u8, line: usize)
        ensures
            final(self).code@ == old(self).code@.push(byte),
            final(self).lines@ == old(self).lines@.push(line),
            final(self).constants == old(self).constants,
    {
        self.code.push(byte);
        self.lines.push(line);
    }

    /// Appends the opcode byte `code`, from source line `line`.
    pub fn write_opcode(&mut self, code: u8, line: usize)
        ensures
            final(self).code@ == old(self).code@.push(code),
            final(self).lines@ == old(self).lines@.push(line),
            final(self).constants == old(self).constants,
    {
        self.lines.push(line);
        self.code.push(code);
    }

    /// The instruction after a one-byte instruction at `offset`.
    pub fn simple_instruction(&self, v: &OPCODE, offset: usize) -> (next: usize)
        requires
            offset < usize::MAX,
        ensures
            next == offset + 1,
    {
        offset + 1
    }

    /// The constant operand of the `OPCONSTANT` at `offset`: its index, the
    /// constant, and where the next instruction starts.
    pub fn constant_instruction(&self, offset: usize) -> (r: (usize, u8, u64))
        requires
            offset + 1 < self.code.len(),
            self.code@[offset + 1] < self.constants.values.len(),
        ensures
            r.0 == offset + 2,
            r.1 == self.code@[offset + 1],
            r.2 == self.constants.values@[r.1 as int],
    {
        let constant = self.code[offset + 1];
        let value = self.constants.read_value(constant as usize);
        (offset + 2, constant, value)
    }

    /// Whether the instruction at `offset` can be decoded.
    pub fn is_decodable(&self, offset: usize) -> (b: bool)
        ensures
            b == self.decodable(offset as int),
    {
        if offset >= self.code.len() || offset >= self.lines.len() {
            return false;
        }
        let byte = self.code[offset];
        if byte >= 7 {
            return false;
        }
        if byte == 0 {
            return offset + 1 < self.code.len() && (self.code[offset + 1] as usize)
                < self.constants.values.len();
        }
        true
    }

    /// Decodes the instruction at `offset`: its line mark, its opcode, its
    /// constant operand if it has one, and where the next instruction starts.
    pub fn disassemble_instruction(&self, offset: usize) -> (r: Result<Disassembly, ()>)
        requires
            self.decodable(offset as int),
        ensures
            r == Ok::<Disassembly, ()>(self.disassembly_at(offset as int)),
    {
        let line = if offset > 0 && self.lines[offset] == self.lines[offset - 1] {
            None
        } else {
            Some(self.lines[offset])
        };
        let code = OPCODE::from(self.code[offset]);
        match code {
            OPCODE::OPCONSTANT => {
                let (next, constant, value) = self.constant_instruction(offset);
                Ok(Disassembly { offset, line, op: code, constant: Some((constant, value)), next })
            },
            _ => {
                let next = self.simple_instruction(&code, offset);
                Ok(Disassembly { offset, line, op: code, constant: None, next })
            },
        }
    }

    /// Disassembles the chunk from its start: instruction after instruction
    /// until the end of the code, or until an instruction cannot be decoded.
    pub fn disassemble_chunk(&self) -> (listing: ChunkListing)
        ensures
            listing.instructions@ == self.walk(0).0,
            listing.complete == self.walk(0).1,
    {
        let mut instructions: Vec<Disassembly> = Vec::new();
        let mut offset: usize = 0;
        while offset < self.code.len()
            invariant
                instructions@ + self.walk(offset as int).0 == self.walk(0).0,
                self.walk(offset as int).1 == self.walk(0).1,
            decreases self.code.len() - offset,
        {
            if !self.is_decodable(offset) {
                assert(instructions@ + self.walk(offset as int).0 =~= instructions@);
                return ChunkListing { instructions, complete: false };
            }
            let ghost before = instructions@;
            let ghost at = offset as int;
            match self.disassemble_instruction(offset) {
                Ok(d) => {
                    instructions.push(d);
                    offset = d.next;
                },
                Err(_) => {},
            }
            assert(instructions@ + self.walk(offset as int).0 =~= before + self.walk(at).0);
        }
        assert(instructions@ + self.walk(offset as int).0 =~= instructions@);
        ChunkListing { instructions, complete: true }
    }

    /// The code byte at `ip`.
    pub fn read_chunk_byte(&self, ip: usize) -> (b: u8)
        requires
            ip < self.code.len(),
        ensures
            b == self.code@[ip as int],
    {
        self.code[ip]
    }

    /// Empties the code and the constants. The line table is left as it is.
    pub fn free(&mut self)
        ensures
            final(self).code@ == Seq::<u8>::empty(),
            final(self).constants.values@ == Seq::<u64>::empty(),
            final(self).lines == old(self).lines,
    {
        self.code = Vec::new();
        self.constants = ValueArr::new();
    }

    /// Adds `value` to the constants and returns its index.
    pub fn add_constants(&mut self, value: u64) -> (index: usize)
        ensures
            index == old(self).constants.values.len(),
            final(self).constants.values@ == old(self).constants.values@.push(value),
            final(self).code == old(self).code,
            final(self).lines == old(self).lines,
    {
        self.constants.write_value(value)
    }

    /// The constant at `index`.
    pub fn get_constant(&self, index: usize) -> (v: u64)
        requires
            index < self.constants.values.len(),
        ensures
            v == self.constants.values@[index as int],
    {
        self.constants.read_value(index)
    }
}

/// A byte written with `write` is read back by `read_chunk_byte` at the old
/// length of the code, and the bytes before it stay.
pub proof fn law_code_read_back(before: Chunk, after: Chunk, byte: u8, line: usize)
    requires
        after.code@ == before.code@.push(byte),
        after.lines@ == before.lines@.push(line),
    ensures
        before.code.len() < after.code.len(),
        after.code@[before.code.len() as int] == byte,
        after.lines@[before.lines.len() as int] == line,
        forall|i: int| 0 <= i < before.code.len() ==> after.code@[i] == before.code@[i],
{
}


/// Each opcode is encoded by its position in the list of opcodes, from 0:
/// `OPCONSTANT` 0, `OPNEGATE` 1, `OPRETURN` 2, `OPADD` 3, `OPSUB` 4, `OPMUL` 5,
/// `OPDIVIDE` 6; and each of the bytes 0 to 6 decodes to the opcode at that
/// position.
pub proof fn law_opcode_encoding()
    ensures
        opcode_byte(OPCODE::OPCONSTANT) == 0,
        opcode_byte(OPCODE::OPNEGATE) == 1,
        opcode_byte(OPCODE::OPRETURN) == 2,
        opcode_byte(OPCODE::OPADD) == 3,
        opcode_byte(OPCODE::OPSUB) == 4,
        opcode_byte(OPCODE::OPMUL) == 5,
        opcode_byte(OPCODE::OPDIVIDE) == 6,
        byte_opcode(0) == OPCODE::OPCONSTANT,
        byte_opcode(1) == OPCODE::OPNEGATE,
        byte_opcode(2) == OPCODE::OPRETURN,
        byte_opcode(3) == OPCODE::OPADD,
        byte_opcode(4) == OPCODE::OPSUB,
        byte_opcode(5) == OPCODE::OPMUL,
        byte_opcode(6) == OPCODE::OPDIVIDE,
{
}

/// What the disassembler lists for a decodable instruction at `offset`: its
/// offset; `None` as its line exactly when the byte before is on the same
/// line, else its line; the opcode its byte encodes; for an `OPCONSTANT`
/// (byte 0) the operand byte `k` and the constant the pool holds at index
/// `k`, with the next instruction two bytes on; for any other opcode no
/// constant, and the next instruction one byte on.
pub proof fn law_disassembly_fields(c: Chunk, offset: int)
    requires
        c.decodable(offset),
    ensures
        c.disassembly_at(offset).offset == offset,
        c.disassembly_at(offset).line == (if offset > 0 && c.lines@[offset] == c.lines@[offset
            - 1] {
            None
        } else {
            Some(c.lines@[offset])
        }),
        opcode_byte(c.disassembly_at(offset).op) == c.code@[offset],
        c.code@[offset] == 0 ==> {
            let k = c.code@[offset + 1];
            &&& c.disassembly_at(offset).op == OPCODE::OPCONSTANT
            &&& k < c.constants.values.len()
            &&& c.disassembly_at(offset).constant == Some((k, c.constants.values@[k as int]))
            &&& c.disassembly_at(offset).next == offset + 2
        },
        c.code@[offset] != 0 ==> {
            &&& c.disassembly_at(offset).op != OPCODE::OPCONSTANT
            &&& c.disassembly_at(offset).constant is None
            &&& c.disassembly_at(offset).next == offset + 1
        },
        c.disassembly_at(offset).next <= c.code.len(),
{
}

/// The listing of a chunk from `offset` lists every instruction it walks
/// over, each decodable and decoded at its own offset: the first entry is at
/// `offset`, each entry's next offset is the offset of the entry after it,
/// and a complete listing ends with an entry whose next offset is the length
/// of the code (or is empty, when `offset` is at or past the end). An
/// incomplete listing ends before an instruction that cannot be decoded.
pub proof fn law_walk_lists_every_instruction(c: Chunk, offset: int)
    requires
        0 <= offset,
    ensures
        ({
            let w = c.walk(offset).0;
            &&& w.len() > 0 ==> w[0].offset == offset
            &&& forall|i: int|
                0 <= i < w.len() ==> c.decodable(#[trigger] w[i].offset as int) && w[i]
                    == c.disassembly_at(w[i].offset as int)
            &&& forall|i: int| 0 <= i < w.len() - 1 ==> #[trigger] w[i].next == w[i + 1].offset
            &&& c.walk(offset).1 ==> (if w.len() == 0 {
                offset >= c.code.len()
            } else {
                w.last().next == c.code.len()
            })
            &&& !c.walk(offset).1 ==> {
                let stop = if w.len() == 0 {
                    offset
                } else {
                    w.last().next as int
                };
                &&& stop < c.code.len()
                &&& !c.decodable(stop)
            }
        }),
    decreases c.code.len() - offset,
{
    if offset < c.code.len() && c.decodable(offset) {
        let d = c.disassembly_at(offset);
        law_disassembly_fields(c, offset);
        law_walk_lists_every_instruction(c, d.next as int);
        let rest = c.walk(d.next as int).0;
        let w = c.walk(offset).0;
        assert(w == seq![d] + rest);
        assert forall|i: int| 0 <= i < w.len() implies c.decodable(#[trigger] w[i].offset as int)
            && w[i] == c.disassembly_at(w[i].offset as int) by {
            if i > 0 {
                assert(w[i] == rest[i - 1]);
            }
        }
        assert forall|i: int| 0 <= i < w.len() - 1 implies #[trigger] w[i].next == w[i + 1].offset by {
            assert(w[i + 1] == rest[i]);
            if i > 0 {
                assert(w[i] == rest[i - 1]);
            }
        }
        if rest.len() > 0 {
            assert(w.last() == rest.last());
        }
    }
}

} // verus!
