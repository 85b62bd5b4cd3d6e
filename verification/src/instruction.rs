//! The beam instruction codec: fixed 5-byte binary records, each a kind byte
//! followed by a big-endian `u32` payload.

use vstd::prelude::*;

verus! {

/// The size of an instruction record in bytes.
pub const INSTRUCTION_SIZE: usize = 5;

/// The kind of a beam instruction, selected by the first byte of a record.
#[derive(Debug, Clone, Copy, PartialEq, Eq, Structural)]
pub enum InstructionKind {
    Clear,
    MoveTo,
    PowerOff,
    PowerOn,
}

/// An instruction executed by the renderer. `data` packs an (x, y) pair for
/// `MoveTo` and is unused for the other kinds.
#[derive(Debug, Clone, Copy, PartialEq, Eq, Structural)]
pub struct Instruction {
    pub kind: InstructionKind,
    pub data: u32,
}

/// Failure to decode a record: the kind byte is none of the known values.
#[derive(Debug, Clone, Copy, PartialEq, Eq, Structural)]
pub enum DecodeError {
    UnknownKind(u8),
}

/// The wire code of each instruction kind.
pub open spec fn kind_code(k: InstructionKind) -> u8 {
    match k {
        InstructionKind::Clear => 0,
        InstructionKind::MoveTo => 1,
        InstructionKind::PowerOff => 2,
        InstructionKind::PowerOn => 3,
    }
}

/// The instruction kind selected by a wire byte, if any.
pub open spec fn spec_kind_of(b: u8) -> Option<InstructionKind> {
    if b == 0 {
        Some(InstructionKind::Clear)
    } else if b == 1 {
        Some(InstructionKind::MoveTo)
    } else if b == 2 {
        Some(InstructionKind::PowerOff)
    } else if b == 3 {
        Some(InstructionKind::PowerOn)
    } else {
        None
    }
}

/// The value of four bytes read big-endian.
pub open spec fn be_u32_val(b0: u8, b1: u8, b2: u8, b3: u8) -> int {
    b0 * 0x1000000 + b1 * 0x10000 + b2 * 0x100 + b3
}

/// What decoding a 5-byte record yields.
pub open spec fn spec_decode(b: Seq<u8>) -> Result<Instruction, DecodeError>
    recommends
        b.len() == 5,
{
    match spec_kind_of(b[0]) {
        Some(k) => Ok(
            Instruction { kind: k, data: be_u32_val(b[1], b[2], b[3], b[4]) as u32 },
        ),
        None => Err(DecodeError::UnknownKind(b[0])),
    }
}

/// What encoding an instruction yields: the kind byte, then the payload
/// big-endian.
pub open spec fn spec_encode(i: Instruction) -> Seq<u8> {
    seq![
        kind_code(i.kind),
        (i.data / 0x1000000) as u8,
        ((i.data / 0x10000) % 0x100) as u8,
        ((i.data / 0x100) % 0x100) as u8,
        (i.data % 0x100) as u8,
    ]
}

impl InstructionKind {
    /// Select the instruction kind named by a wire byte.
    pub fn try_from_byte(value: u8) -> (r: Result<InstructionKind, DecodeError>)
        ensures
            r == match spec_kind_of(value) {
                Some(k) => Ok::<InstructionKind, DecodeError>(k),
                None => Err::<InstructionKind, DecodeError>(DecodeError::UnknownKind(value)),
            },
    {
        match value {
            0 => Ok(InstructionKind::Clear),
            1 => Ok(InstructionKind::MoveTo),
            2 => Ok(InstructionKind::PowerOff),
            3 => Ok(InstructionKind::PowerOn),
            _ => Err(DecodeError::UnknownKind(value)),
        }
    }

    /// The wire code of this kind.
    pub fn to_byte(&self) -> (r: u8)
        ensures
            r == kind_code(*self),
    {
        match self {
            InstructionKind::Clear => 0,
            InstructionKind::MoveTo => 1,
            InstructionKind::PowerOff => 2,
            InstructionKind::PowerOn => 3,
        }
    }
}

impl Instruction {
    /// Create a new instruction.
    pub fn new(type_id: InstructionKind, data: u32) -> (r: Self)
        ensures
            r == (Instruction { kind: type_id, data }),
    {
        Self { kind: type_id, data }
    }

    /// Get the data of the instruction.
    pub fn get_data(&self) -> (r: u32)
        ensures
            r == self.data,
    {
        self.data
    }

    /// Parse a 5-byte record into an instruction.
    pub fn from_bytes(bytes: [u8; INSTRUCTION_SIZE]) -> (r: Result<Self, DecodeError>)
        ensures
            r == spec_decode(bytes@),
    {
        let type_id = InstructionKind::try_from_byte(bytes[0])?;
        let data: u32 = (bytes[1] as u32) * 0x1000000 + (bytes[2] as u32) * 0x10000 + (
        bytes[3] as u32) * 0x100 + (bytes[4] as u32);
        Ok(Self { kind: type_id, data })
    }

    /// Encode the instruction as a 5-byte record, the inverse of
    /// [`Instruction::from_bytes`].
    pub fn to_bytes(&self) -> (r: [u8; 5])
        ensures
            r@ == spec_encode(*self),
    {
        let r: [u8; 5] = [
            self.kind.to_byte(),
            (self.data / 0x1000000) as u8,
            ((self.data / 0x10000) % 0x100) as u8,
            ((self.data / 0x100) % 0x100) as u8,
            (self.data % 0x100) as u8,
        ];
        assert(r@ =~= spec_encode(*self));
        r
    }
}

/// What decoding a whole byte stream yields: each complete 5-byte chunk in
/// order, chunks with an unknown kind byte skipped, a trailing partial chunk
/// dropped.
pub open spec fn spec_decode_many(b: Seq<u8>) -> Seq<Instruction>
    decreases b.len(),
{
    if b.len() < 5 {
        Seq::empty()
    } else {
        match spec_decode(b.take(5)) {
            Ok(i) => seq![i] + spec_decode_many(b.skip(5)),
            Err(_) => spec_decode_many(b.skip(5)),
        }
    }
}

impl Instruction {
    /// Parse a byte stream into the instructions of its complete records.
    /// A trailing chunk shorter than 5 bytes is dropped; a chunk whose kind
    /// byte is unknown is skipped; neither is an error.
    pub fn from_bytes_slice(bytes: &[u8]) -> (r: Result<Vec<Self>, DecodeError>)
        ensures
            r is Ok,
            r->Ok_0@ == spec_decode_many(bytes@),
    {
        let mut instructions: Vec<Instruction> = Vec::new();
        let mut i: usize = 0;
        proof {
            assert(bytes@.skip(0) =~= bytes@);
            assert(instructions@ + spec_decode_many(bytes@) =~= spec_decode_many(bytes@));
        }
        while bytes.len() - i >= 5
            invariant
                i <= bytes.len(),
                i % 5 == 0,
                spec_decode_many(bytes@) == instructions@ + spec_decode_many(bytes@.skip(i as int)),
            decreases bytes.len() - i,
        {
            proof {
                assert(bytes@.skip(i as int).take(5) =~= bytes@.subrange(
                    i as int,
                    i as int + 5,
                ));
                assert(bytes@.skip(i as int).skip(5) =~= bytes@.skip(i as int + 5));
            }
            let chunk: [u8; INSTRUCTION_SIZE] = [bytes[i], bytes[i + 1], bytes[i + 2], bytes[i + 3], bytes[i + 4]];
            assert(chunk@ =~= bytes@.subrange(i as int, i as int + 5));
            match Instruction::from_bytes(chunk) {
                Ok(instruction) => instructions.push(instruction),
                Err(_) => (),
            }
            i = i + 5;
        }
        proof {
            assert(spec_decode_many(bytes@.skip(i as int)) =~= Seq::<Instruction>::empty());
            assert(instructions@ =~= instructions@ + Seq::<Instruction>::empty());
        }
        Ok(instructions)
    }
}

/// Every complete 5-byte chunk of the stream carries a known kind byte.
pub open spec fn all_chunks_valid(b: Seq<u8>) -> bool {
    forall|j: int| 0 <= j && 5 * j + 5 <= b.len() ==> spec_kind_of(#[trigger] b[5 * j]) is Some
}

/// Encoding then decoding any instruction gives it back unchanged, for every
/// instruction kind.
pub proof fn lemma_decode_encode(i: Instruction)
    ensures
        spec_decode(spec_encode(i)) == Ok::<Instruction, DecodeError>(i),
{
    let b = spec_encode(i);
    assert(spec_kind_of(b[0]) == Some(i.kind));
    let d = i.data;
    assert(be_u32_val(
        (d / 0x1000000) as u8,
        ((d / 0x10000) % 0x100) as u8,
        ((d / 0x100) % 0x100) as u8,
        (d % 0x100) as u8,
    ) == d) by (bit_vector);
}

/// Decoding a byte stream of valid records yields exactly one instruction per
/// complete 5-byte chunk: `len / 5` of them, the trailing remainder dropped
/// without error.
pub proof fn lemma_decode_many_len(b: Seq<u8>)
    requires
        all_chunks_valid(b),
    ensures
        spec_decode_many(b).len() == b.len() / 5,
    decreases b.len(),
{
    if b.len() < 5 {
        assert(b.len() / 5 == 0);
    } else {
        assert(spec_kind_of(b[5 * 0int]) is Some);
        assert(b.take(5)[0] == b[0]);
        let rest = b.skip(5);
        assert forall|j: int| 0 <= j && 5 * j + 5 <= rest.len() implies spec_kind_of(
            #[trigger] rest[5 * j],
        ) is Some by {
            assert(rest[5 * j] == b[5 * (j + 1)]);
            assert(spec_kind_of(b[5 * (j + 1)]) is Some);
        }
        lemma_decode_many_len(rest);
        assert(rest.len() / 5 == b.len() / 5 - 1) by (nonlinear_arith)
            requires
                rest.len() == b.len() - 5,
                b.len() >= 5,
        ;
    }
}

} // verus!
