//! The machine: the list of its chips, in the order in which their traces
//! are made.

use crate::alu::shift::ShiftChip;
use crate::alu::sub::SubChip;
use crate::bytes::ByteChip;
use crate::memory::{MemoryChip, MemoryChipType};
use crate::program::ProgramChip;
use crate::stark::machine::TableAir;
use crate::stark::types::MachineChip;
use crate::syscall::precompiles::blake3::compress::Blake3CompressInnerChip;
use crate::syscall::precompiles::edwards::ed_decompress::EdDecompressChip;
use crate::syscall::precompiles::k256::decompress::K256DecompressChip;
use crate::syscall::precompiles::sha256::compress::ShaCompressChip;
use crate::syscall::precompiles::sha256::extend::ShaExtendChip;
use vstd::prelude::*;

verus! {

/// A chip that the machine lists and whose table is not part of this
/// library.
pub struct Listed;

/// An AIR for encoding RISC-V execution.
///
/// This enum contains all the different AIRs of the machine. Each variant
/// is a different AIR that is used to encode a different part of the
/// execution, and the different AIR variants have a joint lookup
/// argument.
pub enum RiscvAir {
    /// An AIR that contains a preprocessed program table and a lookup for the
    /// instructions.
    Program(ProgramChip),
    /// An AIR for the RISC-V CPU. Each row represents a cpu cycle.
    Cpu(Listed),
    /// An AIR for the RISC-V Add and SUB instruction; this library holds the
    /// table of the subtraction.
    Add(SubChip),
    /// An AIR for RISC-V Bitwise instructions.
    Bitwise(Listed),
    /// An AIR for RISC-V Mul instruction.
    Mul(Listed),
    /// An AIR for RISC-V Div and Rem instructions.
    DivRem(Listed),
    /// An AIR for RISC-V Lt instruction.
    Lt(Listed),
    /// An AIR for RISC-V SLL instruction; the chip of this library takes the
    /// right shifts too.
    ShiftLeft(ShiftChip),
    /// An AIR for RISC-V SRL and SRA instruction.
    ShiftRight(Listed),
    /// A lookup table for byte operations.
    ByteLookup(ByteChip),
    /// A table for initializing the memory state.
    MemoryInit(MemoryChip),
    /// A table for finalizing the memory state.
    MemoryFinal(MemoryChip),
    /// A table for initializing the program memory.
    ProgramMemory(Listed),
    /// A precompile for sha256 extend.
    Sha256Extend(ShaExtendChip),
    /// A precompile for sha256 compress.
    Sha256Compress(ShaCompressChip),
    /// A precompile for addition on the Elliptic curve ed25519.
    Ed25519Add(Listed),
    /// A precompile for decompressing a point on the Edwards curve ed25519.
    Ed25519Decompress(EdDecompressChip),
    /// A precompile for decompressing a point on the K256 curve.
    Secp256k1Decompress(K256DecompressChip),
    /// A precompile for addition on the Elliptic curve secp256k1.
    Secp256k1Add(Listed),
    /// A precompile for doubling a point on the Elliptic curve secp256k1.
    Secp256k1Double(Listed),
    /// A precompile for the Keccak permutation.
    KeccakP(Listed),
    /// A precompile for the Blake3 compression function. (Disabled by
    /// default: the machine does not list it.)
    Blake3Compress(Blake3CompressInnerChip),
    /// A precompile for addition on the Elliptic curve bn254.
    Bn254Add(Listed),
    /// A precompile for doubling a point on the Elliptic curve bn254.
    Bn254Double(Listed),
    /// A precompile for G1 point addition on the Elliptic curve bls12_381.
    Bls12381Add(Listed),
    /// A precompile for doubling a G1 point on the Elliptic curve bls12_381.
    Bls12381Double(Listed),
    /// A precompile for addition of BLS12-381 field elements.
    Bls12381FpAdd(Listed),
    /// A precompile for subtraction of BLS12-381 field elements.
    Bls12381FpSub(Listed),
    /// A precompile for multiplication of BLS12-381 field elements.
    Bls12381FpMul(Listed),
    /// A precompile for addition of BLS12-381 quadratic extension field
    /// elements.
    Bls12381Fp2Add(Listed),
    /// A precompile for subtraction of BLS12-381 quadratic field elements.
    Bls12381Fp2Sub(Listed),
    /// A precompile for multiplication of BLS12-381 quadratic field elements.
    Bls12381Fp2Mul(Listed),
    /// A precompile for decompressing a point on the BLS12-381 curve.
    Bls12381Decompress(Listed),
}

impl RiscvAir {
    /// The chips of the machine, in their order.
    pub open spec fn all_spec() -> Seq<RiscvAir> {
        seq![
            RiscvAir::Cpu(Listed),
            RiscvAir::Program(ProgramChip),
            RiscvAir::Sha256Extend(ShaExtendChip),
            RiscvAir::Sha256Compress(ShaCompressChip),
            RiscvAir::Ed25519Add(Listed),
            RiscvAir::Ed25519Decompress(EdDecompressChip),
            RiscvAir::Secp256k1Decompress(K256DecompressChip),
            RiscvAir::Secp256k1Add(Listed),
            RiscvAir::Secp256k1Double(Listed),
            RiscvAir::KeccakP(Listed),
            RiscvAir::Bn254Add(Listed),
            RiscvAir::Bn254Double(Listed),
            RiscvAir::Bls12381Add(Listed),
            RiscvAir::Bls12381Double(Listed),
            RiscvAir::Bls12381FpAdd(Listed),
            RiscvAir::Bls12381FpSub(Listed),
            RiscvAir::Bls12381FpMul(Listed),
            RiscvAir::Bls12381Fp2Add(Listed),
            RiscvAir::Bls12381Fp2Sub(Listed),
            RiscvAir::Bls12381Fp2Mul(Listed),
            RiscvAir::Add(SubChip),
            RiscvAir::Bitwise(Listed),
            RiscvAir::DivRem(Listed),
            RiscvAir::Mul(Listed),
            RiscvAir::ShiftRight(Listed),
            RiscvAir::ShiftLeft(ShiftChip),
            RiscvAir::Lt(Listed),
            RiscvAir::MemoryInit(MemoryChip { kind: MemoryChipType::Initialize }),
            RiscvAir::MemoryFinal(MemoryChip { kind: MemoryChipType::Finalize }),
            RiscvAir::ProgramMemory(Listed),
            RiscvAir::ByteLookup(ByteChip),
            RiscvAir::Bls12381Decompress(Listed),
        ]
    }

    /// Get all the different RISC-V AIRs. The order of the chips is
    /// important, as it is used to determine the order of trace
    /// generation.
    pub fn get_all() -> (r: Vec<RiscvAir>)
        ensures
            r@ == Self::all_spec(),
            r@.len() == 32,
    {
        let mut chips: Vec<RiscvAir> = Vec::new();
        chips.push(RiscvAir::Cpu(Listed));
        chips.push(RiscvAir::Program(ProgramChip::new()));
        chips.push(RiscvAir::Sha256Extend(ShaExtendChip::new()));
        chips.push(RiscvAir::Sha256Compress(ShaCompressChip::new()));
        chips.push(RiscvAir::Ed25519Add(Listed));
        chips.push(RiscvAir::Ed25519Decompress(EdDecompressChip::new()));
        chips.push(RiscvAir::Secp256k1Decompress(K256DecompressChip::new()));
        chips.push(RiscvAir::Secp256k1Add(Listed));
        chips.push(RiscvAir::Secp256k1Double(Listed));
        chips.push(RiscvAir::KeccakP(Listed));
        chips.push(RiscvAir::Bn254Add(Listed));
        chips.push(RiscvAir::Bn254Double(Listed));
        chips.push(RiscvAir::Bls12381Add(Listed));
        chips.push(RiscvAir::Bls12381Double(Listed));
        chips.push(RiscvAir::Bls12381FpAdd(Listed));
        chips.push(RiscvAir::Bls12381FpSub(Listed));
        chips.push(RiscvAir::Bls12381FpMul(Listed));
        chips.push(RiscvAir::Bls12381Fp2Add(Listed));
        chips.push(RiscvAir::Bls12381Fp2Sub(Listed));
        chips.push(RiscvAir::Bls12381Fp2Mul(Listed));
        chips.push(RiscvAir::Add(SubChip));
        chips.push(RiscvAir::Bitwise(Listed));
        chips.push(RiscvAir::DivRem(Listed));
        chips.push(RiscvAir::Mul(Listed));
        chips.push(RiscvAir::ShiftRight(Listed));
        chips.push(RiscvAir::ShiftLeft(ShiftChip::new()));
        chips.push(RiscvAir::Lt(Listed));
        chips.push(RiscvAir::MemoryInit(MemoryChip::new(MemoryChipType::Initialize)));
        chips.push(RiscvAir::MemoryFinal(MemoryChip::new(MemoryChipType::Finalize)));
        chips.push(RiscvAir::ProgramMemory(Listed));
        chips.push(RiscvAir::ByteLookup(ByteChip::new()));
        chips.push(RiscvAir::Bls12381Decompress(Listed));
        assert(chips@ =~= Self::all_spec());
        chips
    }

    /// The table of the chip, where this library holds it.
    pub open spec fn table_spec(&self) -> Option<TableAir> {
        match self {
            RiscvAir::Program(c) => Some(TableAir::Program(*c)),
            RiscvAir::Ed25519Decompress(c) => Some(TableAir::Ed25519Decompress(*c)),
            RiscvAir::Secp256k1Decompress(c) => Some(TableAir::Secp256k1Decompress(*c)),
            RiscvAir::Add(c) => Some(TableAir::Sub(*c)),
            RiscvAir::ShiftLeft(c) => Some(TableAir::Shift(*c)),
            RiscvAir::MemoryInit(c) => Some(TableAir::MemoryInit(*c)),
            RiscvAir::MemoryFinal(c) => Some(TableAir::MemoryFinal(*c)),
            RiscvAir::ByteLookup(c) => Some(TableAir::ByteLookup(*c)),
            _ => None,
        }
    }

    /// The table of the chip, where this library holds it: the trace of
    /// the chip together with what the chip declares of it.
    pub fn table(&self) -> (r: Option<TableAir>)
        ensures
            r == self.table_spec(),
    {
        match self {
            RiscvAir::Program(_) => Some(TableAir::Program(ProgramChip)),
            RiscvAir::Ed25519Decompress(_) => Some(TableAir::Ed25519Decompress(EdDecompressChip)),
            RiscvAir::Secp256k1Decompress(_) => Some(
                TableAir::Secp256k1Decompress(K256DecompressChip),
            ),
            RiscvAir::Add(_) => Some(TableAir::Sub(SubChip)),
            RiscvAir::ShiftLeft(_) => Some(TableAir::Shift(ShiftChip)),
            RiscvAir::MemoryInit(c) => Some(TableAir::MemoryInit(MemoryChip { kind: c.kind })),
            RiscvAir::MemoryFinal(c) => Some(TableAir::MemoryFinal(MemoryChip { kind: c.kind })),
            RiscvAir::ByteLookup(_) => Some(TableAir::ByteLookup(ByteChip)),
            _ => None,
        }
    }

    /// The tables among the first `n` chips of a list, in the order of the
    /// list.
    pub open spec fn tables_among(chips: Seq<RiscvAir>, n: nat) -> Seq<TableAir>
        decreases n,
    {
        if n == 0 {
            Seq::empty()
        } else {
            match chips[n - 1].table_spec() {
                Some(t) => Self::tables_among(chips, (n - 1) as nat).push(t),
                None => Self::tables_among(chips, (n - 1) as nat),
            }
        }
    }

    /// The tables of the machine are the eight that this library holds,
    /// in the order of the machine.
    pub proof fn lemma_tables()
        ensures
            Self::tables_among(Self::all_spec(), 32) == TableAir::all_spec(),
    {
        let all = Self::all_spec();
        reveal_with_fuel(RiscvAir::tables_among, 33);
        assert(Self::tables_among(all, 1) =~= Seq::<TableAir>::empty());
        assert(Self::tables_among(all, 2) =~= seq![TableAir::all_spec()[0]]);
        assert(Self::tables_among(all, 5) =~= Self::tables_among(all, 2));
        assert(Self::tables_among(all, 7) =~= TableAir::all_spec().subrange(0, 3));
        assert(Self::tables_among(all, 20) =~= Self::tables_among(all, 7));
        assert(Self::tables_among(all, 21) =~= TableAir::all_spec().subrange(0, 4));
        assert(Self::tables_among(all, 25) =~= Self::tables_among(all, 21));
        assert(Self::tables_among(all, 26) =~= TableAir::all_spec().subrange(0, 5));
        assert(Self::tables_among(all, 29) =~= TableAir::all_spec().subrange(0, 7));
        assert(Self::tables_among(all, 31) =~= TableAir::all_spec().subrange(0, 8));
        assert(Self::tables_among(all, 32) =~= TableAir::all_spec());
    }

    /// The tables of the machine, in the order of the machine.
    pub fn tables() -> (r: Vec<TableAir>)
        ensures
            r@ == Self::tables_among(Self::all_spec(), 32),
            r@ == TableAir::all_spec(),
    {
        let chips = Self::get_all();
        let mut r: Vec<TableAir> = Vec::new();
        let mut i: usize = 0;
        while i < chips.len()
            invariant
                i <= chips@.len(),
                chips@ == Self::all_spec(),
                r@ == Self::tables_among(chips@, i as nat),
            decreases chips@.len() - i,
        {
            match chips[i].table() {
                Some(t) => {
                    r.push(t);
                },
                None => {},
            }
            i = i + 1;
        }
        proof {
            Self::lemma_tables();
        }
        r
    }

    /// What the chips with tables declare, collected once, in the order of
    /// the machine.
    pub fn machine() -> (r: Vec<MachineChip>)
        ensures
            r@.len() == TableAir::all_spec().len(),
            forall|i: int|
                0 <= i < r@.len() ==> {
                    let air = &TableAir::all_spec()[i];
                    &&& (#[trigger] r@[i]).name@ == air.name_spec()
                    &&& r@[i].preprocessed_width == air.preprocessed_width_spec()
                    &&& r@[i].width == air.width_spec()
                    &&& r@[i].constraints@ == air.constraints_spec()
                    &&& crate::air::interactions_view(r@[i].sends@) == air.sends_spec()
                    &&& crate::air::interactions_view(r@[i].receives@) == air.receives_spec()
                },
    {
        TableAir::machine()
    }
}

} // verus!
