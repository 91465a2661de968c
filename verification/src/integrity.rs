//! Integrity of the kernel programs: none is loaded unless all have the checksums that are
//! expected of them.

use vstd::prelude::*;
use crate::event_processor::{compute_sha256, sha256};
use crate::storage::same_fingerprint;
use crate::text::led_in;

verus! {

/// A kernel program and the checksum that is expected of it.
#[derive(Clone, Debug)]
pub struct ProgramImage {
    /// The name of the program.
    pub name: String,
    /// The program as it would be loaded.
    pub image: Vec<u8>,
    /// The SHA-256 checksum that is expected.
    pub checksum: [u8; 32],
}

/// Why the kernel programs are not loaded.
#[derive(Clone, Debug)]
pub enum IntegrityError {
    /// The named program has another checksum.
    ChecksumMismatch { name: String },
}

impl IntegrityError {
    /// The error in words.
    pub fn message(&self) -> (r: String)
        ensures
            r@ == (match self {
                IntegrityError::ChecksumMismatch { name } =>
                    "checksum mismatch of eBPF program "@ + name@,
            }),
    {
        match self {
            IntegrityError::ChecksumMismatch { name } => led_in(
                "checksum mismatch of eBPF program ",
                name.as_str(),
            ),
        }
    }
}

/// The program has the checksum that is expected of it.
pub open spec fn is_intact(program: ProgramImage) -> bool {
    sha256(program.image@) == program.checksum@
}

/// The first program whose digest is not the checksum that is expected of it has the given name.
pub open spec fn is_first_mismatch(
    name: String,
    programs: Seq<ProgramImage>,
    digests: Seq<[u8; 32]>,
) -> bool {
    exists|i: int|
        {
            &&& 0 <= i < programs.len()
            &&& (#[trigger] programs[i]).checksum@ != digests[i]@
            &&& name == programs[i].name
            &&& forall|j: int| 0 <= j < i ==> (#[trigger] programs[j]).checksum@ == digests[j]@
        }
}

/// Accepts the programs where all have the checksums that are expected of them, and else names
/// the first that has not. The digests are those of the programs, in order.
pub fn compare_checksums(programs: &Vec<ProgramImage>, digests: &Vec<[u8; 32]>) -> (r: Result<
    (),
    IntegrityError,
>)
    requires
        digests.len() == programs.len(),
    ensures
        r is Ok <==> forall|i: int|
            0 <= i < programs.len() ==> (#[trigger] programs@[i]).checksum@ == digests@[i]@,
        r matches Err(IntegrityError::ChecksumMismatch { name }) ==> is_first_mismatch(
            name,
            programs@,
            digests@,
        ),
{
    let mut i: usize = 0;
    while i < programs.len()
        invariant
            i <= programs.len(),
            digests.len() == programs.len(),
            forall|j: int| 0 <= j < i ==> (#[trigger] programs@[j]).checksum@ == digests@[j]@,
        decreases programs.len() - i,
    {
        let program = &programs[i];
        if !same_fingerprint(&program.checksum, &digests[i]) {
            assert(programs@[i as int].checksum@ != digests@[i as int]@);
            return Err(IntegrityError::ChecksumMismatch { name: program.name.clone() });
        }
        i += 1;
    }
    Ok(())
}

/// Accepts the programs where all are intact, and else names the first that is not.
pub fn validate_program_integrity(programs: &Vec<ProgramImage>) -> (r: Result<(), IntegrityError>)
    ensures
        r is Ok <==> forall|i: int| 0 <= i < programs.len() ==> is_intact(#[trigger] programs@[i]),
        r matches Err(IntegrityError::ChecksumMismatch { name }) ==> exists|i: int|
            {
                &&& 0 <= i < programs.len()
                &&& !is_intact(#[trigger] programs@[i])
                &&& name == programs@[i].name
                &&& forall|j: int| 0 <= j < i ==> is_intact(#[trigger] programs@[j])
            },
{
    let mut digests: Vec<[u8; 32]> = Vec::new();
    let mut i: usize = 0;
    while i < programs.len()
        invariant
            i <= programs.len(),
            digests.len() == i,
            forall|j: int|
                0 <= j < i ==> digests@[j]@ == sha256((#[trigger] programs@[j]).image@),
        decreases programs.len() - i,
    {
        digests.push(compute_sha256(programs[i].image.as_slice()));
        i += 1;
    }
    compare_checksums(programs, &digests)
}

/// A program is intact exactly where every byte of its digest is that of the checksum, whatever
/// the program is; and the first mismatch is that of no other program.
pub proof fn every_byte_of_the_checksum_counts(
    program: ProgramImage,
    name: String,
    programs: Seq<ProgramImage>,
    digests: Seq<[u8; 32]>,
)
    ensures
        is_intact(program) <==> sha256(program.image@).len() == 32 && forall|i: int|
            0 <= i < 32 ==> sha256(program.image@)[i] == #[trigger] program.checksum@[i],
        is_first_mismatch(name, programs, digests) ==> exists|i: int|
            0 <= i < programs.len() && (#[trigger] programs[i]).name == name
                && programs[i].checksum@ != digests[i]@ && forall|j: int|
                0 <= j < i ==> (#[trigger] programs[j]).checksum@ == digests[j]@,
{
    if sha256(program.image@).len() == 32 && forall|i: int|
        0 <= i < 32 ==> sha256(program.image@)[i] == #[trigger] program.checksum@[i] {
        assert(sha256(program.image@) =~= program.checksum@);
    }
}

} // verus!
