//! The cryptographic collaborator: per-record commitments and per-position
//! witnesses, with verified checking.
//!
//! The digest itself is computed outside this crate; the call into it is
//! trusted and everything around it is verified.

use crate::bytes::{bytes_equal, push_all};
use crate::pieces::{COMMITMENT_SIZE, WITNESS_SIZE};
use crate::segments::PIECES_PER_SEGMENT;
use vstd::prelude::*;

verus! {

/// The digest that the cryptographic collaborator assigns to a byte string;
/// a function of the bytes alone.
pub uninterp spec fn digest_of(bytes: Seq<u8>) -> Seq<u8>;

/// Relies on `blake3::hash`: the digest has 32 bytes and depends on the
/// input bytes alone.
#[verifier::external_body]
fn blake3_digest(bytes: &Vec<u8>) -> (r: Vec<u8>)
    ensures
        r@ == digest_of(bytes@),
        r@.len() == COMMITMENT_SIZE,
{
    blake3::hash(bytes.as_slice()).as_bytes().to_vec()
}

/// The commitment to a record: the digest of its bytes.
pub open spec fn commitment_spec(record: Seq<u8>) -> Seq<u8> {
    digest_of(record)
}

/// The bytes a witness digests: the piece position followed by the record.
pub open spec fn witness_input_spec(record: Seq<u8>, position: int) -> Seq<u8> {
    seq![position as u8] + record
}

/// The witness for a record at a piece position.
pub open spec fn witness_spec(record: Seq<u8>, position: int) -> Seq<u8> {
    digest_of(witness_input_spec(record, position))
}

/// Commits to one record.
pub fn commit(record: &Vec<u8>) -> (r: Vec<u8>)
    ensures
        r@ == commitment_spec(record@),
        r@.len() == COMMITMENT_SIZE,
{
    blake3_digest(record)
}

/// Produces the witness binding `record` to the piece `position`.
pub fn prove(record: &Vec<u8>, position: usize) -> (r: Vec<u8>)
    requires
        position < PIECES_PER_SEGMENT,
    ensures
        r@ == witness_spec(record@, position as int),
        r@.len() == WITNESS_SIZE,
{
    let mut input: Vec<u8> = Vec::new();
    input.push(position as u8);
    push_all(&mut input, record);
    proof {
        assert(input@ =~= witness_input_spec(record@, position as int));
    }
    blake3_digest(&input)
}

/// Checks a commitment and witness against a record at a piece position:
/// true exactly when both are the ones [`commit`] and [`prove`] produce.
pub fn verify(commitment: &Vec<u8>, witness: &Vec<u8>, position: usize, record: &Vec<u8>) -> (r:
    bool)
    requires
        position < PIECES_PER_SEGMENT,
    ensures
        r == (commitment@ == commitment_spec(record@) && witness@ == witness_spec(
            record@,
            position as int,
        )),
{
    let expected_commitment = commit(record);
    let expected_witness = prove(record, position);
    bytes_equal(commitment, &expected_commitment) && bytes_equal(witness, &expected_witness)
}

} // verus!
