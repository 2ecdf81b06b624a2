//! Rebuilding a block header from the parts of a share, and checking the
//! proof of work that it carries.
//!
//! A header is the pre-header bytes of the job, the nonce, and the proof, in
//! that order. The bytes are put together here; reading them back as a
//! header and verifying the proof of work are left to `grin_core`.

use crate::grin::{
    be_bytes, deserialize_header, from_hex, header_decodes, hex_decoding, packable,
    proof_encoding, select_mainnet, ser_nonce, ser_proof, to_unscaled_difficulty,
    pow_holds, unscaled_difficulty, verify_size, ReadHeader, PROOF_SIZE,
};
use crate::share::ProofCheck;
use vstd::prelude::*;
use vstd::utf8::is_ascii_chars;

verus! {

/// Why no header could be rebuilt.
#[derive(Clone, Copy, Debug, PartialEq, Eq, Structural)]
pub enum HeaderError {
    /// The pre-header is not a hexadecimal text.
    PrePow,
    /// The proof cannot be packed: wrong number of nonces, edge bits out of
    /// range, or a nonce wider than the edge bits.
    Proof,
    /// A part could not be serialized.
    Encoding,
    /// The bytes do not read as a block header.
    Decoding,
}

/// The bytes from which the header of a share is read, or the reason why
/// there are none.
pub open spec fn header_encoding(pre_pow: Seq<char>, edge_bits: u8, nonce: u64, proof: Seq<u64>)
    -> Result<Seq<u8>, HeaderError> {
    if !is_ascii_chars(pre_pow) || hex_decoding(pre_pow) is None {
        Err(HeaderError::PrePow)
    } else if !packable(edge_bits, proof) {
        Err(HeaderError::Proof)
    } else {
        Ok(hex_decoding(pre_pow)->Some_0 + be_bytes(nonce) + proof_encoding(edge_bits, proof))
    }
}

/// Whether a header can be rebuilt from these parts.
pub open spec fn header_readable(pre_pow: Seq<char>, edge_bits: u8, nonce: u64, proof: Seq<u64>)
    -> bool {
    match header_encoding(pre_pow, edge_bits, nonce, proof) {
        Ok(bytes) => header_decodes(bytes),
        Err(_) => false,
    }
}

/// Whether the nonce packer accepts a proof.
pub fn proof_is_packable(edge_bits: u8, nonces: &Vec<u64>) -> (r: bool)
    ensures
        r == packable(edge_bits, nonces@),
{
    if edge_bits < 1 || edge_bits > 63 || nonces.len() != PROOF_SIZE {
        return false;
    }
    let limit: u64 = 1u64 << (edge_bits as u64);
    let mut i: usize = 0;
    while i < nonces.len()
        invariant
            i <= nonces.len(),
            limit == 1u64 << (edge_bits as u64),
            forall|j: int| 0 <= j < i ==> #[trigger] nonces@[j] < limit,
        decreases nonces.len() - i,
    {
        if nonces[i] >= limit {
            return false;
        }
        i = i + 1;
    }
    true
}

/// Puts together the bytes of a header: the decoded pre-header, the nonce,
/// and the packed proof.
pub fn header_bytes(pre_pow: &str, edge_bits: u8, nonce: u64, proof: Vec<u64>) -> (r: Result<
    Vec<u8>,
    HeaderError,
>)
    ensures
        match r {
            Ok(bytes) => header_encoding(pre_pow@, edge_bits, nonce, proof@) == Ok::<
                Seq<u8>,
                HeaderError,
            >(bytes@),
            Err(e) => header_encoding(pre_pow@, edge_bits, nonce, proof@) == Err::<
                Seq<u8>,
                HeaderError,
            >(e),
        },
{
    if !pre_pow.is_ascii() {
        return Err(HeaderError::PrePow);
    }
    let mut bytes = match from_hex(pre_pow) {
        Ok(bytes) => bytes,
        Err(_) => {
            return Err(HeaderError::PrePow);
        },
    };
    if !proof_is_packable(edge_bits, &proof) {
        return Err(HeaderError::Proof);
    }
    let mut nonce_bytes = match ser_nonce(nonce) {
        Ok(nonce_bytes) => nonce_bytes,
        Err(_) => {
            return Err(HeaderError::Encoding);
        },
    };
    bytes.append(&mut nonce_bytes);
    let params = select_mainnet();
    let mut proof_bytes = match ser_proof(&params, edge_bits, proof) {
        Ok(proof_bytes) => proof_bytes,
        Err(_) => {
            return Err(HeaderError::Encoding);
        },
    };
    bytes.append(&mut proof_bytes);
    Ok(bytes)
}

/// Rebuilds the header of a share from the pre-header of its job, its edge
/// bits, its nonce and its proof.
///
/// Succeeds exactly where the parts give bytes and the bytes read as a
/// header; otherwise says which step failed:
///
/// - [`HeaderError::PrePow`] where the pre-header is no hexadecimal text;
/// - [`HeaderError::Proof`] where the proof cannot be packed;
/// - [`HeaderError::Decoding`] where the bytes do not read as a header.
///
/// The header is read on main-network consensus parameters, which this
/// selects for the calling thread.
pub fn block_header(pre_pow: String, edge_bits: u8, nonce: u64, proof: Vec<u64>) -> (r: Result<
    grin_core::core::BlockHeader,
    HeaderError,
>)
    ensures
        r is Ok <==> header_readable(pre_pow@, edge_bits, nonce, proof@),
        r matches Err(e) ==> match header_encoding(pre_pow@, edge_bits, nonce, proof@) {
            Ok(_) => e == HeaderError::Decoding,
            Err(cause) => e == cause,
        },
{
    match read_header(pre_pow.as_str(), edge_bits, nonce, proof) {
        Ok(header) => Ok(header.into_header()),
        Err(e) => Err(e),
    }
}

/// Checks the proof of work of a share against the pre-header of its job.
///
/// Where no header can be rebuilt the check fails. Where one can, the
/// verifier of `grin_core` decides; if it is satisfied the result carries the
/// unscaled difficulty of the proof, which is at least one.
pub fn check_solution(pre_pow: &String, edge_bits: u8, nonce: u64, proof: &Vec<u64>) -> (r:
    ProofCheck)
    ensures
        r == solution_check(pre_pow@, edge_bits, nonce, proof@),
        !header_readable(pre_pow@, edge_bits, nonce, proof@) ==> r == ProofCheck::Failed,
        r matches ProofCheck::Verified { difficulty } ==> difficulty == unscaled_difficulty(
            edge_bits,
            proof@,
        ) && difficulty >= 1,
{
    let header = match read_header(pre_pow.as_str(), edge_bits, nonce, proof.clone()) {
        Ok(header) => header,
        Err(_) => {
            return ProofCheck::Failed;
        },
    };
    let params = select_mainnet();
    match verify_size(&params, &header) {
        Ok(_) => ProofCheck::Verified {
            difficulty: to_unscaled_difficulty(&params, edge_bits, proof),
        },
        Err(_) => ProofCheck::Failed,
    }
}

/// What the proof-of-work check finds of a share, given the pre-header of
/// its job: where a header can be rebuilt and its proof of work holds, the
/// unscaled difficulty of the proof; else that the check failed.
pub open spec fn solution_check(pre_pow: Seq<char>, edge_bits: u8, nonce: u64, proof: Seq<u64>)
    -> ProofCheck {
    match header_encoding(pre_pow, edge_bits, nonce, proof) {
        Ok(bytes) => if header_decodes(bytes) && pow_holds(bytes) {
            ProofCheck::Verified { difficulty: unscaled_difficulty(edge_bits, proof) }
        } else {
            ProofCheck::Failed
        },
        Err(_) => ProofCheck::Failed,
    }
}

/// Puts together the bytes of a header and reads them as one, with the
/// bytes kept beside it.
fn read_header(pre_pow: &str, edge_bits: u8, nonce: u64, proof: Vec<u64>) -> (r: Result<
    ReadHeader,
    HeaderError,
>)
    ensures
        r is Ok <==> header_readable(pre_pow@, edge_bits, nonce, proof@),
        r matches Ok(header) ==> header_encoding(pre_pow@, edge_bits, nonce, proof@) == Ok::<
            Seq<u8>,
            HeaderError,
        >(header@),
        r matches Err(e) ==> match header_encoding(pre_pow@, edge_bits, nonce, proof@) {
            Ok(_) => e == HeaderError::Decoding,
            Err(cause) => e == cause,
        },
{
    let bytes = match header_bytes(pre_pow, edge_bits, nonce, proof) {
        Ok(bytes) => bytes,
        Err(e) => {
            return Err(e);
        },
    };
    let params = select_mainnet();
    match deserialize_header(&params, &bytes) {
        Ok(header) => Ok(header),
        Err(_) => Err(HeaderError::Decoding),
    }
}

} // verus!
