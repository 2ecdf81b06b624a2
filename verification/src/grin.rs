//! The boundary to the `grin_core` and `grin_util` crates.
//!
//! The functions in this file call into those crates. Their contracts are
//! believed, not proved: each names the function it calls and says what is
//! claimed of it.
//!
//! `grin_core` reads its consensus parameters from a setting of the thread
//! and panics where none was made. The calls that depend on it take a
//! [`Mainnet`], which only [`select_mainnet`] gives out, by making that
//! setting.
//!
//! A block header is opaque here. It is carried in a [`ReadHeader`], beside
//! the bytes it was read from, so that what `grin_core` finds of a header
//! can be said of those bytes. Only [`deserialize_header`] makes one.

use vstd::prelude::*;

verus! {

/// Number of nonces in a solution under main-network parameters
/// (`grin_core::consensus::PROOFSIZE`).
pub const PROOF_SIZE: usize = 42;

/// `grin_core::core::BlockHeader`, carried through as an opaque value.
#[verifier::external_type_specification]
#[verifier::external_body]
pub struct ExBlockHeader(grin_core::core::BlockHeader);

/// `grin_core::ser::Error`, carried through as an opaque value.
#[verifier::external_type_specification]
#[verifier::external_body]
pub struct ExSerError(grin_core::ser::Error);

/// `grin_core::pow::Error`, carried through as an opaque value.
#[verifier::external_type_specification]
#[verifier::external_body]
pub struct ExPowError(grin_core::pow::Error);

/// Shows that the calling thread has selected main-network consensus
/// parameters: the proof size is [`PROOF_SIZE`]. Only [`select_mainnet`]
/// makes one.
pub struct Mainnet {
    _selected: (),
}

/// A block header that `grin_core` read, and the bytes it read it from. Its
/// view is those bytes.
pub struct ReadHeader {
    header: grin_core::core::BlockHeader,
    source: Vec<u8>,
}

impl View for ReadHeader {
    type V = Seq<u8>;

    closed spec fn view(&self) -> Seq<u8> {
        self.source@
    }
}

impl ReadHeader {
    /// The header that is held.
    pub closed spec fn held(&self) -> grin_core::core::BlockHeader {
        self.header
    }

    /// Gives the header that is held.
    pub fn into_header(self) -> (r: grin_core::core::BlockHeader)
        ensures
            r == self.held(),
    {
        self.header
    }
}

/// What `grin_util::from_hex` makes of a text: the bytes it decodes to, or
/// `None` where it reports an error.
pub uninterp spec fn hex_decoding(text: Seq<char>) -> Option<Seq<u8>>;

/// The bytes `grin_core::ser::ser_vec` writes for a `grin_core::pow::Proof`
/// with the given edge bits and nonces, under main-network parameters.
pub uninterp spec fn proof_encoding(edge_bits: u8, nonces: Seq<u64>) -> Seq<u8>;

/// Whether `grin_core::ser::deserialize` reads a block header from the given
/// bytes, under main-network parameters.
pub uninterp spec fn header_decodes(bytes: Seq<u8>) -> bool;

/// Whether `grin_core::pow::verify_size` accepts the header that
/// `grin_core::ser::deserialize` reads from the given bytes, under
/// main-network parameters.
pub uninterp spec fn pow_holds(bytes: Seq<u8>) -> bool;

/// The unscaled difficulty `grin_core::pow::ProofOfWork::to_unscaled_difficulty`
/// gives a proof with these edge bits and nonces, under main-network
/// parameters.
pub uninterp spec fn unscaled_difficulty(edge_bits: u8, nonces: Seq<u64>) -> u64;

/// The eight bytes of `n`, most significant first.
pub open spec fn be_bytes(n: u64) -> Seq<u8> {
    Seq::new(8, |i: int| ((n as int / pow256(7 - i)) % 256) as u8)
}

/// 256 to the power `k`, for `k` in `0..8`.
pub open spec fn pow256(k: int) -> int {
    if k <= 0 {
        1
    } else if k == 1 {
        0x100
    } else if k == 2 {
        0x1_0000
    } else if k == 3 {
        0x100_0000
    } else if k == 4 {
        0x1_0000_0000
    } else if k == 5 {
        0x100_0000_0000
    } else if k == 6 {
        0x1_0000_0000_0000
    } else {
        0x100_0000_0000_0000
    }
}

/// A proof that the nonce packer of `grin_core` accepts: the edge bits fit a
/// 64-bit word, there are exactly [`PROOF_SIZE`] nonces, and each nonce fits
/// the edge bits.
pub open spec fn packable(edge_bits: u8, nonces: Seq<u64>) -> bool {
    &&& 1 <= edge_bits <= 63
    &&& nonces.len() == PROOF_SIZE
    &&& forall|i: int| 0 <= i < nonces.len() ==> #[trigger] nonces[i] < (1u64 << (edge_bits as u64))
}

/// Calls `grin_core::global::set_local_chain_type` with `ChainTypes::Mainnet`.
/// Nothing is claimed of the call; the value returned stands for its having
/// been made on this thread.
#[verifier::external_body]
pub(crate) fn select_mainnet() -> Mainnet {
    grin_core::global::set_local_chain_type(grin_core::global::ChainTypes::Mainnet);
    Mainnet { _selected: () }
}

/// Calls `grin_util::from_hex`. It slices the text two bytes at a time, which
/// is only safe on ASCII, hence the precondition. The result is a function of
/// the text alone and is named [`hex_decoding`].
#[verifier::external_body]
pub(crate) fn from_hex(text: &str) -> (r: Result<Vec<u8>, String>)
    requires
        text.is_ascii(),
    ensures
        match r {
            Ok(bytes) => hex_decoding(text@) == Some(bytes@),
            Err(_) => hex_decoding(text@) is None,
        },
{
    grin_util::from_hex(text)
}

/// Calls `grin_core::ser::ser_vec` on a `u64`. The writer emits the integer
/// big-endian into a `Vec`, which cannot fail.
#[verifier::external_body]
pub(crate) fn ser_nonce(nonce: u64) -> (r: Result<Vec<u8>, grin_core::ser::Error>)
    ensures
        r is Ok,
        r->Ok_0@ == be_bytes(nonce),
{
    grin_core::ser::ser_vec(&nonce, grin_core::ser::ProtocolVersion::local())
}

/// Calls `grin_core::ser::ser_vec` on the `grin_core::pow::Proof` that
/// `Proof::new` builds from the nonces, with its edge bits set. The packer
/// indexes and shifts by the edge bits and the proof size, which is safe on a
/// [`packable`] proof. The bytes go into a `Vec`, which cannot fail. Under
/// main-network parameters they are a function of the arguments and are named
/// [`proof_encoding`].
#[verifier::external_body]
pub(crate) fn ser_proof(_params: &Mainnet, edge_bits: u8, nonces: Vec<u64>) -> (r: Result<
    Vec<u8>,
    grin_core::ser::Error,
>)
    requires
        packable(edge_bits, nonces@),
    ensures
        r is Ok,
        r->Ok_0@ == proof_encoding(edge_bits, nonces@),
{
    let mut proof = grin_core::pow::Proof::new(nonces);
    proof.edge_bits = edge_bits;
    grin_core::ser::ser_vec(&proof, grin_core::ser::ProtocolVersion::local())
}

/// Calls `grin_core::ser::deserialize` for a `BlockHeader`, with the local
/// protocol version and full deserialization, and puts the header beside a
/// copy of the bytes. Under main-network parameters whether it succeeds is a
/// function of the bytes, named [`header_decodes`].
#[verifier::external_body]
pub(crate) fn deserialize_header(_params: &Mainnet, bytes: &Vec<u8>) -> (r: Result<
    ReadHeader,
    grin_core::ser::Error,
>)
    ensures
        r is Ok <==> header_decodes(bytes@),
        r matches Ok(header) ==> header@ == bytes@,
{
    match grin_core::ser::deserialize(
        &mut &bytes[..],
        grin_core::ser::ProtocolVersion::local(),
        grin_core::ser::DeserializationMode::default(),
    ) {
        Ok(header) => Ok(ReadHeader { header, source: bytes.clone() }),
        Err(e) => Err(e),
    }
}

/// Calls `grin_core::pow::verify_size` on a header that
/// [`deserialize_header`] gave, on which the verifier returns. The verifier
/// reads the header and the consensus parameters and nothing else, so under
/// main-network parameters its answer is a function of the bytes that the
/// header was read from, named [`pow_holds`].
#[verifier::external_body]
pub(crate) fn verify_size(_params: &Mainnet, header: &ReadHeader) -> (r: Result<
    (),
    grin_core::pow::Error,
>)
    ensures
        r is Ok <==> pow_holds(header@),
{
    grin_core::pow::verify_size(&header.header)
}

/// Calls `grin_core::pow::ProofOfWork::to_unscaled_difficulty` on a proof of
/// work that holds the given proof and nothing else. It hashes the packed
/// nonces, hence the precondition. `Difficulty::from_num` never gives less
/// than one.
#[verifier::external_body]
pub(crate) fn to_unscaled_difficulty(_params: &Mainnet, edge_bits: u8, nonces: &Vec<u64>) -> (r: u64)
    requires
        packable(edge_bits, nonces@),
    ensures
        r == unscaled_difficulty(edge_bits, nonces@),
        r >= 1,
{
    let pow = grin_core::pow::ProofOfWork {
        total_difficulty: grin_core::pow::Difficulty::zero(),
        secondary_scaling: 0,
        nonce: 0,
        proof: grin_core::pow::Proof { edge_bits, nonces: nonces.clone() },
    };
    pow.to_unscaled_difficulty().to_num()
}

} // verus!
