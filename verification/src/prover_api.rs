use vstd::prelude::*;

verus! {

/// An element of the scalar field of the proving curve, as its encoding.
#[derive(Debug, Clone, PartialEq, Eq, Default)]
pub struct FrElement {
    pub value: Vec<u8>,
}

/// A zero-knowledge proof, in its plain and compressed encodings, together
/// with its form for the EVM verifier and its public inputs.
#[derive(Debug, Clone, PartialEq, Eq, Default)]
pub struct ZeroKnowledgeProof {
    pub content: Vec<u8>,
    pub compressed_content: Vec<u8>,
    pub evm_proof: Vec<u8>,
    pub public_inputs: Vec<u8>,
}

/// A public key of a validator.
#[derive(Debug, Clone, PartialEq, Eq)]
pub enum PublicKey {
    Ed25519(Vec<u8>),
    Secp256k1(Vec<u8>),
    Bn254(Vec<u8>),
    Bls12381(Vec<u8>),
}

/// A validator as the prover sees it: its key and its voting power.
#[derive(Debug, Clone, PartialEq, Eq, Default)]
pub struct SimpleValidator {
    pub pub_key: Option<PublicKey>,
    pub voting_power: i64,
}

/// The header of the part set of a block, in the form that votes sign.
#[derive(Debug, Clone, PartialEq, Eq, Default)]
pub struct CanonicalPartSetHeader {
    pub total: u32,
    pub hash: Vec<u8>,
}

/// The id of a block, in the form that votes sign.
#[derive(Debug, Clone, PartialEq, Eq, Default)]
pub struct CanonicalBlockId {
    pub hash: Vec<u8>,
    pub part_set_header: Option<CanonicalPartSetHeader>,
}

/// A vote, in the form that validators sign.
#[derive(Debug, Clone, PartialEq, Eq, Default)]
pub struct CanonicalVote {
    pub vote_type: i32,
    pub height: i64,
    pub round: i64,
    pub block_id: Option<CanonicalBlockId>,
    pub chain_id: String,
}

/// A validator set with the signatures that some of its members made; the
/// bitmap says which members signed.
#[derive(Debug, Clone, PartialEq, Eq, Default)]
pub struct ValidatorSetCommit {
    pub validators: Vec<SimpleValidator>,
    pub signatures: Vec<Vec<u8>>,
    pub bitmap: Vec<u8>,
}

/// Asks for a proof that a vote was signed by enough of the trusted and of the
/// untrusted validator set.
#[derive(Debug, Clone, PartialEq, Eq, Default)]
pub struct ProveRequest {
    pub vote: Option<CanonicalVote>,
    pub trusted_commit: Option<ValidatorSetCommit>,
    pub untrusted_commit: Option<ValidatorSetCommit>,
}

/// The proof, with the roots of the two validator sets it speaks of.
#[derive(Debug, Clone, PartialEq, Eq, Default)]
pub struct ProveResponse {
    pub proof: Option<ZeroKnowledgeProof>,
    pub trusted_validator_set_root: Vec<u8>,
    pub untrusted_validator_set_root: Vec<u8>,
}

/// Asks whether a proof holds for two validator set roots and a block header
/// given as two field elements.
#[derive(Debug, Clone, PartialEq, Eq, Default)]
pub struct VerifyRequest {
    pub proof: Option<ZeroKnowledgeProof>,
    pub trusted_validator_set_root: Vec<u8>,
    pub untrusted_validator_set_root: Vec<u8>,
    pub block_header_x: Option<FrElement>,
    pub block_header_y: Option<FrElement>,
}

/// Whether the proof holds.
#[derive(Debug, Clone, Copy, PartialEq, Eq, Default)]
pub struct VerifyResponse {
    pub valid: bool,
}

/// Asks for the verifier contract.
#[derive(Debug, Clone, Copy, PartialEq, Eq, Default)]
pub struct GenerateContractRequest {}

/// The source of the verifier contract.
#[derive(Debug, Clone, PartialEq, Eq, Default)]
pub struct GenerateContractResponse {
    pub content: Vec<u8>,
}

} // verus!
