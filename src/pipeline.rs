//! From a parsed claim envelope to the committed public values.
//!
//! Every failure is final: the run yields an error and no output.
use vstd::prelude::*;
use vstd::utf8::{encode_utf8, encode_utf8_decode_utf8};
use crate::abi::{
    lemma_pow256_exceeds_u64, lemma_public_values_encoding_len, public_values_encoding, well_formed,
    CompleteClaimData, PublicValuesStruct, PublicValuesView, SignedClaimRecord,
};
use crate::decode::{decode_public_values, lemma_decode_encode};
use crate::identity::{fixed_hex, hex_decoded, parse_fixed_hex, without_hex_prefix};
use crate::records::{ClaimInfo, Data, Parameters, Proof, ResponseMatch, TransferData};

verus! {

/// Why a run produced no public values.
#[derive(PartialEq, Eq, Structural, Debug, Clone, Copy)]
pub enum PipelineError {
    /// The input, or one of its nested documents, is not well-formed.
    Deserialization,
    /// A collection that must hold exactly one element does not.
    MissingElement,
    /// An identifier or owner does not decode to its fixed width.
    Encoding,
    /// A number does not fit the width it is committed with.
    Range,
}

/// The Keccak-256 digest of a byte string.
pub uninterp spec fn keccak256_of(data: Seq<u8>) -> Seq<u8>;

/// Relies on alloy_primitives::keccak256: the 32-byte Keccak-256 digest of the bytes.
#[verifier::external_body]
fn keccak256(data: &[u8]) -> (r: Vec<u8>)
    ensures
        r@ == keccak256_of(data@),
        r@.len() == 32,
{
    alloy_primitives::keccak256(data).to_vec()
}

/// The UTF-8 bytes of a string.
pub open spec fn text_bytes(s: String) -> Seq<u8> {
    encode_utf8(s@)
}

/// What the claim-info digest is taken over: provider, parameters and context,
/// separated by newlines. The parameters are the raw string that the attester
/// signed over, never a re-serialisation of its parsed form.
pub open spec fn claim_info_preimage(info: ClaimInfo) -> Seq<u8> {
    text_bytes(info.provider) + seq![0x0Au8] + text_bytes(info.parameters) + seq![0x0Au8]
        + text_bytes(info.context)
}

/// The signatures as opaque byte strings: the UTF-8 bytes of each, in order.
pub open spec fn signature_list(sigs: Seq<String>) -> Seq<Seq<u8>> {
    Seq::new(sigs.len(), |i: int| text_bytes(sigs[i]))
}

/// The public values of a claim whose identifier and owner resolved to the given bytes.
pub open spec fn resolved_public_values(
    proof: Proof,
    transfer: TransferData,
    identifier: Seq<u8>,
    owner: Seq<u8>,
) -> PublicValuesView {
    PublicValuesView {
        hashed_channel_id: keccak256_of(text_bytes(transfer.bank)),
        hashed_channel_account: keccak256_of(text_bytes(transfer.to)),
        amount: transfer.amount as nat,
        hashed_claim_info: keccak256_of(claim_info_preimage(proof.claim_info)),
        identifier,
        owner,
        timestamp_s: proof.signed_claim.claim.timestamp as nat,
        epoch: proof.signed_claim.claim.epoch as nat,
        signatures: signature_list(proof.signed_claim.signatures@),
    }
}

/// The outcome of a run on a claim envelope and its transfer document.
pub open spec fn public_values_of(proof: Proof, data: Data) -> Result<PublicValuesView, PipelineError> {
    if data.data@.len() != 1 {
        Err(PipelineError::MissingElement)
    } else {
        let claim = proof.signed_claim.claim;
        match (fixed_hex(text_bytes(claim.identifier), 32), fixed_hex(text_bytes(claim.owner), 20)) {
            (Some(identifier), Some(owner)) => Ok(
                resolved_public_values(proof, data.data@[0], identifier, owner),
            ),
            _ => Err(PipelineError::Encoding),
        }
    }
}

/// The committed bytes of a run, or its error.
pub open spec fn public_output_of(proof: Proof, data: Data) -> Result<Seq<u8>, PipelineError> {
    match public_values_of(proof, data) {
        Ok(v) => Ok(public_values_encoding(v)),
        Err(e) => Err(e),
    }
}

/// The size of the encoding for a claim with these signatures.
pub open spec fn output_len(sigs: Seq<String>) -> nat {
    352 + crate::abi::bytes_array(signature_list(sigs)).len()
}

fn string_bytes(s: &String) -> (r: Vec<u8>)
    ensures
        r@ == text_bytes(*s),
{
    vstd::slice::slice_to_vec(s.as_str().as_bytes())
}

/// The claim-info preimage in bytes.
pub fn claim_info_bytes(info: &ClaimInfo) -> (r: Vec<u8>)
    ensures
        r@ == claim_info_preimage(*info),
{
    let mut r = string_bytes(&info.provider);
    r.push(0x0Au8);
    let mut parameters = string_bytes(&info.parameters);
    r.append(&mut parameters);
    r.push(0x0Au8);
    let mut context = string_bytes(&info.context);
    r.append(&mut context);
    assert(r@ =~= claim_info_preimage(*info));
    r
}

/// The digest that binds the public values to the claim's provenance.
pub fn hash_claim_info(info: &ClaimInfo) -> (r: Vec<u8>)
    ensures
        r@ == keccak256_of(claim_info_preimage(*info)),
        r@.len() == 32,
{
    let pre = claim_info_bytes(info);
    keccak256(pre.as_slice())
}

/// The digest of the transfer's bank (channel) identifier.
pub fn hash_channel_id(transfer: &TransferData) -> (r: Vec<u8>)
    ensures
        r@ == keccak256_of(text_bytes(transfer.bank)),
        r@.len() == 32,
{
    keccak256(transfer.bank.as_str().as_bytes())
}

/// The digest of the transfer's counterparty account.
pub fn hash_channel_account(transfer: &TransferData) -> (r: Vec<u8>)
    ensures
        r@ == keccak256_of(text_bytes(transfer.to)),
        r@.len() == 32,
{
    keccak256(transfer.to.as_str().as_bytes())
}

/// The one response match of the parameters; there must be exactly one.
pub fn single_response_match(params: &Parameters) -> (r: Result<&ResponseMatch, PipelineError>)
    ensures
        match r {
            Ok(m) => params.response_matches@.len() == 1 && *m == params.response_matches@[0],
            Err(e) => params.response_matches@.len() != 1 && e == PipelineError::MissingElement,
        },
{
    if params.response_matches.len() == 1 {
        Ok(&params.response_matches[0])
    } else {
        Err(PipelineError::MissingElement)
    }
}

/// The one transfer record of a transfer document; there must be exactly one.
pub fn single_transfer(data: &Data) -> (r: Result<&TransferData, PipelineError>)
    ensures
        match r {
            Ok(t) => data.data@.len() == 1 && *t == data.data@[0],
            Err(e) => data.data@.len() != 1 && e == PipelineError::MissingElement,
        },
{
    if data.data.len() == 1 {
        Ok(&data.data[0])
    } else {
        Err(PipelineError::MissingElement)
    }
}

/// The 32 bytes of a hex claim identifier, with or without `0x`.
pub fn resolve_identifier(text: &String) -> (r: Result<Vec<u8>, PipelineError>)
    ensures
        match r {
            Ok(v) => fixed_hex(text_bytes(*text), 32) == Some(v@),
            Err(e) => fixed_hex(text_bytes(*text), 32) is None && e == PipelineError::Encoding,
        },
{
    match parse_fixed_hex(text.as_str(), 32) {
        Some(v) => Ok(v),
        None => Err(PipelineError::Encoding),
    }
}

/// The 20 bytes of a hex owner address, with or without `0x`.
pub fn resolve_owner(text: &String) -> (r: Result<Vec<u8>, PipelineError>)
    ensures
        match r {
            Ok(v) => fixed_hex(text_bytes(*text), 20) == Some(v@),
            Err(e) => fixed_hex(text_bytes(*text), 20) is None && e == PipelineError::Encoding,
        },
{
    match parse_fixed_hex(text.as_str(), 20) {
        Some(v) => Ok(v),
        None => Err(PipelineError::Encoding),
    }
}

/// The signatures as byte strings, in order and unvalidated.
pub fn resolve_signatures(sigs: &Vec<String>) -> (r: Vec<Vec<u8>>)
    ensures
        r.deep_view() == signature_list(sigs@),
{
    let mut out: Vec<Vec<u8>> = Vec::new();
    let mut i: usize = 0;
    while i < sigs.len()
        invariant
            i <= sigs@.len(),
            out@.len() == i,
            forall|k: int| 0 <= k < i ==> (#[trigger] out@[k])@ == text_bytes(sigs@[k]),
        decreases sigs@.len() - i,
    {
        let b = string_bytes(&sigs[i]);
        out.push(b);
        i = i + 1;
    }
    assert forall|k: int| 0 <= k < out@.len() implies out.deep_view()[k] == signature_list(sigs@)[k] by {
        assert(out@[k].deep_view() =~= out@[k]@);
    }
    assert(out.deep_view() =~= signature_list(sigs@));
    out
}

/// Builds the public values of a claim from its envelope and transfer document.
pub fn public_values(proof: &Proof, data: &Data) -> (r: Result<PublicValuesStruct, PipelineError>)
    ensures
        match r {
            Ok(v) => public_values_of(*proof, *data) == Ok::<PublicValuesView, PipelineError>(v@)
                && well_formed(v@),
            Err(e) => public_values_of(*proof, *data) == Err::<PublicValuesView, PipelineError>(e),
        },
{
    let transfer = single_transfer(data)?;
    let claim = &proof.signed_claim.claim;
    let identifier = resolve_identifier(&claim.identifier)?;
    let owner = resolve_owner(&claim.owner)?;
    let hashed_claim_info = hash_claim_info(&proof.claim_info);
    let hashed_channel_id = hash_channel_id(transfer);
    let hashed_channel_account = hash_channel_account(transfer);
    let signatures = resolve_signatures(&proof.signed_claim.signatures);
    let v = PublicValuesStruct {
        hashed_channel_id,
        hashed_channel_account,
        amount: transfer.amount,
        hashed_claim_info,
        signed_claim: SignedClaimRecord {
            claim: CompleteClaimData {
                identifier,
                owner,
                timestamp_s: claim.timestamp,
                epoch: claim.epoch,
            },
            signatures,
        },
    };
    Ok(v)
}


/// Runs the whole pipeline on a parsed claim envelope and its transfer
/// document, giving the bytes to commit.
pub fn encode_public_values(proof: &Proof, data: &Data) -> (r: Result<Vec<u8>, PipelineError>)
    requires
        output_len(proof.signed_claim.signatures@) <= usize::MAX,
    ensures
        match r {
            Ok(b) => public_output_of(*proof, *data) == Ok::<Seq<u8>, PipelineError>(b@)
                && decode_public_values(b@) == Some(public_values_of(*proof, *data)->Ok_0),
            Err(e) => public_output_of(*proof, *data) == Err::<Seq<u8>, PipelineError>(e),
        },
{
    let v = public_values(proof, data)?;
    proof {
        lemma_public_values_encoding_len(v@);
        lemma_pow256_exceeds_u64(32);
        lemma_decode_encode(v@);
    }
    Ok(v.abi_encode())
}


/// Two envelopes whose read fields hold the same text and numbers.
pub open spec fn same_envelope(a: Proof, b: Proof) -> bool {
    &&& a.claim_info.provider@ == b.claim_info.provider@
    &&& a.claim_info.parameters@ == b.claim_info.parameters@
    &&& a.claim_info.context@ == b.claim_info.context@
    &&& a.signed_claim.claim.epoch == b.signed_claim.claim.epoch
    &&& a.signed_claim.claim.timestamp == b.signed_claim.claim.timestamp
    &&& a.signed_claim.claim.identifier@ == b.signed_claim.claim.identifier@
    &&& a.signed_claim.claim.owner@ == b.signed_claim.claim.owner@
    &&& a.signed_claim.signatures@.len() == b.signed_claim.signatures@.len()
    &&& forall|i: int|
        0 <= i < a.signed_claim.signatures@.len() ==> (#[trigger] a.signed_claim.signatures@[i])@
            == b.signed_claim.signatures@[i]@
}

/// A run is a function of what it reads: envelopes that read the same, with
/// transfer documents that agree on the count of records and on the bank,
/// account and amount of the one record, give the same bytes or the same error.
pub proof fn lemma_output_deterministic(first: Proof, first_data: Data, second: Proof, second_data: Data)
    requires
        same_envelope(first, second),
        first_data.data@.len() == second_data.data@.len(),
        first_data.data@.len() == 1 ==> {
            &&& first_data.data@[0].bank@ == second_data.data@[0].bank@
            &&& first_data.data@[0].to@ == second_data.data@[0].to@
            &&& first_data.data@[0].amount == second_data.data@[0].amount
        },
    ensures
        public_output_of(first, first_data) == public_output_of(second, second_data),
{
    assert(signature_list(first.signed_claim.signatures@) =~= signature_list(
        second.signed_claim.signatures@,
    ));
}

/// Two transfer records that differ only in the bank give public values that
/// differ only in the channel-id digest, which is taken over different bytes;
/// the account digest is the same. The same holds with bank and account swapped.
pub proof fn lemma_channel_digests_separate(
    proof: Proof,
    t1: TransferData,
    t2: TransferData,
    identifier: Seq<u8>,
    owner: Seq<u8>,
)
    requires
        t1.amount == t2.amount,
        t1.bank@ != t2.bank@ || t1.to@ != t2.to@,
    ensures
        ({
            let v1 = resolved_public_values(proof, t1, identifier, owner);
            let v2 = resolved_public_values(proof, t2, identifier, owner);
            &&& t1.to@ == t2.to@ ==> v1.hashed_channel_account == v2.hashed_channel_account
                && text_bytes(t1.bank) != text_bytes(t2.bank)
            &&& t1.bank@ == t2.bank@ ==> v1.hashed_channel_id == v2.hashed_channel_id
                && text_bytes(t1.to) != text_bytes(t2.to)
            &&& v1.hashed_channel_id == keccak256_of(text_bytes(t1.bank))
            &&& v1.hashed_channel_account == keccak256_of(text_bytes(t1.to))
            &&& (PublicValuesView {
                hashed_channel_id: v2.hashed_channel_id,
                hashed_channel_account: v2.hashed_channel_account,
                ..v1
            }) == v2
        }),
{
    encode_utf8_decode_utf8(t1.bank@);
    encode_utf8_decode_utf8(t2.bank@);
    encode_utf8_decode_utf8(t1.to@);
    encode_utf8_decode_utf8(t2.to@);
}

/// An identifier that is hex text for any number of bytes but 32 is rejected
/// with an encoding error: it is never truncated or padded.
pub proof fn lemma_identifier_length_enforced(proof: Proof, data: Data)
    requires
        data.data@.len() == 1,
        hex_decoded(without_hex_prefix(text_bytes(proof.signed_claim.claim.identifier))) is Some,
        hex_decoded(without_hex_prefix(text_bytes(proof.signed_claim.claim.identifier)))->0.len()
            != 32,
    ensures
        public_values_of(proof, data) == Err::<PublicValuesView, PipelineError>(
            PipelineError::Encoding,
        ),
        public_output_of(proof, data) == Err::<Seq<u8>, PipelineError>(PipelineError::Encoding),
{
}

/// A transfer document with no record, or with more than one, is rejected
/// whatever else the input holds; with exactly one, that record alone is read.
pub proof fn lemma_single_record_enforced(proof: Proof, data: Data, other: Data)
    ensures
        data.data@.len() != 1 ==> public_output_of(proof, data) == Err::<Seq<u8>, PipelineError>(
            PipelineError::MissingElement,
        ),
        data.data@.len() == 1 && other.data@.len() == 1 && data.data@[0] == other.data@[0]
            ==> public_output_of(proof, data) == public_output_of(proof, other),
{
}

} // verus!
