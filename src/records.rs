//! The records of a claim envelope, as they stand after parsing.
use vstd::prelude::*;
use crate::pipeline::PipelineError;

verus! {

/// Body of the request that asks the attestation service for a transfer claim.
pub struct TransferRequest {
    pub id: String,
    pub bank: String,
}

/// Claim metadata as the attestation service reports it next to its signatures.
pub struct ClaimData {
    pub provider: String,
    pub parameters: String,
    pub owner: String,
    pub timestamp: u64,
    pub context: String,
    pub identifier: String,
    pub epoch: u64,
}

/// A witness that took part in the attestation.
pub struct Witness {
    pub id: String,
    pub url: String,
}

/// The attestation service's answer in its flat form.
pub struct TransferResponse {
    pub claim_data: ClaimData,
    pub identifier: String,
    pub signatures: Vec<String>,
    pub extracted_parameter_values: String,
    pub witnesses: Vec<Witness>,
}

/// One field extracted from the attested HTTP response; `value_resp` holds a
/// string-encoded transfer document.
pub struct ResponseMatch {
    pub type_resp: String,
    pub value_resp: String,
}

/// The request/response matcher configuration the claim was made over.
pub struct Parameters {
    pub body: String,
    pub method: String,
    pub response_matches: Vec<ResponseMatch>,
    pub response_redactions: Vec<ResponseMatch>,
    pub url: String,
}

/// The asserted bank transfer.
pub struct TransferData {
    pub id: String,
    pub bank: String,
    pub to: String,
    pub transfer_date: String,
    pub amount: u64,
}

/// The transfer record under the name the claim envelope gives it.
pub type Transaction = TransferData;

/// The transfer document found in a response match's value.
pub struct Data {
    pub data: Vec<TransferData>,
}

/// The signed part of a claim: hex identifier, hex owner address, epoch and time.
pub struct Claim {
    pub epoch: u32,
    pub identifier: String,
    pub owner: String,
    pub timestamp: u32,
}

/// Provenance of the attested web interaction.
pub struct ClaimInfo {
    pub provider: String,
    pub parameters: String,
    pub context: String,
}

/// A claim with the attestors' signatures, in order.
pub struct SignedClaim {
    pub claim: Claim,
    pub signatures: Vec<String>,
}

/// The whole claim envelope.
pub struct Proof {
    pub claim_info: ClaimInfo,
    pub signed_claim: SignedClaim,
}


impl Claim {
    /// A claim whose epoch and timestamp arrive as 64-bit numbers; both are
    /// committed as `uint32`, so a larger value is a range error.
    pub fn from_wide(epoch: u64, identifier: String, owner: String, timestamp: u64) -> (r: Result<
        Claim,
        PipelineError,
    >)
        ensures
            match r {
                Ok(c) => epoch <= u32::MAX && timestamp <= u32::MAX && c.epoch == epoch
                    && c.timestamp == timestamp && c.identifier == identifier && c.owner == owner,
                Err(e) => (epoch > u32::MAX || timestamp > u32::MAX) && e == PipelineError::Range,
            },
    {
        if epoch > u32::MAX as u64 || timestamp > u32::MAX as u64 {
            Err(PipelineError::Range)
        } else {
            Ok(Claim { epoch: epoch as u32, identifier, owner, timestamp: timestamp as u32 })
        }
    }
}

impl TransferResponse {
    /// The claim envelope carried by a flat attestation response.
    pub fn into_proof(self) -> (r: Result<Proof, PipelineError>)
        ensures
            match r {
                Ok(p) => {
                    &&& self.claim_data.epoch <= u32::MAX && self.claim_data.timestamp <= u32::MAX
                    &&& p.claim_info == (ClaimInfo {
                        provider: self.claim_data.provider,
                        parameters: self.claim_data.parameters,
                        context: self.claim_data.context,
                    })
                    &&& p.signed_claim.claim == (Claim {
                        epoch: self.claim_data.epoch as u32,
                        identifier: self.claim_data.identifier,
                        owner: self.claim_data.owner,
                        timestamp: self.claim_data.timestamp as u32,
                    })
                    &&& p.signed_claim.signatures == self.signatures
                },
                Err(e) => (self.claim_data.epoch > u32::MAX || self.claim_data.timestamp > u32::MAX)
                    && e == PipelineError::Range,
            },
    {
        let cd = self.claim_data;
        let claim = Claim::from_wide(cd.epoch, cd.identifier, cd.owner, cd.timestamp)?;
        Ok(Proof {
            claim_info: ClaimInfo { provider: cd.provider, parameters: cd.parameters, context: cd.context },
            signed_claim: SignedClaim { claim, signatures: self.signatures },
        })
    }
}

} // verus!
