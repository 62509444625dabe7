use zktransfer::pipeline::PipelineError;
use zktransfer::records::{Claim, ClaimData, TransferResponse, Witness};

fn response(epoch: u64, timestamp: u64) -> TransferResponse {
    TransferResponse {
        claim_data: ClaimData {
            provider: "http".to_string(),
            parameters: "{}".to_string(),
            owner: "0xabc".to_string(),
            timestamp,
            context: "ctx".to_string(),
            identifier: "0x01".to_string(),
            epoch,
        },
        identifier: "0x01".to_string(),
        signatures: vec!["0xAB".to_string()],
        extracted_parameter_values: "{}".to_string(),
        witnesses: vec![Witness { id: "w".to_string(), url: "wss://w".to_string() }],
    }
}

#[test]
fn wide_claim_within_range_is_kept() {
    let c = Claim::from_wide(2, "id".to_string(), "own".to_string(), u32::MAX as u64).unwrap();
    assert_eq!(c.epoch, 2);
    assert_eq!(c.timestamp, u32::MAX);
    assert_eq!(c.identifier, "id");
    assert_eq!(c.owner, "own");
}

#[test]
fn wide_claim_out_of_range_is_rejected() {
    let big = u32::MAX as u64 + 1;
    assert_eq!(Claim::from_wide(big, String::new(), String::new(), 0).err(), Some(PipelineError::Range));
    assert_eq!(Claim::from_wide(0, String::new(), String::new(), big).err(), Some(PipelineError::Range));
}

#[test]
fn flat_response_becomes_envelope() {
    let p = response(3, 1700000000).into_proof().unwrap();
    assert_eq!(p.claim_info.provider, "http");
    assert_eq!(p.claim_info.parameters, "{}");
    assert_eq!(p.claim_info.context, "ctx");
    assert_eq!(p.signed_claim.claim.epoch, 3);
    assert_eq!(p.signed_claim.claim.timestamp, 1700000000);
    assert_eq!(p.signed_claim.claim.owner, "0xabc");
    assert_eq!(p.signed_claim.signatures, vec!["0xAB".to_string()]);
    assert_eq!(response(1 << 40, 0).into_proof().err(), Some(PipelineError::Range));
}
