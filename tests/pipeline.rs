use alloy_primitives::{keccak256, Address, Bytes, FixedBytes, U256};
use alloy_sol_types::SolValue;
use zktransfer::abi::PublicValuesStruct;
use zktransfer::pipeline::{
    claim_info_bytes, encode_public_values, hash_claim_info, public_values, resolve_identifier,
    resolve_owner, resolve_signatures, single_response_match, single_transfer, PipelineError,
};
use zktransfer::records::{
    Claim, ClaimInfo, Data, Parameters, Proof, ResponseMatch, SignedClaim, TransferData,
};

type Decoded = (
    FixedBytes<32>,
    FixedBytes<32>,
    U256,
    FixedBytes<32>,
    ((FixedBytes<32>, Address, u32, u32), Vec<Bytes>),
);

fn zero_hex(n: usize) -> String {
    format!("0x{}", "0".repeat(n))
}

fn proof_with(identifier: &str, owner: &str, signatures: Vec<&str>) -> Proof {
    Proof {
        claim_info: ClaimInfo {
            provider: "http".to_string(),
            parameters: "{\"method\":\"POST\"}".to_string(),
            context: "{}".to_string(),
        },
        signed_claim: SignedClaim {
            claim: Claim {
                epoch: 1,
                identifier: identifier.to_string(),
                owner: owner.to_string(),
                timestamp: 1700000000,
            },
            signatures: signatures.into_iter().map(|s| s.to_string()).collect(),
        },
    }
}

fn transfer(bank: &str, to: &str, amount: u64) -> TransferData {
    TransferData {
        id: "T-1".to_string(),
        bank: bank.to_string(),
        to: to.to_string(),
        transfer_date: "2024-08-01".to_string(),
        amount,
    }
}

fn data_of(records: Vec<TransferData>) -> Data {
    Data { data: records }
}

fn scenario_proof() -> Proof {
    proof_with(&zero_hex(64), &zero_hex(40), vec!["0xAB"])
}

#[test]
fn scenario_bank_transfer_encodes() {
    let proof = scenario_proof();
    let data = data_of(vec![transfer("BANK-001", "ACC-42", 1000)]);
    let bytes = encode_public_values(&proof, &data).unwrap();
    let decoded = Decoded::abi_decode(&bytes).unwrap();
    assert_eq!(decoded.0, keccak256("BANK-001".as_bytes()));
    assert_eq!(decoded.1, keccak256("ACC-42".as_bytes()));
    assert_eq!(decoded.2, U256::from(1000u64));
    let ((identifier, owner, timestamp, epoch), signatures) = decoded.4;
    assert_eq!(identifier, FixedBytes::<32>::ZERO);
    assert_eq!(owner, Address::ZERO);
    assert_eq!(timestamp, 1700000000);
    assert_eq!(epoch, 1);
    assert_eq!(signatures, vec![Bytes::from("0xAB".as_bytes().to_vec())]);
}

#[test]
fn encoding_matches_standard_encoder() {
    let sig_a = "a".repeat(32);
    let sig_b = "b".repeat(33);
    let proof = proof_with(
        &format!("0x{}", "1f".repeat(32)),
        &format!("0x{}", "Ab".repeat(20)),
        vec!["", "x", &sig_a, &sig_b],
    );
    let data = data_of(vec![transfer("BANK-7", "ACC-9", u64::MAX)]);
    let bytes = encode_public_values(&proof, &data).unwrap();
    let expected: Decoded = (
        keccak256("BANK-7".as_bytes()),
        keccak256("ACC-9".as_bytes()),
        U256::from(u64::MAX),
        keccak256(claim_info_bytes(&proof.claim_info)),
        (
            (
                FixedBytes::<32>::from([0x1fu8; 32]),
                Address::from([0xabu8; 20]),
                1700000000,
                1,
            ),
            vec![
                Bytes::new(),
                Bytes::from("x".as_bytes().to_vec()),
                Bytes::from(sig_a.as_bytes().to_vec()),
                Bytes::from(sig_b.as_bytes().to_vec()),
            ],
        ),
    );
    assert_eq!(bytes, expected.abi_encode());
    assert_eq!(Decoded::abi_decode(&bytes).unwrap(), expected);
}

#[test]
fn encoding_without_signatures_round_trips() {
    let proof = proof_with(&zero_hex(64), &zero_hex(40), vec![]);
    let data = data_of(vec![transfer("B", "A", 0)]);
    let bytes = encode_public_values(&proof, &data).unwrap();
    assert_eq!(bytes.len(), 384);
    let decoded = Decoded::abi_decode(&bytes).unwrap();
    assert!((decoded.4).1.is_empty());
    assert_eq!(decoded.abi_encode(), bytes);
}

#[test]
fn encoding_is_deterministic() {
    let proof = scenario_proof();
    let data = data_of(vec![transfer("BANK-001", "ACC-42", 1000)]);
    let first = encode_public_values(&proof, &data).unwrap();
    let second = encode_public_values(&proof, &data).unwrap();
    assert_eq!(first, second);
}

#[test]
fn bank_and_account_digests_are_separate() {
    let proof = scenario_proof();
    let a = public_values(&proof, &data_of(vec![transfer("BANK-001", "ACC-42", 5)])).unwrap();
    let b = public_values(&proof, &data_of(vec![transfer("BANK-002", "ACC-42", 5)])).unwrap();
    let c = public_values(&proof, &data_of(vec![transfer("BANK-001", "ACC-43", 5)])).unwrap();
    assert_ne!(a.hashed_channel_id, b.hashed_channel_id);
    assert_eq!(a.hashed_channel_account, b.hashed_channel_account);
    assert_eq!(a.hashed_channel_id, c.hashed_channel_id);
    assert_ne!(a.hashed_channel_account, c.hashed_channel_account);
}

#[test]
fn identifier_of_wrong_length_is_rejected() {
    assert_eq!(resolve_identifier(&zero_hex(62)), Err(PipelineError::Encoding));
    assert_eq!(resolve_identifier(&zero_hex(66)), Err(PipelineError::Encoding));
    assert_eq!(resolve_identifier(&zero_hex(64)).unwrap(), vec![0u8; 32]);
    let data = data_of(vec![transfer("BANK-001", "ACC-42", 1)]);
    let short = proof_with(&zero_hex(62), &zero_hex(40), vec!["0xAB"]);
    let long = proof_with(&zero_hex(66), &zero_hex(40), vec!["0xAB"]);
    assert_eq!(encode_public_values(&short, &data), Err(PipelineError::Encoding));
    assert_eq!(encode_public_values(&long, &data), Err(PipelineError::Encoding));
}

#[test]
fn identifier_hex_forms() {
    let plain = "ff".repeat(32);
    assert_eq!(resolve_identifier(&plain).unwrap(), vec![0xffu8; 32]);
    let upper = format!("0x{}", "A0".repeat(32));
    assert_eq!(resolve_identifier(&upper).unwrap(), vec![0xa0u8; 32]);
    assert_eq!(resolve_identifier(&format!("0x{}", "0".repeat(63))), Err(PipelineError::Encoding));
    assert_eq!(resolve_identifier(&format!("0x{}g", "0".repeat(63))), Err(PipelineError::Encoding));
}

#[test]
fn owner_of_wrong_length_is_rejected() {
    assert_eq!(resolve_owner(&zero_hex(38)), Err(PipelineError::Encoding));
    assert_eq!(resolve_owner(&zero_hex(42)), Err(PipelineError::Encoding));
    let owner = format!("0x{}", "12".repeat(20));
    assert_eq!(resolve_owner(&owner).unwrap(), vec![0x12u8; 20]);
    assert_eq!(resolve_owner(&"34".repeat(20)).unwrap(), vec![0x34u8; 20]);
    let proof = proof_with(&zero_hex(64), &zero_hex(38), vec![]);
    let data = data_of(vec![transfer("B", "A", 1)]);
    assert_eq!(encode_public_values(&proof, &data), Err(PipelineError::Encoding));
}

#[test]
fn transfer_records_must_be_exactly_one() {
    let proof = scenario_proof();
    let none = data_of(vec![]);
    let two = data_of(vec![transfer("B1", "A1", 1), transfer("B2", "A2", 2)]);
    assert_eq!(single_transfer(&none).err(), Some(PipelineError::MissingElement));
    assert_eq!(single_transfer(&two).err(), Some(PipelineError::MissingElement));
    assert_eq!(encode_public_values(&proof, &none), Err(PipelineError::MissingElement));
    assert_eq!(encode_public_values(&proof, &two), Err(PipelineError::MissingElement));
    let one = data_of(vec![transfer("B1", "A1", 1)]);
    assert_eq!(single_transfer(&one).unwrap().bank, "B1");
}

#[test]
fn response_matches_must_be_exactly_one() {
    let matcher = |v: &str| ResponseMatch { type_resp: "regex".to_string(), value_resp: v.to_string() };
    let params = |ms: Vec<ResponseMatch>| Parameters {
        body: String::new(),
        method: "GET".to_string(),
        response_matches: ms,
        response_redactions: vec![],
        url: "https://bank.example".to_string(),
    };
    assert_eq!(single_response_match(&params(vec![])).err(), Some(PipelineError::MissingElement));
    assert_eq!(
        single_response_match(&params(vec![matcher("a"), matcher("b")])).err(),
        Some(PipelineError::MissingElement)
    );
    let one = params(vec![matcher("{\"data\":[]}")]);
    assert_eq!(single_response_match(&one).unwrap().value_resp, "{\"data\":[]}");
}

#[test]
fn claim_info_digest_covers_raw_fields() {
    let info = ClaimInfo {
        provider: "http".to_string(),
        parameters: "{ \"b\": 1 }".to_string(),
        context: "ctx".to_string(),
    };
    assert_eq!(claim_info_bytes(&info), b"http\n{ \"b\": 1 }\nctx".to_vec());
    assert_eq!(hash_claim_info(&info), keccak256(b"http\n{ \"b\": 1 }\nctx").to_vec());
}

#[test]
fn signatures_keep_order_and_bytes() {
    let sigs = vec!["0xAB".to_string(), String::new(), "zz".to_string()];
    assert_eq!(resolve_signatures(&sigs), vec![b"0xAB".to_vec(), vec![], b"zz".to_vec()]);
}

#[test]
fn record_encoder_writes_amount_word() {
    let proof = scenario_proof();
    let data = data_of(vec![transfer("BANK-001", "ACC-42", 0x0102)]);
    let values: PublicValuesStruct = public_values(&proof, &data).unwrap();
    let bytes = values.abi_encode();
    assert_eq!(&bytes[0..32], &U256::from(32u64).to_be_bytes::<32>()[..]);
    assert_eq!(&bytes[96..128], &U256::from(0x0102u64).to_be_bytes::<32>()[..]);
    assert_eq!(&bytes[160..192], &U256::from(160u64).to_be_bytes::<32>()[..]);
}
