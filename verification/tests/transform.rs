use alloy_primitives::Address;
use alloy_primitives::B256;
use alloy_primitives::U256;
use alloy_rpc_types_eth::EIP1186AccountProofResponse;
use alloy_rpc_types_eth::EIP1186StorageProof;

use xvault::circuit::circuit;
use xvault::circuit::CircuitConfig;
use xvault::circuit::CircuitVariant;
use xvault::errors::PipelineError;
use xvault::errors::Stage;
use xvault::message::build_zk_msg;
use xvault::message::encode_auth_message;
use xvault::witness::get_witnesses;
use xvault::witness::BlockRoot;
use xvault::witness::ProofRequest;
use xvault::witness::Witness;

fn proof_json(balance: U256, slot_value: U256) -> Vec<u8> {
    let resp = EIP1186AccountProofResponse {
        address: Address::from([0x11u8; 20]),
        balance,
        code_hash: B256::from([0x22u8; 32]),
        nonce: 7,
        storage_hash: B256::from([0x33u8; 32]),
        account_proof: vec![],
        storage_proof: vec![EIP1186StorageProof {
            key: Default::default(),
            value: slot_value,
            proof: vec![],
        }],
    };
    serde_json::to_vec(&resp).unwrap()
}

fn bundle(balance: U256, slot_value: U256, destination: &str) -> Vec<Witness> {
    let block = BlockRoot {
        domain: "eth-mainnet".to_string(),
        number: 100,
        root: vec![0xAAu8; 32],
    };
    let req = ProofRequest {
        erc20: Some("0xA0b86991c6218b36c1d19D4a2e9Eb0cE3606eB48".to_string()),
        eth_addr: "0x8d41bb082C6050893d1eC113A104cc4C087F2a2a".to_string(),
        neutron_addr: destination.to_string(),
    };
    get_witnesses(&req, &block, proof_json(balance, slot_value)).expect("well-formed request")
}

fn storage_cfg() -> CircuitConfig {
    CircuitConfig {
        variant: CircuitVariant::TokenStorageSlot,
        token_contract: "neutron1cw20token".to_string(),
    }
}

#[test]
fn circuit_emits_mint_for_proven_balance() {
    // BlockRoot{domain eth-mainnet, number 100, root 0xAA..}, proven
    // slot value 500000000000000000, destination neutron1abc...: the
    // committed output is the canonical message minting exactly that
    // amount to exactly that destination.
    let ws = bundle(
        U256::from(1u8),
        U256::from(500000000000000000u128),
        "neutron1abc",
    );
    let out = circuit(&storage_cfg(), &ws).expect("scenario succeeds");
    let expected = encode_auth_message(&build_zk_msg(
        "neutron1abc".to_string(),
        500000000000000000,
        "neutron1cw20token".to_string(),
    ));
    assert_eq!(out, expected);
    let committed = xvault::message::decode_auth_message(&out).expect("committed bytes decode");
    assert_eq!(committed.message.calls.len(), 1);
    assert_eq!(committed.message.calls[0].mint.recipient, "neutron1abc");
    assert_eq!(committed.message.calls[0].mint.amount, 500000000000000000);
}

#[test]
fn circuit_native_variant_reads_account_balance() {
    let block = BlockRoot {
        domain: "eth-mainnet".to_string(),
        number: 100,
        root: vec![0xAAu8; 32],
    };
    let req = ProofRequest {
        erc20: None,
        eth_addr: "0x8d41bb082C6050893d1eC113A104cc4C087F2a2a".to_string(),
        neutron_addr: "neutron1abc".to_string(),
    };
    let ws = get_witnesses(&req, &block, proof_json(U256::from(42u8), U256::from(9u8)))
        .expect("well-formed request");
    assert_eq!(ws.len(), 2);
    let cfg = CircuitConfig {
        variant: CircuitVariant::NativeBalance,
        token_contract: "neutron1cw20token".to_string(),
    };
    let out = circuit(&cfg, &ws).expect("scenario succeeds");
    let expected = encode_auth_message(&build_zk_msg(
        "neutron1abc".to_string(),
        42,
        "neutron1cw20token".to_string(),
    ));
    assert_eq!(out, expected);
}

#[test]
fn circuit_overflows_on_two_to_the_128_instead_of_wrapping() {
    // Same scenario, but the proven value is exactly 2^128: the
    // transform reports the overflow; the amount never becomes 0.
    let two_128 = U256::from(1u8) << 128;
    let ws = bundle(U256::from(1u8), two_128, "neutron1abc");
    assert_eq!(
        circuit(&storage_cfg(), &ws),
        Err(PipelineError::OverflowError)
    );
}

#[test]
fn circuit_rejects_wrong_arity_before_decoding() {
    // Two witnesses where the storage variant expects three; the proof
    // bytes are garbage, yet the arity error wins: nothing was decoded.
    let ws = vec![
        Witness::StateProof {
            domain: "eth-mainnet".to_string(),
            root: vec![0xAAu8; 32],
            proof: vec![0xde, 0xad],
        },
        Witness::RawData {
            data: b"neutron1abc".to_vec(),
        },
    ];
    assert_eq!(
        circuit(&storage_cfg(), &ws),
        Err(PipelineError::ConfigurationError { expected: 3, got: 2 })
    );
}

#[test]
fn circuit_rejects_malformed_proof_bytes() {
    let mut ws = bundle(U256::from(1u8), U256::from(5u8), "neutron1abc");
    ws[0] = Witness::StateProof {
        domain: "eth-mainnet".to_string(),
        root: vec![0xAAu8; 32],
        proof: b"not json at all".to_vec(),
    };
    assert_eq!(
        circuit(&storage_cfg(), &ws),
        Err(PipelineError::DecodeError { stage: Stage::ProvingTransform })
    );
}

#[test]
fn circuit_rejects_non_utf8_destination() {
    let mut ws = bundle(U256::from(1u8), U256::from(5u8), "neutron1abc");
    ws[1] = Witness::RawData { data: vec![0xFF, 0xFE] };
    assert_eq!(
        circuit(&storage_cfg(), &ws),
        Err(PipelineError::DecodeError { stage: Stage::ProvingTransform })
    );
}

#[test]
fn circuit_rejects_empty_storage_attestation() {
    let resp = EIP1186AccountProofResponse {
        address: Address::from([0x11u8; 20]),
        balance: U256::from(1u8),
        code_hash: B256::from([0x22u8; 32]),
        nonce: 7,
        storage_hash: B256::from([0x33u8; 32]),
        account_proof: vec![],
        storage_proof: vec![],
    };
    let ws = vec![
        Witness::StateProof {
            domain: "eth-mainnet".to_string(),
            root: vec![0xAAu8; 32],
            proof: serde_json::to_vec(&resp).unwrap(),
        },
        Witness::RawData {
            data: b"neutron1abc".to_vec(),
        },
        Witness::RawData {
            data: vec![0xA0; 20],
        },
    ];
    assert_eq!(
        circuit(&storage_cfg(), &ws),
        Err(PipelineError::DecodeError { stage: Stage::ProvingTransform })
    );
}

#[test]
fn witness_positions_follow_the_shared_convention() {
    let ws = bundle(U256::from(1u8), U256::from(5u8), "neutron1abc");
    assert_eq!(ws.len(), 3);
    match &ws[0] {
        Witness::StateProof { domain, root, .. } => {
            assert_eq!(domain, "eth-mainnet");
            assert_eq!(root, &vec![0xAAu8; 32]);
        }
        _ => panic!("index 0 must be the state proof"),
    }
    match &ws[1] {
        Witness::RawData { data } => assert_eq!(data, &b"neutron1abc".to_vec()),
        _ => panic!("index 1 must be the destination identity bytes"),
    }
    match &ws[2] {
        Witness::RawData { data } => {
            assert_eq!(
                data,
                &hex::decode("A0b86991c6218b36c1d19D4a2e9Eb0cE3606eB48").unwrap()
            )
        }
        _ => panic!("index 2 must be the token address bytes"),
    }
}

#[test]
fn witness_assembly_fails_on_malformed_token_address() {
    let block = BlockRoot {
        domain: "eth-mainnet".to_string(),
        number: 100,
        root: vec![0xAAu8; 32],
    };
    let req = ProofRequest {
        erc20: Some("nonsense".to_string()),
        eth_addr: "0x8d41bb082C6050893d1eC113A104cc4C087F2a2a".to_string(),
        neutron_addr: "neutron1abc".to_string(),
    };
    match get_witnesses(&req, &block, vec![]) {
        Err(PipelineError::DecodeError { stage: Stage::WitnessAssembly }) => {}
        _ => panic!("malformed token address must fail assembly"),
    }
}
