use xvault::amount::amount_from_be_bytes;
use xvault::bundle::decode_witnesses;
use xvault::bundle::encode_witnesses;
use xvault::bytesfmt::push_be;
use xvault::bytesfmt::read_be;
use xvault::errors::PipelineError;
use xvault::errors::Stage;
use xvault::message::build_zk_msg;
use xvault::message::decode_auth_message;
use xvault::message::encode_auth_message;
use xvault::message::AuthorizationMessage;
use xvault::message::InstructionBatch;
use xvault::message::MintCall;
use xvault::message::MintInstruction;
use xvault::message::Priority;
use xvault::witness::check_bundle_wf;
use xvault::witness::resolve_block_root;
use xvault::witness::BlockRoot;
use xvault::witness::Witness;

fn be32_value(v: u128) -> Vec<u8> {
    let mut out = Vec::new();
    push_be(&mut out, v, 16);
    let mut full = vec![0u8; 16];
    full.extend_from_slice(&out);
    full
}

#[test]
fn push_be_writes_big_endian() {
    let mut out = Vec::new();
    push_be(&mut out, 0xDEADBEEF, 4);
    assert_eq!(out, vec![0xDE, 0xAD, 0xBE, 0xEF]);
}

#[test]
fn read_be_reads_back_what_push_be_wrote() {
    let mut out = vec![0xFFu8];
    push_be(&mut out, 123456789012345678901234567890, 16);
    let got = read_be(&out, 1, 16);
    assert_eq!(got, 123456789012345678901234567890);
}

#[test]
fn amounts_below_the_limit_convert_exactly() {
    assert_eq!(amount_from_be_bytes(&be32_value(0)), Ok(0));
    assert_eq!(
        amount_from_be_bytes(&be32_value(500000000000000000)),
        Ok(500000000000000000)
    );
    assert_eq!(amount_from_be_bytes(&be32_value(u128::MAX)), Ok(u128::MAX));
}

#[test]
fn amounts_at_or_above_two_to_the_128_overflow() {
    // exactly 2^128: byte 15 is one, low half all zero
    let mut v = vec![0u8; 32];
    v[15] = 1;
    assert_eq!(amount_from_be_bytes(&v), Err(PipelineError::OverflowError));
    // a value with a high bit far up
    let mut w = vec![0u8; 32];
    w[0] = 0x80;
    w[31] = 7;
    assert_eq!(amount_from_be_bytes(&w), Err(PipelineError::OverflowError));
}

fn sample_bundle() -> Vec<Witness> {
    vec![
        Witness::StateProof {
            domain: "ethereum-electra-alpha".to_string(),
            root: (0..32u8).collect(),
            proof: vec![0x7b, 0x7d, 0x01, 0xff],
        },
        Witness::RawData {
            data: b"neutron1abcdef".to_vec(),
        },
        Witness::RawData {
            data: vec![0xA0, 0xb8, 0x69, 0x91],
        },
    ]
}

fn witness_eq(a: &Witness, b: &Witness) -> bool {
    match (a, b) {
        (
            Witness::StateProof { domain: d1, root: r1, proof: p1 },
            Witness::StateProof { domain: d2, root: r2, proof: p2 },
        ) => d1 == d2 && r1 == r2 && p1 == p2,
        (Witness::RawData { data: d1 }, Witness::RawData { data: d2 }) => d1 == d2,
        _ => false,
    }
}

#[test]
fn bundle_round_trip_returns_original_fields_exactly() {
    let ws = sample_bundle();
    let bytes = encode_witnesses(&ws);
    let back = decode_witnesses(&bytes).expect("canonical encoding decodes");
    assert_eq!(back.len(), ws.len());
    for i in 0..ws.len() {
        assert!(witness_eq(&ws[i], &back[i]));
    }
}

#[test]
fn bundle_round_trip_keeps_multibyte_domains() {
    let ws = vec![Witness::StateProof {
        domain: "r\u{e9}seau-\u{3b1}".to_string(),
        root: vec![0u8; 32],
        proof: vec![],
    }];
    let bytes = encode_witnesses(&ws);
    let back = decode_witnesses(&bytes).expect("canonical encoding decodes");
    assert!(witness_eq(&ws[0], &back[0]));
}

#[test]
fn bundle_decoder_rejects_junk() {
    assert!(decode_witnesses(&vec![]).is_none());
    assert!(decode_witnesses(&vec![1u8]).is_none());
    assert!(decode_witnesses(&vec![1u8, 3]).is_none());
    // trailing garbage after a correct bundle
    let mut bytes = encode_witnesses(&sample_bundle());
    bytes.push(0);
    assert!(decode_witnesses(&bytes).is_none());
    // unknown tag
    let bad = vec![1u8, 9u8, 0, 0, 0, 0];
    assert!(decode_witnesses(&bad).is_none());
}

#[test]
fn bundle_decoder_rejects_non_utf8_domain() {
    // tag 1, domain of one 0xFF byte (not UTF-8): must fail closed
    let mut bytes = vec![1u8, 1u8, 0, 0, 0, 1, 0xFF];
    bytes.extend_from_slice(&[0u8; 32]);
    bytes.extend_from_slice(&[0, 0, 0, 0]);
    assert!(decode_witnesses(&bytes).is_none());
}

#[test]
fn auth_message_encoding_matches_reference_layout() {
    let msg = build_zk_msg("r".to_string(), 5, "t".to_string());
    let bytes = encode_auth_message(&msg);
    let mut expected: Vec<u8> = Vec::new();
    expected.extend_from_slice(&[0u8; 8]); // registry 0
    expected.extend_from_slice(&[0u8; 8]); // block number 0
    expected.push(0); // main domain
    expected.push(0); // no authorization contract
    expected.extend_from_slice(&[0u8; 8]); // batch id 0
    expected.extend_from_slice(&[0, 0, 0, 1]); // one call
    expected.extend_from_slice(&[0, 0, 0, 1]); // token length
    expected.push(b't');
    expected.extend_from_slice(&[0, 0, 0, 1]); // recipient length
    expected.push(b'r');
    expected.extend_from_slice(&[0u8; 15]); // amount, high bytes
    expected.push(5); // amount 5
    expected.push(0); // medium priority
    expected.push(0); // no expiration
    assert_eq!(bytes, expected);
}

#[test]
fn auth_message_encoding_is_reproducible() {
    let a = encode_auth_message(&build_zk_msg(
        "neutron1abc".to_string(),
        500000000000000000,
        "neutron1cw20".to_string(),
    ));
    let b = encode_auth_message(&build_zk_msg(
        "neutron1abc".to_string(),
        500000000000000000,
        "neutron1cw20".to_string(),
    ));
    assert_eq!(a, b);
}

#[test]
fn auth_message_round_trips_through_its_decoder() {

    let msg = build_zk_msg(
        "neutron1abc".to_string(),
        500000000000000000,
        "neutron1cw20token".to_string(),
    );
    let bytes = encode_auth_message(&msg);
    let back = decode_auth_message(&bytes).expect("canonical bytes decode");
    assert_eq!(back.registry, 0);
    assert_eq!(back.block_number, 0);
    assert!(back.authorization_contract.is_none());
    assert_eq!(back.message.id, 0);
    assert!(matches!(back.message.priority, Priority::Medium));
    assert!(back.message.expiration_time.is_none());
    assert_eq!(back.message.calls.len(), 1);
    assert_eq!(back.message.calls[0].token_contract, "neutron1cw20token");
    assert_eq!(back.message.calls[0].mint.recipient, "neutron1abc");
    assert_eq!(back.message.calls[0].mint.amount, 500000000000000000);

    // the optional fields survive too
    let full = AuthorizationMessage {
        registry: 7,
        block_number: 1234,
        domain: xvault::message::ExecutionDomain::Main,
        authorization_contract: Some("neutron1auth".to_string()),
        message: InstructionBatch {
            id: 3,
            calls: vec![MintCall {
                token_contract: "neutron1cw20".to_string(),
                mint: MintInstruction {
                    recipient: "neutron1dest".to_string(),
                    amount: u128::MAX,
                },
            }],
            priority: Priority::High,
            expiration_time: Some(99),
        },
    };
    let full_bytes = encode_auth_message(&full);
    let full_back = decode_auth_message(&full_bytes).expect("canonical bytes decode");
    assert_eq!(full_back.registry, 7);
    assert_eq!(full_back.block_number, 1234);
    assert_eq!(full_back.authorization_contract.as_deref(), Some("neutron1auth"));
    assert_eq!(full_back.message.id, 3);
    assert!(matches!(full_back.message.priority, Priority::High));
    assert_eq!(full_back.message.expiration_time, Some(99));
    assert_eq!(full_back.message.calls[0].mint.amount, u128::MAX);
}

#[test]
fn auth_message_decoder_rejects_junk() {

    assert!(decode_auth_message(&vec![]).is_none());
    assert!(decode_auth_message(&vec![0u8; 17]).is_none());
    let msg = build_zk_msg("r".to_string(), 5, "t".to_string());
    let mut bytes = encode_auth_message(&msg);
    bytes.push(0); // trailing garbage
    assert!(decode_auth_message(&bytes).is_none());
}

#[test]
fn bundle_wf_checker_accepts_and_rejects() {

    let good = vec![
        Witness::StateProof {
            domain: "eth-mainnet".to_string(),
            root: vec![0u8; 32],
            proof: vec![1, 2, 3],
        },
        Witness::RawData { data: vec![4, 5] },
    ];
    assert!(check_bundle_wf(&good));

    let short_root = vec![Witness::StateProof {
        domain: "eth-mainnet".to_string(),
        root: vec![0u8; 31],
        proof: vec![],
    }];
    assert!(!check_bundle_wf(&short_root));
}

#[test]
fn block_root_resolution_requires_a_trusted_block() {

    let found = Some(BlockRoot {
        domain: "eth-mainnet".to_string(),
        number: 100,
        root: vec![0xAA; 32],
    });
    let ok = resolve_block_root(found).expect("a trusted block resolves");
    assert_eq!(ok.number, 100);
    match resolve_block_root(None) {
        Err(PipelineError::TransientIOError { stage: Stage::WitnessAssembly }) => {}
        _ => panic!("a missing block must fail resolution"),
    }
}
