use xvault::hexfmt::hex_0x;
use xvault::hexfmt::parse_eth_address;
use xvault::hexfmt::parse_hex_fixed;
use xvault::slot_key::mapping_slot_key;
use xvault::witness::storage_query;

fn holder_with_last_byte(b: u8) -> Vec<u8> {
    let mut h = vec![0u8; 19];
    h.push(b);
    h
}

#[test]
fn slot_key_matches_reference_vector() {
    // Keccak-256(pad(addr) || pad(9)) for holder 0x0000...01, computed
    // independently over the hand-built 64-byte preimage.
    let holder = holder_with_last_byte(1);
    let mut preimage = vec![0u8; 12];
    preimage.extend_from_slice(&holder);
    preimage.extend_from_slice(&[0u8; 24]);
    preimage.extend_from_slice(&[0, 0, 0, 0, 0, 0, 0, 9]);
    assert_eq!(preimage.len(), 64);
    let reference = alloy_primitives::keccak256(&preimage).0.to_vec();

    let key = mapping_slot_key(&holder, 9);
    assert_eq!(key.len(), 32);
    assert_eq!(key, reference);
}

#[test]
fn slot_key_is_reproducible_across_runs() {
    let holder = holder_with_last_byte(1);
    let first = mapping_slot_key(&holder, 9);
    let second = mapping_slot_key(&holder, 9);
    assert_eq!(first, second);
}

#[test]
fn slot_keys_of_distinct_inputs_never_collide_in_corpus() {
    let mut keys: Vec<Vec<u8>> = Vec::new();
    for last in 0u8..8 {
        for slot in [0u64, 1, 9, 1000, u64::MAX] {
            keys.push(mapping_slot_key(&holder_with_last_byte(last), slot));
        }
    }
    for i in 0..keys.len() {
        for j in 0..keys.len() {
            if i != j {
                assert_ne!(keys[i], keys[j]);
            }
        }
    }
}

#[test]
fn parse_eth_address_accepts_and_decodes() {
    let s = "0xA0b86991c6218b36c1d19D4a2e9Eb0cE3606eB48";
    let parsed = parse_eth_address(s.as_bytes()).expect("well-formed address");
    let reference = hex::decode("A0b86991c6218b36c1d19D4a2e9Eb0cE3606eB48").unwrap();
    assert_eq!(parsed, reference);
}

#[test]
fn parse_eth_address_rejects_bad_shapes() {
    assert!(parse_eth_address(b"A0b86991c6218b36c1d19D4a2e9Eb0cE3606eB48").is_none());
    assert!(parse_eth_address(b"0xA0b86991c6218b36c1d19D4a2e9Eb0cE3606eB4").is_none());
    assert!(parse_eth_address(b"0xG0b86991c6218b36c1d19D4a2e9Eb0cE3606eB48").is_none());
    assert!(parse_eth_address(b"").is_none());
}

#[test]
fn hex_0x_matches_reference_encoder() {
    let bytes = vec![0xde, 0xad, 0xbe, 0xef, 0x00, 0x01];
    let ours = hex_0x(&bytes);
    let reference = format!("0x{}", hex::encode(&bytes));
    assert_eq!(String::from_utf8(ours).unwrap(), reference);
}

#[test]
fn storage_query_derives_contract_and_key() {
    let erc20 = "0xA0b86991c6218b36c1d19D4a2e9Eb0cE3606eB48".to_string();
    let eth_addr = "0x8d41bb082C6050893d1eC113A104cc4C087F2a2a".to_string();
    let q = storage_query(&erc20, &eth_addr, 9).expect("both addresses well-formed");
    assert_eq!(q.contract, hex::decode("A0b86991c6218b36c1d19D4a2e9Eb0cE3606eB48").unwrap());

    let holder = hex::decode("8d41bb082C6050893d1eC113A104cc4C087F2a2a").unwrap();
    let mut preimage = vec![0u8; 12];
    preimage.extend_from_slice(&holder);
    preimage.extend_from_slice(&[0u8; 24]);
    preimage.extend_from_slice(&[0, 0, 0, 0, 0, 0, 0, 9]);
    assert_eq!(q.slot_key, alloy_primitives::keccak256(&preimage).0.to_vec());
}

#[test]
fn storage_query_rejects_malformed_addresses() {
    let good = "0xA0b86991c6218b36c1d19D4a2e9Eb0cE3606eB48".to_string();
    let bad = "not-an-address".to_string();
    assert!(storage_query(&bad, &good, 9).is_err());
    assert!(storage_query(&good, &bad, 9).is_err());
}

#[test]
fn parse_hex_fixed_handles_other_widths() {
    let s = format!("0x{}", hex::encode([0xABu8; 32]));
    let v = parse_hex_fixed(s.as_bytes(), 32).expect("64 digits spell 32 bytes");
    assert_eq!(v, vec![0xABu8; 32]);
    assert!(parse_hex_fixed(s.as_bytes(), 31).is_none());
    assert!(parse_hex_fixed(b"0x", 0).is_some());
}
