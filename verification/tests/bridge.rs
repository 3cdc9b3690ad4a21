use lock_bridge::config::HolochainConfig;
use lock_bridge::hexcodec::strip_prefix;
use lock_bridge::holochain_bridge::{build_create_parked_link_payload, PayloadError};
use lock_bridge::types::{LockRecord, LockStatus};

fn holochain() -> HolochainConfig {
    HolochainConfig {
        admin_port: 30000,
        app_port: 30001,
        app_id: "bridging-app".to_string(),
        dna_hash: "uhC0kdna".to_string(),
        agent_pubkey: "uhCAkagent".to_string(),
        bridging_agent_pubkey: "uhCAkbridge".to_string(),
        credit_limit_ea_id: "uhCkkagreement".to_string(),
        unit_index: 3,
    }
}

fn lock(agent: &str, amount: &str) -> LockRecord {
    LockRecord {
        id: 1,
        lock_id: "12".to_string(),
        sender: "0x00000000000000000000000000000000000000aa".to_string(),
        amount: amount.to_string(),
        holochain_agent: agent.to_string(),
        tx_hash: format!("0x{}", "22".repeat(32)),
        block_number: 100,
        timestamp: 1_700_000_000,
        status: LockStatus::Confirmed,
        error_message: None,
        created_at: 0,
        updated_at: 0,
    }
}

#[test]
fn payload_carries_the_deposit() {
    let agent = format!("0x{}", "ab".repeat(32));
    let payload = build_create_parked_link_payload(
        &holochain(),
        &lock(&agent, "2500000000000000000"),
        "0xABCDEF0123456789abcdef0123456789ABCDEF01",
    )
    .unwrap();
    assert_eq!(payload.ea_id, "uhCkkagreement");
    assert_eq!(payload.executor.as_deref(), Some("uhCAkbridge"));
    assert_eq!(payload.tag.ct_role_id, "oracle");
    assert_eq!(payload.tag.unit_index, 3);
    assert_eq!(payload.tag.unit_amount, "2.5000");
    let proof = &payload.tag.proof_of_deposit;
    assert_eq!(proof.method, "deposit");
    assert_eq!(proof.contract_address, "0xabcdef0123456789abcdef0123456789abcdef01");
    assert_eq!(proof.amount, "2.5000");
    let expected = holo_hash::AgentPubKey::from_raw_32(vec![0xab; 32]).to_string();
    assert_eq!(proof.depositor_wallet_address, expected);
    assert!(proof.depositor_wallet_address.starts_with("uhCAk"));
    assert_eq!(proof.depositor_wallet_address.len(), 53);
    assert_ne!(proof.depositor_wallet_address, agent);
}

#[test]
fn agent_key_is_read_with_or_without_prefix_and_in_either_case() {
    let with = build_create_parked_link_payload(
        &holochain(),
        &lock(&format!("0x{}", "AB".repeat(32)), "1"),
        "ab",
    )
    .unwrap();
    let without =
        build_create_parked_link_payload(&holochain(), &lock(&"ab".repeat(32), "1"), "ab").unwrap();
    assert_eq!(with, without);
}

#[test]
fn agent_key_of_31_bytes_is_refused() {
    let agent = format!("0x{}", "11".repeat(31));
    let r = build_create_parked_link_payload(&holochain(), &lock(&agent, "1"), "ab");
    match r {
        Err(PayloadError::WrongLength { lock_id, actual, value }) => {
            assert_eq!(lock_id, "12");
            assert_eq!(actual, 31);
            assert_eq!(value, agent);
        }
        other => panic!("unexpected result {:?}", other),
    }
}

#[test]
fn agent_key_of_33_bytes_is_refused() {
    let agent = format!("0x{}", "11".repeat(33));
    let r = build_create_parked_link_payload(&holochain(), &lock(&agent, "1"), "ab");
    match r {
        Err(e @ PayloadError::WrongLength { .. }) => {
            assert_eq!(
                e.message(),
                format!(
                    "invalid holochain agent key for lock 12: expected 32 bytes, got 33 (value: {})",
                    agent
                )
            );
        }
        other => panic!("unexpected result {:?}", other),
    }
}

#[test]
fn agent_key_that_is_no_hex_is_refused() {
    for agent in ["0xzz", "0x123", "", "0x", "0x0x1111"] {
        let r = build_create_parked_link_payload(&holochain(), &lock(agent, "1"), "ab");
        match (agent, r) {
            ("" | "0x", Err(PayloadError::WrongLength { actual, .. })) => assert_eq!(actual, 0),
            ("0xzz" | "0x123" | "0x0x1111", Err(e @ PayloadError::InvalidHex { .. })) => {
                let message = e.message();
                assert!(message.starts_with("invalid holochain agent key for lock 12: "));
                assert!(message.ends_with(&format!(" (value: {})", agent)));
            }
            (agent, other) => panic!("unexpected result for {:?}: {:?}", agent, other),
        }
    }
}

#[test]
fn only_one_prefix_is_dropped() {
    assert_eq!(strip_prefix("0xab"), "ab");
    assert_eq!(strip_prefix("ab"), "ab");
    assert_eq!(strip_prefix("0x0xab"), "0xab");
    assert_eq!(strip_prefix("0Xab"), "0Xab");
    assert_eq!(strip_prefix("0"), "0");
    assert_eq!(strip_prefix(""), "");
}
