use lock_bridge::config::{Config, ConfigError, EnvValues, HolochainConfig, Network};

fn dna() -> String {
    holo_hash::DnaHash::from_raw_32(vec![1; 32]).to_string()
}

fn agent(byte: u8) -> String {
    holo_hash::AgentPubKey::from_raw_32(vec![byte; 32]).to_string()
}

fn action() -> String {
    holo_hash::ActionHash::from_raw_32(vec![3; 32]).to_string()
}

fn nothing() -> EnvValues {
    EnvValues {
        network: None,
        eth_rpc_url: None,
        eth_ws_url: None,
        mainnet_lock_vault_address: None,
        sepolia_rpc_url: None,
        sepolia_ws_url: None,
        sepolia_lock_vault_address: None,
        signer_private_key: None,
        db_path: None,
        poll_interval_ms: None,
        holochain_admin_port: None,
        holochain_app_port: None,
        holochain_app_id: None,
        holochain_dna_hash: None,
        holochain_agent_pubkey: None,
        holochain_bridging_agent_pubkey: None,
        holochain_credit_limit_ea_id: None,
        holochain_unit_index: None,
    }
}

fn complete() -> EnvValues {
    EnvValues {
        sepolia_lock_vault_address: Some(format!("0x{}", "ab".repeat(20))),
        mainnet_lock_vault_address: Some("cd".repeat(20)),
        holochain_dna_hash: Some(dna()),
        holochain_agent_pubkey: Some(agent(2)),
        holochain_bridging_agent_pubkey: Some(agent(4)),
        holochain_credit_limit_ea_id: Some(action()),
        holochain_unit_index: Some("1".to_string()),
        ..nothing()
    }
}

#[test]
fn defaults_are_filled_in() {
    let config = Config::from_values(&complete()).unwrap();
    assert_eq!(config.network, Network::Sepolia);
    assert_eq!(config.network_config.chain_id, 11155111);
    assert_eq!(config.network_config.confirmations, 5);
    assert_eq!(config.network_config.rpc_url, "https://1rpc.io/sepolia");
    assert_eq!(config.network_config.ws_url, None);
    assert_eq!(config.network_config.lock_vault_address.bytes, [0xab; 20]);
    assert_eq!(config.signer_private_key, None);
    assert_eq!(config.db_path, "./data/locks.db");
    assert_eq!(config.poll_interval_ms, 5000);
    let hc = config.holochain.unwrap();
    assert_eq!(hc.admin_port, 30000);
    assert_eq!(hc.app_port, 30001);
    assert_eq!(hc.app_id, "bridging-app");
    assert_eq!(hc.dna_hash, dna());
    assert_eq!(hc.agent_pubkey, agent(2));
    assert_eq!(hc.bridging_agent_pubkey, agent(4));
    assert_eq!(hc.credit_limit_ea_id, action());
    assert_eq!(hc.unit_index, 1);
}

#[test]
fn given_values_are_taken() {
    let env = EnvValues {
        network: Some("MAINNET".to_string()),
        eth_rpc_url: Some("http://localhost:8545".to_string()),
        eth_ws_url: Some("ws://localhost:8546".to_string()),
        sepolia_rpc_url: Some("http://other".to_string()),
        signer_private_key: Some("secret".to_string()),
        db_path: Some("/var/locks.db".to_string()),
        poll_interval_ms: Some("+250".to_string()),
        holochain_admin_port: Some("1234".to_string()),
        holochain_app_port: Some("65535".to_string()),
        holochain_app_id: Some("other-app".to_string()),
        holochain_unit_index: Some("4294967295".to_string()),
        ..complete()
    };
    let config = Config::from_values(&env).unwrap();
    assert_eq!(config.network, Network::Mainnet);
    assert_eq!(config.network_config.chain_id, 1);
    assert_eq!(config.network_config.confirmations, 15);
    assert_eq!(config.network_config.rpc_url, "http://localhost:8545");
    assert_eq!(config.network_config.ws_url.as_deref(), Some("ws://localhost:8546"));
    assert_eq!(config.network_config.lock_vault_address.bytes, [0xcd; 20]);
    assert_eq!(config.signer_private_key.as_deref(), Some("secret"));
    assert_eq!(config.db_path, "/var/locks.db");
    assert_eq!(config.poll_interval_ms, 250);
    let hc = config.holochain.unwrap();
    assert_eq!(hc.admin_port, 1234);
    assert_eq!(hc.app_port, 65535);
    assert_eq!(hc.app_id, "other-app");
    assert_eq!(hc.unit_index, u32::MAX);
}

#[test]
fn network_and_vault_are_checked_first() {
    let env = EnvValues { network: Some("goerli".to_string()), ..complete() };
    assert_eq!(Config::from_values(&env).unwrap_err(), ConfigError::InvalidNetwork);
    let env = EnvValues { sepolia_lock_vault_address: None, ..complete() };
    assert_eq!(
        Config::from_values(&env).unwrap_err(),
        ConfigError::MissingVaultAddress(Network::Sepolia)
    );
    let env = EnvValues {
        network: Some("mainnet".to_string()),
        mainnet_lock_vault_address: Some("0x1234".to_string()),
        ..complete()
    };
    assert_eq!(
        Config::from_values(&env).unwrap_err(),
        ConfigError::InvalidVaultAddress(Network::Mainnet)
    );
    for bad in ["", "5_000", "-1", "5s", " 5", "18446744073709551616", "+"] {
        let env = EnvValues { poll_interval_ms: Some(bad.to_string()), ..complete() };
        assert_eq!(Config::from_values(&env).unwrap_err(), ConfigError::InvalidPollInterval);
    }
    let env = EnvValues { poll_interval_ms: Some("18446744073709551615".to_string()), ..complete() };
    assert_eq!(Config::from_values(&env).unwrap().poll_interval_ms, u64::MAX);
    let env = EnvValues { poll_interval_ms: Some("007".to_string()), ..complete() };
    assert_eq!(Config::from_values(&env).unwrap().poll_interval_ms, 7);
}

#[test]
fn ledger_values_are_all_or_none() {
    let env = EnvValues { holochain_dna_hash: None, holochain_unit_index: None, ..complete() };
    assert_eq!(
        HolochainConfig::from_values(&env).unwrap_err(),
        ConfigError::HolochainIncomplete("HOLOCHAIN_DNA_HASH, HOLOCHAIN_UNIT_INDEX".to_string())
    );
    // ports and app id have defaults, so with nothing set the five others are missing
    assert_eq!(
        HolochainConfig::from_values(&nothing()).unwrap_err(),
        ConfigError::HolochainIncomplete(
            "HOLOCHAIN_DNA_HASH, HOLOCHAIN_AGENT_PUBKEY, HOLOCHAIN_BRIDGING_AGENT_PUBKEY, \
HOLOCHAIN_CREDIT_LIMIT_EA_ID, HOLOCHAIN_UNIT_INDEX"
                .to_string()
        )
    );
    let env = EnvValues { holochain_app_port: Some(String::new()), ..complete() };
    assert_eq!(
        HolochainConfig::from_values(&env).unwrap_err(),
        ConfigError::HolochainIncomplete("HOLOCHAIN_APP_PORT".to_string())
    );
    let env = EnvValues {
        holochain_admin_port: Some(String::new()),
        holochain_app_port: Some(String::new()),
        holochain_app_id: Some(String::new()),
        ..nothing()
    };
    assert!(matches!(HolochainConfig::from_values(&env), Ok(None)));
    let with_vault = EnvValues {
        sepolia_lock_vault_address: Some("ab".repeat(20)),
        ..env
    };
    assert!(Config::from_values(&with_vault).unwrap().holochain.is_none());
}

#[test]
fn ledger_values_are_read_in_order() {
    let fault = |env: EnvValues| HolochainConfig::from_values(&env).unwrap_err();
    let text = |s: &str| Some(s.to_string());
    assert_eq!(
        fault(EnvValues { holochain_dna_hash: text("dna"), holochain_unit_index: text("x"), ..complete() }),
        ConfigError::InvalidDnaHash
    );
    // an agent key is no DNA hash, and the other way round
    assert_eq!(
        fault(EnvValues { holochain_dna_hash: Some(agent(2)), ..complete() }),
        ConfigError::InvalidDnaHash
    );
    assert_eq!(
        fault(EnvValues { holochain_agent_pubkey: Some(dna()), ..complete() }),
        ConfigError::InvalidAgentPubkey
    );
    assert_eq!(
        fault(EnvValues { holochain_bridging_agent_pubkey: text(""), ..complete() }),
        ConfigError::InvalidBridgingAgentPubkey
    );
    assert_eq!(
        fault(EnvValues { holochain_credit_limit_ea_id: Some(agent(2)), ..complete() }),
        ConfigError::InvalidCreditLimitEaId
    );
    let umlaut = format!("\u{e4}{}", "a".repeat(51));
    assert_eq!(umlaut.len(), 53);
    assert_eq!(
        fault(EnvValues { holochain_credit_limit_ea_id: Some(umlaut), ..complete() }),
        ConfigError::InvalidCreditLimitEaId
    );
    assert_eq!(
        fault(EnvValues { holochain_unit_index: text("4294967296"), holochain_admin_port: text("x"), ..complete() }),
        ConfigError::InvalidUnitIndex
    );
    assert_eq!(
        fault(EnvValues { holochain_admin_port: text("65536"), holochain_app_port: text("x"), ..complete() }),
        ConfigError::InvalidAdminPort
    );
    assert_eq!(
        fault(EnvValues { holochain_app_port: text("http"), ..complete() }),
        ConfigError::InvalidAppPort
    );
}
