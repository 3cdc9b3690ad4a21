//! The networks that can be watched and what is fixed for each of them.

use vstd::prelude::*;
use vstd::string::StringExecFns;
use crate::holochain_bridge::{
    check_action_hash, check_agent_pubkey, check_dna_hash, valid_action_hash,
    valid_agent_pubkey, valid_dna_hash,
};
use crate::primitives::{fixed_hex, parse_address, Address};
use crate::text::{
    lowercase_of, parse_u16, parse_u32, parse_u64, same_text, to_lowercase, unsigned_from_text,
};

verus! {

/// The source chains that can be watched.
#[derive(Debug, Clone, Copy, PartialEq, Eq, Structural)]
pub enum Network {
    Mainnet,
    Sepolia,
}

impl Network {
    /// The network that a lower-case name stands for.
    pub open spec fn named(text: Seq<char>) -> Option<Network> {
        if text == "mainnet"@ {
            Some(Network::Mainnet)
        } else if text == "sepolia"@ {
            Some(Network::Sepolia)
        } else {
            None
        }
    }

    /// The chain id of the network.
    pub open spec fn spec_chain_id(self) -> u64 {
        match self {
            Network::Mainnet => 1,
            Network::Sepolia => 11155111,
        }
    }

    /// How many blocks must follow a deposit before it counts as final.
    pub open spec fn spec_confirmations(self) -> u64 {
        match self {
            Network::Mainnet => 15,
            Network::Sepolia => 5,
        }
    }

    /// The endpoint that is used where none is configured.
    pub open spec fn spec_default_rpc_url(self) -> Seq<char> {
        match self {
            Network::Mainnet => "https://eth.llamarpc.com"@,
            Network::Sepolia => "https://1rpc.io/sepolia"@,
        }
    }

    /// Reads a network from its name, in any case. Any other text is
    /// refused with a message that repeats it.
    pub fn from_str(s: &str) -> (r: Result<Network, String>)
        ensures
            match r {
                Ok(network) => Network::named(lowercase_of(s@)) == Some(network),
                Err(message) => Network::named(lowercase_of(s@)).is_none() && message@
                    == "Unknown network: "@ + s@,
            },
    {
        let lower = to_lowercase(s);
        if same_text(lower.as_str(), "mainnet") {
            Ok(Network::Mainnet)
        } else if same_text(lower.as_str(), "sepolia") {
            Ok(Network::Sepolia)
        } else {
            let mut message = String::from_str("Unknown network: ");
            message.append(s);
            Err(message)
        }
    }

    /// The chain id of the network.
    pub fn chain_id(&self) -> (r: u64)
        ensures
            r == self.spec_chain_id(),
    {
        match self {
            Network::Mainnet => 1,
            Network::Sepolia => 11155111,
        }
    }

    /// How many blocks must follow a deposit before it counts as final:
    /// more on the main network than on the test network.
    pub fn confirmations(&self) -> (r: u64)
        ensures
            r == self.spec_confirmations(),
    {
        match self {
            Network::Mainnet => 15,
            Network::Sepolia => 5,
        }
    }

    /// The endpoint that is used where none is configured.
    pub fn default_rpc_url(&self) -> (r: &'static str)
        ensures
            r@ == self.spec_default_rpc_url(),
    {
        match self {
            Network::Mainnet => "https://eth.llamarpc.com",
            Network::Sepolia => "https://1rpc.io/sepolia",
        }
    }
}

/// What the watcher needs to know of one network.
#[derive(Debug, Clone)]
pub struct NetworkConfig {
    pub chain_id: u64,
    pub rpc_url: String,
    pub ws_url: Option<String>,
    pub lock_vault_address: Address,
    pub confirmations: u64,
}

impl NetworkConfig {
    /// The configuration of `network` for the vault at `lock_vault_address`:
    /// chain id and confirmations are those of the network, and the
    /// endpoint is `rpc_url` or, without one, the network's default.
    pub fn for_network(
        network: Network,
        rpc_url: Option<String>,
        ws_url: Option<String>,
        lock_vault_address: Address,
    ) -> (r: NetworkConfig)
        ensures
            r.chain_id == network.spec_chain_id(),
            r.confirmations == network.spec_confirmations(),
            r.rpc_url@ == match rpc_url {
                Some(url) => url@,
                None => network.spec_default_rpc_url(),
            },
            r.ws_url == ws_url,
            r.lock_vault_address == lock_vault_address,
    {
        let url = match rpc_url {
            Some(url) => url,
            None => String::from_str(network.default_rpc_url()),
        };
        NetworkConfig {
            chain_id: network.chain_id(),
            rpc_url: url,
            ws_url,
            lock_vault_address,
            confirmations: network.confirmations(),
        }
    }
}

/// How to reach the target ledger, and in whose name deposits are relayed.
/// The hashes and keys are kept in the ledger's own text form.
#[derive(Debug, Clone)]
pub struct HolochainConfig {
    pub admin_port: u16,
    pub app_port: u16,
    pub app_id: String,
    pub dna_hash: String,
    pub agent_pubkey: String,
    pub bridging_agent_pubkey: String,
    pub credit_limit_ea_id: String,
    pub unit_index: u32,
}

/// Everything the watcher is configured with, resolved once at start.
#[derive(Debug, Clone)]
pub struct Config {
    pub network: Network,
    pub network_config: NetworkConfig,
    pub signer_private_key: Option<String>,
    pub db_path: String,
    pub poll_interval_ms: u64,
    pub holochain: Option<HolochainConfig>,
}

/// What the environment holds for the watcher: each value as it was found,
/// or `None` where it is not set.
#[derive(Debug, Clone)]
pub struct EnvValues {
    pub network: Option<String>,
    pub eth_rpc_url: Option<String>,
    pub eth_ws_url: Option<String>,
    pub mainnet_lock_vault_address: Option<String>,
    pub sepolia_rpc_url: Option<String>,
    pub sepolia_ws_url: Option<String>,
    pub sepolia_lock_vault_address: Option<String>,
    pub signer_private_key: Option<String>,
    pub db_path: Option<String>,
    pub poll_interval_ms: Option<String>,
    pub holochain_admin_port: Option<String>,
    pub holochain_app_port: Option<String>,
    pub holochain_app_id: Option<String>,
    pub holochain_dna_hash: Option<String>,
    pub holochain_agent_pubkey: Option<String>,
    pub holochain_bridging_agent_pubkey: Option<String>,
    pub holochain_credit_limit_ea_id: Option<String>,
    pub holochain_unit_index: Option<String>,
}

/// Why the environment gives no configuration.
#[derive(Debug, Clone, PartialEq, Eq)]
pub enum ConfigError {
    /// The network is none of the known ones.
    InvalidNetwork,
    /// No vault address is set for the network.
    MissingVaultAddress(Network),
    /// The vault address of the network is no address.
    InvalidVaultAddress(Network),
    /// The poll interval is no number of milliseconds.
    InvalidPollInterval,
    /// Some values of the target ledger are set and others are not: these
    /// are the names of the missing ones, with `, ` between them.
    HolochainIncomplete(String),
    InvalidDnaHash,
    InvalidAgentPubkey,
    InvalidBridgingAgentPubkey,
    InvalidCreditLimitEaId,
    InvalidUnitIndex,
    InvalidAdminPort,
    InvalidAppPort,
}

/// The text of a value, or `default` where it is not set.
pub open spec fn text_or(value: Option<String>, default: Seq<char>) -> Seq<char> {
    match value {
        Some(v) => v@,
        None => default,
    }
}

/// The text of a value that may be missing.
pub open spec fn text_of(value: Option<String>) -> Option<Seq<char>> {
    match value {
        Some(v) => Some(v@),
        None => None,
    }
}

/// The network that the environment asks for: `sepolia` where none is set.
pub open spec fn chosen_network(env: EnvValues) -> Option<Network> {
    Network::named(lowercase_of(text_or(env.network, "sepolia"@)))
}

/// The vault address that is set for a network.
pub open spec fn vault_text(env: EnvValues, network: Network) -> Option<String> {
    match network {
        Network::Mainnet => env.mainnet_lock_vault_address,
        Network::Sepolia => env.sepolia_lock_vault_address,
    }
}

/// The endpoint that is set for a network.
pub open spec fn rpc_text(env: EnvValues, network: Network) -> Option<String> {
    match network {
        Network::Mainnet => env.eth_rpc_url,
        Network::Sepolia => env.sepolia_rpc_url,
    }
}

/// The websocket endpoint that is set for a network.
pub open spec fn ws_text(env: EnvValues, network: Network) -> Option<String> {
    match network {
        Network::Mainnet => env.eth_ws_url,
        Network::Sepolia => env.sepolia_ws_url,
    }
}

/// The names of the values of the target ledger that are missing, in their
/// fixed order, each behind `, ` but for the first. The ports and the app
/// id have defaults and are missing only where they are set to nothing.
pub open spec fn missing_names(env: EnvValues) -> Seq<char> {
    let a = joined(Seq::empty(), "HOLOCHAIN_ADMIN_PORT"@, text_or(env.holochain_admin_port, "30000"@).len() == 0);
    let b = joined(a, "HOLOCHAIN_APP_PORT"@, text_or(env.holochain_app_port, "30001"@).len() == 0);
    let c = joined(b, "HOLOCHAIN_APP_ID"@, text_or(env.holochain_app_id, "bridging-app"@).len() == 0);
    let d = joined(c, "HOLOCHAIN_DNA_HASH"@, env.holochain_dna_hash.is_none());
    let e = joined(d, "HOLOCHAIN_AGENT_PUBKEY"@, env.holochain_agent_pubkey.is_none());
    let f = joined(e, "HOLOCHAIN_BRIDGING_AGENT_PUBKEY"@, env.holochain_bridging_agent_pubkey.is_none());
    let g = joined(f, "HOLOCHAIN_CREDIT_LIMIT_EA_ID"@, env.holochain_credit_limit_ea_id.is_none());
    joined(g, "HOLOCHAIN_UNIT_INDEX"@, env.holochain_unit_index.is_none())
}

/// `list` with `name` added where `missing` holds, behind `, ` unless the
/// list was empty.
pub open spec fn joined(list: Seq<char>, name: Seq<char>, missing: bool) -> Seq<char> {
    if !missing {
        list
    } else if list.len() == 0 {
        name
    } else {
        list + ", "@ + name
    }
}

/// Whether every value of the target ledger is there.
pub open spec fn holochain_complete(env: EnvValues) -> bool {
    &&& text_or(env.holochain_admin_port, "30000"@).len() > 0
    &&& text_or(env.holochain_app_port, "30001"@).len() > 0
    &&& text_or(env.holochain_app_id, "bridging-app"@).len() > 0
    &&& env.holochain_dna_hash.is_some()
    &&& env.holochain_agent_pubkey.is_some()
    &&& env.holochain_bridging_agent_pubkey.is_some()
    &&& env.holochain_credit_limit_ea_id.is_some()
    &&& env.holochain_unit_index.is_some()
}

/// Whether no value of the target ledger is there.
pub open spec fn holochain_absent(env: EnvValues) -> bool {
    &&& text_or(env.holochain_admin_port, "30000"@).len() == 0
    &&& text_or(env.holochain_app_port, "30001"@).len() == 0
    &&& text_or(env.holochain_app_id, "bridging-app"@).len() == 0
    &&& env.holochain_dna_hash.is_none()
    &&& env.holochain_agent_pubkey.is_none()
    &&& env.holochain_bridging_agent_pubkey.is_none()
    &&& env.holochain_credit_limit_ea_id.is_none()
    &&& env.holochain_unit_index.is_none()
}

/// The first thing that is wrong with the values of the target ledger,
/// where all of them are there: hashes and keys are looked at first, then
/// the unit index, then the two ports.
pub open spec fn holochain_fault(env: EnvValues) -> Option<ConfigError> {
    if !valid_dna_hash(env.holochain_dna_hash.unwrap()@) {
        Some(ConfigError::InvalidDnaHash)
    } else if !valid_agent_pubkey(env.holochain_agent_pubkey.unwrap()@) {
        Some(ConfigError::InvalidAgentPubkey)
    } else if !valid_agent_pubkey(env.holochain_bridging_agent_pubkey.unwrap()@) {
        Some(ConfigError::InvalidBridgingAgentPubkey)
    } else if !valid_action_hash(env.holochain_credit_limit_ea_id.unwrap()@) {
        Some(ConfigError::InvalidCreditLimitEaId)
    } else if unsigned_from_text(env.holochain_unit_index.unwrap()@, u32::MAX as nat).is_none() {
        Some(ConfigError::InvalidUnitIndex)
    } else if unsigned_from_text(text_or(env.holochain_admin_port, "30000"@), u16::MAX as nat).is_none() {
        Some(ConfigError::InvalidAdminPort)
    } else if unsigned_from_text(text_or(env.holochain_app_port, "30001"@), u16::MAX as nat).is_none() {
        Some(ConfigError::InvalidAppPort)
    } else {
        None
    }
}

/// Whether `hc` is the configuration of the target ledger that the
/// environment holds.
pub open spec fn is_holochain_of(hc: HolochainConfig, env: EnvValues) -> bool {
    &&& Some(hc.admin_port as nat) == unsigned_from_text(
        text_or(env.holochain_admin_port, "30000"@),
        u16::MAX as nat,
    )
    &&& Some(hc.app_port as nat) == unsigned_from_text(
        text_or(env.holochain_app_port, "30001"@),
        u16::MAX as nat,
    )
    &&& hc.app_id@ == text_or(env.holochain_app_id, "bridging-app"@)
    &&& hc.dna_hash@ == env.holochain_dna_hash.unwrap()@
    &&& hc.agent_pubkey@ == env.holochain_agent_pubkey.unwrap()@
    &&& hc.bridging_agent_pubkey@ == env.holochain_bridging_agent_pubkey.unwrap()@
    &&& hc.credit_limit_ea_id@ == env.holochain_credit_limit_ea_id.unwrap()@
    &&& Some(hc.unit_index as nat) == unsigned_from_text(
        env.holochain_unit_index.unwrap()@,
        u32::MAX as nat,
    )
}

/// A copy of a text that may be missing.
fn copy_of(value: &Option<String>) -> (r: Option<String>)
    ensures
        text_of(r) == text_of(*value),
{
    match value {
        Some(v) => Some(v.clone()),
        None => None,
    }
}

/// The text of a value, or `default` where it is not set.
fn value_or(value: &Option<String>, default: &str) -> (r: String)
    ensures
        r@ == text_or(*value, default@),
{
    match value {
        Some(v) => v.clone(),
        None => String::from_str(default),
    }
}

/// Adds `name` to the list of missing names where `missing` holds.
fn note_missing(list: &mut String, name: &str, missing: bool)
    ensures
        final(list)@ == joined(old(list)@, name@, missing),
{
    if missing {
        if list.as_str().unicode_len() > 0 {
            list.append(", ");
        }
        list.append(name);
    }
}

impl HolochainConfig {
    /// The configuration of the target ledger in the environment.
    ///
    /// Ports and app id have defaults; the other five values have none.
    /// Where all values are there, each is read, and the first that
    /// cannot be read is the error. Where none is there, there is no
    /// configuration. Where some are there and others are not, the missing
    /// ones are named.
    pub fn from_values(env: &EnvValues) -> (r: Result<Option<HolochainConfig>, ConfigError>)
        ensures
            match r {
                Ok(Some(hc)) => holochain_complete(*env) && holochain_fault(*env).is_none()
                    && is_holochain_of(hc, *env),
                Ok(None) => holochain_absent(*env),
                Err(ConfigError::HolochainIncomplete(names)) => !holochain_complete(*env)
                    && !holochain_absent(*env) && names@ == missing_names(*env),
                Err(e) => holochain_complete(*env) && holochain_fault(*env) == Some(e),
            },
    {
        let admin_port = value_or(&env.holochain_admin_port, "30000");
        let app_port = value_or(&env.holochain_app_port, "30001");
        let app_id = value_or(&env.holochain_app_id, "bridging-app");
        let no_admin_port = admin_port.as_str().unicode_len() == 0;
        let no_app_port = app_port.as_str().unicode_len() == 0;
        let no_app_id = app_id.as_str().unicode_len() == 0;
        let mut missing = String::new();
        note_missing(&mut missing, "HOLOCHAIN_ADMIN_PORT", no_admin_port);
        note_missing(&mut missing, "HOLOCHAIN_APP_PORT", no_app_port);
        note_missing(&mut missing, "HOLOCHAIN_APP_ID", no_app_id);
        note_missing(&mut missing, "HOLOCHAIN_DNA_HASH", env.holochain_dna_hash.is_none());
        note_missing(&mut missing, "HOLOCHAIN_AGENT_PUBKEY", env.holochain_agent_pubkey.is_none());
        note_missing(
            &mut missing,
            "HOLOCHAIN_BRIDGING_AGENT_PUBKEY",
            env.holochain_bridging_agent_pubkey.is_none(),
        );
        note_missing(
            &mut missing,
            "HOLOCHAIN_CREDIT_LIMIT_EA_ID",
            env.holochain_credit_limit_ea_id.is_none(),
        );
        note_missing(&mut missing, "HOLOCHAIN_UNIT_INDEX", env.holochain_unit_index.is_none());
        let any_present = !no_admin_port || !no_app_port || !no_app_id
            || env.holochain_dna_hash.is_some() || env.holochain_agent_pubkey.is_some()
            || env.holochain_bridging_agent_pubkey.is_some()
            || env.holochain_credit_limit_ea_id.is_some() || env.holochain_unit_index.is_some();
        match (
            &env.holochain_dna_hash,
            &env.holochain_agent_pubkey,
            &env.holochain_bridging_agent_pubkey,
            &env.holochain_credit_limit_ea_id,
            &env.holochain_unit_index,
        ) {
            (Some(dna_hash), Some(agent_pubkey), Some(bridging), Some(ea_id), Some(unit_index)) => {
                if no_admin_port || no_app_port || no_app_id {
                    return Err(ConfigError::HolochainIncomplete(missing));
                }
                if !check_dna_hash(dna_hash.as_str()) {
                    return Err(ConfigError::InvalidDnaHash);
                }
                if !check_agent_pubkey(agent_pubkey.as_str()) {
                    return Err(ConfigError::InvalidAgentPubkey);
                }
                if !check_agent_pubkey(bridging.as_str()) {
                    return Err(ConfigError::InvalidBridgingAgentPubkey);
                }
                if !check_action_hash(ea_id.as_str()) {
                    return Err(ConfigError::InvalidCreditLimitEaId);
                }
                let unit = match parse_u32(unit_index.as_str()) {
                    Some(u) => u,
                    None => {
                        return Err(ConfigError::InvalidUnitIndex);
                    },
                };
                let admin = match parse_u16(admin_port.as_str()) {
                    Some(p) => p,
                    None => {
                        return Err(ConfigError::InvalidAdminPort);
                    },
                };
                let app = match parse_u16(app_port.as_str()) {
                    Some(p) => p,
                    None => {
                        return Err(ConfigError::InvalidAppPort);
                    },
                };
                Ok(
                    Some(
                        HolochainConfig {
                            admin_port: admin,
                            app_port: app,
                            app_id,
                            dna_hash: dna_hash.clone(),
                            agent_pubkey: agent_pubkey.clone(),
                            bridging_agent_pubkey: bridging.clone(),
                            credit_limit_ea_id: ea_id.clone(),
                            unit_index: unit,
                        },
                    ),
                )
            },
            _ => {
                if any_present {
                    Err(ConfigError::HolochainIncomplete(missing))
                } else {
                    Ok(None)
                }
            },
        }
    }
}

impl Config {
    /// The configuration that the environment holds.
    ///
    /// The network is `sepolia` where none is set. Its vault address must be
    /// set and must be an address. The endpoint has a default for each
    /// network, the store path is `./data/locks.db` and the poll interval
    /// 5000 milliseconds where none is set.
    pub fn from_values(env: &EnvValues) -> (r: Result<Config, ConfigError>)
        ensures
            match r {
                Ok(config) => {
                    &&& chosen_network(*env) == Some(config.network)
                    &&& config.network_config.chain_id == config.network.spec_chain_id()
                    &&& config.network_config.confirmations == config.network.spec_confirmations()
                    &&& config.network_config.rpc_url@ == text_or(
                        rpc_text(*env, config.network),
                        config.network.spec_default_rpc_url(),
                    )
                    &&& text_of(config.network_config.ws_url) == text_of(
                        ws_text(*env, config.network),
                    )
                    &&& vault_text(*env, config.network).is_some()
                    &&& Some(config.network_config.lock_vault_address.bytes@) == fixed_hex(
                        vault_text(*env, config.network).unwrap()@,
                        20,
                    )
                    &&& text_of(config.signer_private_key) == text_of(env.signer_private_key)
                    &&& config.db_path@ == text_or(env.db_path, "./data/locks.db"@)
                    &&& Some(config.poll_interval_ms as nat) == unsigned_from_text(
                        text_or(env.poll_interval_ms, "5000"@),
                        u64::MAX as nat,
                    )
                    &&& match config.holochain {
                        Some(hc) => holochain_complete(*env) && holochain_fault(*env).is_none()
                            && is_holochain_of(hc, *env),
                        None => holochain_absent(*env),
                    }
                },
                Err(ConfigError::InvalidNetwork) => chosen_network(*env).is_none(),
                Err(ConfigError::MissingVaultAddress(network)) => chosen_network(*env) == Some(
                    network,
                ) && vault_text(*env, network).is_none(),
                Err(ConfigError::InvalidVaultAddress(network)) => chosen_network(*env) == Some(
                    network,
                ) && vault_text(*env, network).is_some() && fixed_hex(
                    vault_text(*env, network).unwrap()@,
                    20,
                ).is_none(),
                Err(ConfigError::InvalidPollInterval) => unsigned_from_text(
                    text_or(env.poll_interval_ms, "5000"@),
                    u64::MAX as nat,
                ).is_none(),
                Err(ConfigError::HolochainIncomplete(names)) => !holochain_complete(*env)
                    && !holochain_absent(*env) && names@ == missing_names(*env),
                Err(e) => holochain_complete(*env) && holochain_fault(*env) == Some(e),
            },
    {
        let network_text = value_or(&env.network, "sepolia");
        let network = match Network::from_str(network_text.as_str()) {
            Ok(n) => n,
            Err(_) => {
                return Err(ConfigError::InvalidNetwork);
            },
        };
        let (rpc_url, ws_url, vault) = match network {
            Network::Mainnet => (
                copy_of(&env.eth_rpc_url),
                copy_of(&env.eth_ws_url),
                &env.mainnet_lock_vault_address,
            ),
            Network::Sepolia => (
                copy_of(&env.sepolia_rpc_url),
                copy_of(&env.sepolia_ws_url),
                &env.sepolia_lock_vault_address,
            ),
        };
        let lock_vault_address = match vault {
            None => {
                return Err(ConfigError::MissingVaultAddress(network));
            },
            Some(text) => match parse_address(text.as_str()) {
                Some(a) => a,
                None => {
                    return Err(ConfigError::InvalidVaultAddress(network));
                },
            },
        };
        let network_config = NetworkConfig::for_network(network, rpc_url, ws_url, lock_vault_address);
        let poll_text = value_or(&env.poll_interval_ms, "5000");
        let poll_interval_ms = match parse_u64(poll_text.as_str()) {
            Some(p) => p,
            None => {
                return Err(ConfigError::InvalidPollInterval);
            },
        };
        let holochain = match HolochainConfig::from_values(env) {
            Ok(h) => h,
            Err(e) => {
                return Err(e);
            },
        };
        Ok(
            Config {
                network,
                network_config,
                signer_private_key: copy_of(&env.signer_private_key),
                db_path: value_or(&env.db_path, "./data/locks.db"),
                poll_interval_ms,
                holochain,
            },
        )
    }
}

} // verus!
