//! The payload that relays a confirmed deposit into the target ledger.

use vstd::prelude::*;
use vstd::string::StringExecFns;
use crate::amount::{format_amount, format_amount_spec};
use crate::config::HolochainConfig;
use crate::hexcodec::{hex_decode, hex_decoded, hex_error_text, strip_prefix, without_prefix};
use crate::text::{lowercase_of, to_lowercase};
use crate::types::{LockRecord, LockRow};
use crate::uint::{decimal_text, u64_to_decimal};

verus! {

/// The text form that the target ledger gives to the agent key with the 32
/// core bytes `core`, as `holo_hash::AgentPubKey` writes it.
pub uninterp spec fn agent_pubkey_text(core: Seq<u8>) -> Seq<char>;

/// Calls `AgentPubKey::from_raw_32` of holo_hash on 32 core bytes, which
/// adds the location bytes, and `to_string` on the key. The contract names
/// the text [`agent_pubkey_text`].
#[verifier::external_body]
pub(crate) fn agent_pubkey_to_text(core: &Vec<u8>) -> (r: String)
    requires
        core@.len() == 32,
    ensures
        r@ == agent_pubkey_text(core@),
{
    holo_hash::AgentPubKey::from_raw_32(core.clone()).to_string()
}

/// Whether a text is a DNA hash in the target ledger's text form, as
/// `holo_hash::DnaHashB64` reads it.
pub uninterp spec fn is_dna_hash_text(text: Seq<char>) -> bool;

/// Whether a text is an agent key in the target ledger's text form, as
/// `holo_hash::AgentPubKeyB64` reads it.
pub uninterp spec fn is_agent_pubkey_text(text: Seq<char>) -> bool;

/// Whether a text is an action hash in the target ledger's text form, as
/// `holo_hash::ActionHashB64` reads it.
pub uninterp spec fn is_action_hash_text(text: Seq<char>) -> bool;

/// Calls `str::parse` for `DnaHashB64` of holo_hash on an ASCII text and
/// says whether it was taken. The contract names the answer
/// [`is_dna_hash_text`].
#[verifier::external_body]
pub(crate) fn reads_as_dna_hash(text: &str) -> (r: bool)
    requires
        text.is_ascii(),
    ensures
        r == is_dna_hash_text(text@),
{
    text.parse::<holo_hash::DnaHashB64>().is_ok()
}

/// Calls `str::parse` for `AgentPubKeyB64` of holo_hash on an ASCII text
/// and says whether it was taken. The contract names the answer
/// [`is_agent_pubkey_text`].
#[verifier::external_body]
pub(crate) fn reads_as_agent_pubkey(text: &str) -> (r: bool)
    requires
        text.is_ascii(),
    ensures
        r == is_agent_pubkey_text(text@),
{
    text.parse::<holo_hash::AgentPubKeyB64>().is_ok()
}

/// Calls `str::parse` for `ActionHashB64` of holo_hash on an ASCII text and
/// says whether it was taken. The contract names the answer
/// [`is_action_hash_text`].
#[verifier::external_body]
pub(crate) fn reads_as_action_hash(text: &str) -> (r: bool)
    requires
        text.is_ascii(),
    ensures
        r == is_action_hash_text(text@),
{
    text.parse::<holo_hash::ActionHashB64>().is_ok()
}

/// Whether an ASCII text is a DNA hash of the target ledger.
pub open spec fn valid_dna_hash(text: Seq<char>) -> bool {
    vstd::utf8::is_ascii_chars(text) && is_dna_hash_text(text)
}

/// Whether an ASCII text is an agent key of the target ledger.
pub open spec fn valid_agent_pubkey(text: Seq<char>) -> bool {
    vstd::utf8::is_ascii_chars(text) && is_agent_pubkey_text(text)
}

/// Whether an ASCII text is an action hash of the target ledger.
pub open spec fn valid_action_hash(text: Seq<char>) -> bool {
    vstd::utf8::is_ascii_chars(text) && is_action_hash_text(text)
}

/// Whether `text` is a DNA hash of the target ledger.
pub fn check_dna_hash(text: &str) -> (r: bool)
    ensures
        r == valid_dna_hash(text@),
{
    text.is_ascii() && reads_as_dna_hash(text)
}

/// Whether `text` is an agent key of the target ledger.
pub fn check_agent_pubkey(text: &str) -> (r: bool)
    ensures
        r == valid_agent_pubkey(text@),
{
    text.is_ascii() && reads_as_agent_pubkey(text)
}

/// Whether `text` is an action hash of the target ledger.
pub fn check_action_hash(text: &str) -> (r: bool)
    ensures
        r == valid_action_hash(text@),
{
    text.is_ascii() && reads_as_action_hash(text)
}

/// Proof that value was deposited on the source chain.
#[derive(Debug, Clone, PartialEq, Eq)]
pub struct ProofOfDeposit {
    pub method: String,
    pub contract_address: String,
    pub amount: String,
    pub depositor_wallet_address: String,
}

/// The tag of a parked link: the role it is for, the amount in one unit,
/// and the proof of deposit.
#[derive(Debug, Clone, PartialEq, Eq)]
pub struct ParkedLinkTag {
    pub ct_role_id: String,
    pub unit_index: u32,
    pub unit_amount: String,
    pub proof_of_deposit: ProofOfDeposit,
}

/// What `create_parked_link` of the target ledger takes: the agreement, the
/// executor and the tag.
#[derive(Debug, Clone, PartialEq, Eq)]
pub struct BridgingPayload {
    pub ea_id: String,
    pub executor: Option<String>,
    pub tag: ParkedLinkTag,
}

/// Why no payload can be built for a record.
#[derive(Debug, Clone, PartialEq, Eq)]
pub enum PayloadError {
    /// The agent key of the record is no hexadecimal text.
    InvalidHex { lock_id: String, detail: String, value: String },
    /// The agent key of the record is hexadecimal, but not of 32 bytes.
    WrongLength { lock_id: String, actual: u64, value: String },
}

impl PayloadError {
    /// The error in words, as it is kept with the failed record.
    pub open spec fn spec_message(self) -> Seq<char> {
        match self {
            PayloadError::InvalidHex { lock_id, detail, value } => {
                "invalid holochain agent key for lock "@ + lock_id@ + ": "@ + detail@
                    + " (value: "@ + value@ + ")"@
            },
            PayloadError::WrongLength { lock_id, actual, value } => {
                "invalid holochain agent key for lock "@ + lock_id@
                    + ": expected 32 bytes, got "@ + decimal_text(actual as nat) + " (value: "@
                    + value@ + ")"@
            },
        }
    }

    /// The error in words, as it is kept with the failed record.
    pub fn message(&self) -> (r: String)
        ensures
            r@ == self.spec_message(),
    {
        let mut out = String::from_str("invalid holochain agent key for lock ");
        match self {
            PayloadError::InvalidHex { lock_id, detail, value } => {
                out.append(lock_id.as_str());
                out.append(": ");
                out.append(detail.as_str());
                out.append(" (value: ");
                out.append(value.as_str());
                out.append(")");
            },
            PayloadError::WrongLength { lock_id, actual, value } => {
                let digits = u64_to_decimal(*actual);
                out.append(lock_id.as_str());
                out.append(": expected 32 bytes, got ");
                out.append(digits.as_str());
                out.append(" (value: ");
                out.append(value.as_str());
                out.append(")");
            },
        }
        out
    }
}

/// The 32 bytes of an agent key written in hexadecimal, with or without
/// `0x` in front; `None` for any other text.
pub open spec fn agent_key_bytes(text: Seq<char>) -> Option<Seq<u8>> {
    match hex_decoded(without_prefix(text)) {
        Some(bytes) => if bytes.len() == 32 {
            Some(bytes)
        } else {
            None
        },
        None => None,
    }
}

/// Whether `payload` is the one that relays the deposit `lock`: agreement,
/// executor and unit are those of the configuration, the role is `oracle`,
/// the method `deposit`, the amount is written for display, the contract
/// address in lower case, and the depositor is the agent key of the record
/// in the ledger's text form.
pub open spec fn is_payload_for(
    payload: BridgingPayload,
    hc_config: HolochainConfig,
    lock: LockRow,
    contract_address_hex: Seq<char>,
) -> bool {
    &&& agent_key_bytes(lock.holochain_agent).is_some()
    &&& payload.ea_id@ == hc_config.credit_limit_ea_id@
    &&& payload.executor.is_some()
    &&& payload.executor.unwrap()@ == hc_config.bridging_agent_pubkey@
    &&& payload.tag.ct_role_id@ == "oracle"@
    &&& payload.tag.unit_index == hc_config.unit_index
    &&& payload.tag.unit_amount@ == format_amount_spec(lock.amount)
    &&& payload.tag.proof_of_deposit.method@ == "deposit"@
    &&& payload.tag.proof_of_deposit.contract_address@ == lowercase_of(contract_address_hex)
    &&& payload.tag.proof_of_deposit.amount@ == format_amount_spec(lock.amount)
    &&& payload.tag.proof_of_deposit.depositor_wallet_address@ == agent_pubkey_text(
        agent_key_bytes(lock.holochain_agent).unwrap(),
    )
}

/// Builds the payload that relays the deposit `lock` into the target ledger.
///
/// The agent key of the record must be 32 bytes in hexadecimal, with or
/// without `0x` in front: any other text is refused, and no payload is
/// built. The amount is written for display, the contract address in lower
/// case, and the key in the ledger's own text form.
pub fn build_create_parked_link_payload(
    hc_config: &HolochainConfig,
    lock: &LockRecord,
    contract_address_hex: &str,
) -> (r: Result<BridgingPayload, PayloadError>)
    ensures
        r.is_ok() == agent_key_bytes(lock.holochain_agent@).is_some(),
        match r {
            Ok(payload) => is_payload_for(payload, *hc_config, lock@, contract_address_hex@),
            Err(PayloadError::InvalidHex { lock_id, detail, value }) => {
                &&& hex_decoded(without_prefix(lock.holochain_agent@)).is_none()
                &&& lock_id@ == lock.lock_id@
                &&& value@ == lock.holochain_agent@
            },
            Err(PayloadError::WrongLength { lock_id, actual, value }) => {
                &&& hex_decoded(without_prefix(lock.holochain_agent@)).is_some()
                &&& actual == hex_decoded(without_prefix(lock.holochain_agent@)).unwrap().len()
                &&& actual != 32
                &&& lock_id@ == lock.lock_id@
                &&& value@ == lock.holochain_agent@
            },
        },
{
    let digits = strip_prefix(lock.holochain_agent.as_str());
    let core = match hex_decode(digits) {
        Ok(bytes) => {
            if bytes.len() != 32 {
                return Err(
                    PayloadError::WrongLength {
                        lock_id: lock.lock_id.clone(),
                        actual: bytes.len() as u64,
                        value: lock.holochain_agent.clone(),
                    },
                );
            }
            bytes
        },
        Err(e) => {
            return Err(
                PayloadError::InvalidHex {
                    lock_id: lock.lock_id.clone(),
                    detail: hex_error_text(&e),
                    value: lock.holochain_agent.clone(),
                },
            );
        },
    };
    let depositor = agent_pubkey_to_text(&core);
    let formatted_amount = format_amount(lock.amount.as_str());
    let proof = ProofOfDeposit {
        method: String::from_str("deposit"),
        contract_address: to_lowercase(contract_address_hex),
        amount: formatted_amount.clone(),
        depositor_wallet_address: depositor,
    };
    let tag = ParkedLinkTag {
        ct_role_id: String::from_str("oracle"),
        unit_index: hc_config.unit_index,
        unit_amount: formatted_amount,
        proof_of_deposit: proof,
    };
    Ok(
        BridgingPayload {
            ea_id: hc_config.credit_limit_ea_id.clone(),
            executor: Some(hc_config.bridging_agent_pubkey.clone()),
            tag,
        },
    )
}

} // verus!
