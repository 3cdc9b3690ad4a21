//! What the withdrawal driver is started with.

use vstd::prelude::*;
use vstd::string::StringExecFns;
use crate::signer::{
    coupon_plan, generate_coupon_with_context, is_coupon_error, is_issued_coupon, ClaimCoupon,
    SignerContext, SignerError,
};

verus! {

/// The arguments of the withdrawal driver: where the target ledger is
/// reached, which cell is addressed, and the agreement whose parked
/// withdrawals are executed.
#[derive(Debug, Clone)]
pub struct WithdrawerArgs {
    pub admin_url: String,
    pub app_url: String,
    pub app_id: String,
    pub dna_hash: String,
    pub agent_pubkey: String,
    pub bridging_agreement_id: String,
}

/// How the withdrawal driver reaches the target ledger. Hash and key are
/// kept in the ledger's own text form.
#[derive(Debug, Clone)]
pub struct WithdrawerConfig {
    pub admin_url: String,
    pub app_url: String,
    pub app_id: String,
    pub dna_hash: String,
    pub agent_pubkey: String,
}

impl WithdrawerArgs {
    /// The arguments with the local endpoints and the app id
    /// `bridging-app` where none are given.
    pub fn with_defaults(
        admin_url: Option<String>,
        app_url: Option<String>,
        app_id: Option<String>,
        dna_hash: String,
        agent_pubkey: String,
        bridging_agreement_id: String,
    ) -> (r: WithdrawerArgs)
        ensures
            r.admin_url@ == match admin_url {
                Some(u) => u@,
                None => "127.0.0.1:8800"@,
            },
            r.app_url@ == match app_url {
                Some(u) => u@,
                None => "127.0.0.1:30000"@,
            },
            r.app_id@ == match app_id {
                Some(a) => a@,
                None => "bridging-app"@,
            },
            r.dna_hash == dna_hash,
            r.agent_pubkey == agent_pubkey,
            r.bridging_agreement_id == bridging_agreement_id,
    {
        WithdrawerArgs {
            admin_url: match admin_url {
                Some(u) => u,
                None => String::from_str("127.0.0.1:8800"),
            },
            app_url: match app_url {
                Some(u) => u,
                None => String::from_str("127.0.0.1:30000"),
            },
            app_id: match app_id {
                Some(a) => a,
                None => String::from_str("bridging-app"),
            },
            dna_hash,
            agent_pubkey,
            bridging_agreement_id,
        }
    }

    /// The connection settings among the arguments.
    pub fn config(&self) -> (r: WithdrawerConfig)
        ensures
            r.admin_url@ == self.admin_url@,
            r.app_url@ == self.app_url@,
            r.app_id@ == self.app_id@,
            r.dna_hash@ == self.dna_hash@,
            r.agent_pubkey@ == self.agent_pubkey@,
    {
        WithdrawerConfig {
            admin_url: self.admin_url.clone(),
            app_url: self.app_url.clone(),
            app_id: self.app_id.clone(),
            dna_hash: self.dna_hash.clone(),
            agent_pubkey: self.agent_pubkey.clone(),
        }
    }
}

/// What a parked spend carries for the withdrawal: the contract to
/// withdraw from and the address to withdraw to.
#[derive(Debug, Clone, PartialEq, Eq)]
pub struct SpenderPayload {
    pub withdraw_contract_address: String,
    pub withdraw_to_address: String,
}

/// A parked transaction of the agreement, as far as the withdrawal reads
/// it: the amount in the unit that is withdrawn, if the transaction has
/// one, and the payload of a parked spend, if it is one.
#[derive(Debug, Clone, PartialEq, Eq)]
pub struct ParkedWithdrawal {
    pub amount: Option<String>,
    pub spender: Option<SpenderPayload>,
}

/// The amount that is signed for a parked withdrawal: the amount of the
/// transaction, and the empty text where it has none.
pub open spec fn withdrawal_amount(withdrawal: ParkedWithdrawal) -> Seq<char> {
    match withdrawal.amount {
        Some(a) => a@,
        None => Seq::empty(),
    }
}

/// Signs the coupon for one parked transaction at the time `now`.
///
/// A transaction that is no parked spend is passed over: nothing is signed
/// for it. For a parked spend the coupon is issued to the address that its
/// payload names, over the amount of the transaction.
pub fn process_transaction(
    private_key: &str,
    ctx: &SignerContext,
    withdrawal: &ParkedWithdrawal,
    now: u64,
) -> (r: Result<Option<ClaimCoupon>, SignerError>)
    ensures
        match withdrawal.spender {
            None => r == Ok::<Option<ClaimCoupon>, SignerError>(None),
            Some(spender) => {
                let plan = coupon_plan(
                    private_key@,
                    withdrawal_amount(*withdrawal),
                    spender.withdraw_to_address@,
                    *ctx,
                    now,
                );
                match r {
                    Ok(Some(coupon)) => plan.is_ok() && is_issued_coupon(
                        coupon,
                        plan.unwrap(),
                        withdrawal_amount(*withdrawal),
                    ),
                    Ok(None) => false,
                    Err(e) => is_coupon_error(e, plan),
                }
            },
        },
{
    let spender = match &withdrawal.spender {
        Some(s) => s,
        None => {
            return Ok(None);
        },
    };
    let amount = match &withdrawal.amount {
        Some(a) => a.clone(),
        None => String::new(),
    };
    match generate_coupon_with_context(
        private_key,
        amount.as_str(),
        spender.withdraw_to_address.as_str(),
        ctx,
        now,
    ) {
        Ok((coupon, _)) => Ok(Some(coupon)),
        Err(e) => Err(e),
    }
}

} // verus!
