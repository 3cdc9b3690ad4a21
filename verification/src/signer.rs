//! The coupon signer: the nine context words, their hash under the signed
//! message prefix, the signature in its 65-byte form, and the renderings of
//! the result.

use vstd::prelude::*;
use vstd::string::StringExecFns;
use crate::amount::{parse_amount, parse_amount_spec, AmountError};
use crate::hexcodec::{prefixed_hex, to_prefixed_hex};
use crate::primitives::{
    fixed_hex, keccak256, keccak256_of, parse_address, parse_b256, Address, B256,
};
use crate::text::{parse_u64, same_text, unsigned_from_text};
use crate::uint::{
    be_bytes32, be_value, decimal_text, from_be_slice, parse_u256, to_be_bytes, to_decimal,
    u256_from_text, u64_to_decimal, U256,
};

verus! {

/// The order of the group of secp256k1: a signing key is a number above
/// zero and below it.
pub open spec fn secp256k1_order() -> nat {
    0xffff_ffff_ffff_ffff_ffff_ffff_ffff_fffe_baae_dce6_af48_a03b_bfd2_5e8c_d036_4141nat
}

/// Whether 32 bytes are a signing key.
pub open spec fn is_signing_key(bytes: Seq<u8>) -> bool {
    bytes.len() == 32 && 0 < be_value(bytes) < secp256k1_order()
}

/// The signing key that a text writes: 64 hexadecimal digits, with or
/// without `0x` in front, of a number that is a signing key.
pub open spec fn signing_key_of(text: Seq<char>) -> Option<Seq<u8>> {
    match fixed_hex(text, 32) {
        Some(bytes) => if is_signing_key(bytes) {
            Some(bytes)
        } else {
            None
        },
        None => None,
    }
}

/// The address that belongs to a signing key.
pub uninterp spec fn address_of_key(key: Seq<u8>) -> Seq<u8>;

/// The signature of a signing key over a 32-byte digest: `r`, `s` and the
/// parity of the recovery id, or `None` where no signature comes about.
/// The same key and digest give the same signature.
pub uninterp spec fn signature_of(key: Seq<u8>, digest: Seq<u8>) -> Option<(nat, nat, bool)>;

/// A signing key: 32 bytes.
#[derive(Clone, Copy, PartialEq, Eq)]
pub struct SigningKey {
    pub bytes: [u8; 32],
}

/// A signature: `r`, `s`, and the parity of the recovery id.
#[derive(Debug, Clone, Copy, PartialEq, Eq)]
pub struct Signature {
    pub r: U256,
    pub s: U256,
    pub v: bool,
}

/// Calls `str::parse` for alloy's `PrivateKeySigner` and takes the key's
/// bytes: a key is 64 hexadecimal digits, with or without `0x` in front,
/// that write a number above zero and below the order of the curve.
#[verifier::external_body]
pub(crate) fn parse_signing_key(text: &str) -> (r: Option<SigningKey>)
    ensures
        r.is_some() == signing_key_of(text@).is_some(),
        r.is_some() ==> Some(r.unwrap().bytes@) == signing_key_of(text@),
{
    match text.parse::<alloy::signers::local::PrivateKeySigner>() {
        Ok(signer) => Some(SigningKey { bytes: signer.to_bytes().0 }),
        Err(_) => None,
    }
}

/// Calls `PrivateKeySigner::from_slice` of alloy and `address` on the
/// signer: the address of a signing key, and `None` for bytes that are no
/// key. The contract names the address [`address_of_key`].
#[verifier::external_body]
pub(crate) fn signer_address(key: &SigningKey) -> (r: Option<Address>)
    ensures
        r.is_some() == is_signing_key(key.bytes@),
        r.is_some() ==> r.unwrap().bytes@ == address_of_key(key.bytes@),
{
    match alloy::signers::local::PrivateKeySigner::from_slice(&key.bytes) {
        Ok(signer) => Some(Address { bytes: signer.address().into_array() }),
        Err(_) => None,
    }
}

/// Calls `sign_hash_sync` of alloy's `PrivateKeySigner` on a digest: a
/// deterministic ECDSA signature over secp256k1. The contract names the
/// outcome [`signature_of`].
#[verifier::external_body]
pub(crate) fn sign_digest(key: &SigningKey, digest: &B256) -> (r: Option<Signature>)
    ensures
        r.is_some() == signature_of(key.bytes@, digest.bytes@).is_some(),
        r.is_some() ==> Some((r.unwrap().r.value(), r.unwrap().s.value(), r.unwrap().v))
            == signature_of(key.bytes@, digest.bytes@),
{
    let signer = alloy::signers::local::PrivateKeySigner::from_slice(&key.bytes).ok()?;
    let hash = alloy::primitives::B256::new(digest.bytes);
    let sig = alloy::signers::SignerSync::sign_hash_sync(&signer, &hash).ok()?;
    let (r, s) = (sig.r().into_limbs(), sig.s().into_limbs());
    Some(
        Signature {
            r: U256 { w0: r[0], w1: r[1], w2: r[2], w3: r[3] },
            s: U256 { w0: s[0], w1: s[1], w2: s[2], w3: s[3] },
            v: sig.v(),
        },
    )
}

/// What a coupon is signed for, as texts, and how it is to be shown.
#[derive(Debug, Clone)]
pub struct SignerContext {
    pub order_hash: String,
    pub order_owner: String,
    pub orderbook: String,
    pub token: String,
    pub vault_id: String,
    pub expiry_seconds: u64,
    pub nonce: Option<u64>,
    pub output: String,
}

/// The signed context: the signer's address, the context words and the
/// signature, each in hexadecimal behind `0x`.
#[derive(Debug, Clone, PartialEq, Eq)]
pub struct SignedContext {
    pub signer: String,
    pub context: Vec<String>,
    pub signature: String,
}

/// A coupon: who may claim how much until when, and the signed context that
/// proves it.
#[derive(Debug, Clone, PartialEq, Eq)]
pub struct ClaimCoupon {
    pub recipient: String,
    pub amount: String,
    pub amount_wei: String,
    pub expiry: u64,
    pub nonce: u64,
    pub signed_context: SignedContext,
}

/// Why no coupon is issued.
#[derive(Debug, Clone, Copy, PartialEq, Eq, Structural)]
pub enum SignerError {
    InvalidPrivateKey,
    InvalidRecipient,
    InvalidOrderHash,
    InvalidOrderOwner,
    InvalidOrderbook,
    InvalidToken,
    InvalidVaultId,
    Amount(AmountError),
    ExpiryOverflow,
    SigningFailed,
}

impl SignerError {
    /// The error in words.
    pub fn message(&self) -> (r: &'static str)
        ensures
            r@ == match *self {
                SignerError::InvalidPrivateKey => "Invalid private key format"@,
                SignerError::InvalidRecipient => "Invalid recipient address"@,
                SignerError::InvalidOrderHash => "Invalid order hash"@,
                SignerError::InvalidOrderOwner => "Invalid order owner address"@,
                SignerError::InvalidOrderbook => "Invalid orderbook address"@,
                SignerError::InvalidToken => "Invalid token address"@,
                SignerError::InvalidVaultId => "Invalid vault ID"@,
                SignerError::Amount(e) => match e {
                    AmountError::InvalidFormat => "Invalid amount format"@,
                    AmountError::InvalidWhole => "Invalid whole number part"@,
                    AmountError::TooManyDecimals => "Too many decimal places (max 18)"@,
                    AmountError::InvalidFraction => "Invalid decimal part"@,
                    AmountError::InvalidAmount => "Invalid amount"@,
                },
                SignerError::ExpiryOverflow => "Expiry is out of range"@,
                SignerError::SigningFailed => "Signing failed"@,
            },
    {
        match self {
            SignerError::InvalidPrivateKey => "Invalid private key format",
            SignerError::InvalidRecipient => "Invalid recipient address",
            SignerError::InvalidOrderHash => "Invalid order hash",
            SignerError::InvalidOrderOwner => "Invalid order owner address",
            SignerError::InvalidOrderbook => "Invalid orderbook address",
            SignerError::InvalidToken => "Invalid token address",
            SignerError::InvalidVaultId => "Invalid vault ID",
            SignerError::Amount(e) => e.message(),
            SignerError::ExpiryOverflow => "Expiry is out of range",
            SignerError::SigningFailed => "Signing failed",
        }
    }
}

/// The value that a signer context lacks.
#[derive(Debug, Clone, Copy, PartialEq, Eq, Structural)]
pub enum MissingValue {
    OrderHash,
    OrderOwner,
    Orderbook,
    Token,
    VaultId,
}

impl MissingValue {
    /// The error in words.
    pub fn message(&self) -> (r: &'static str)
        ensures
            r@ == match *self {
                MissingValue::OrderHash => "ORDER_HASH not set"@,
                MissingValue::OrderOwner => "ORDER_OWNER not set"@,
                MissingValue::Orderbook => "ORDERBOOK_ADDRESS not set"@,
                MissingValue::Token => "TOKEN_ADDRESS not set"@,
                MissingValue::VaultId => "VAULT_ID not set"@,
            },
    {
        match self {
            MissingValue::OrderHash => "ORDER_HASH not set",
            MissingValue::OrderOwner => "ORDER_OWNER not set",
            MissingValue::Orderbook => "ORDERBOOK_ADDRESS not set",
            MissingValue::Token => "TOKEN_ADDRESS not set",
            MissingValue::VaultId => "VAULT_ID not set",
        }
    }
}

/// The number that a text writes, if it is there and writes one.
pub open spec fn number_in(text: Option<String>) -> Option<u64> {
    match text {
        Some(t) => match unsigned_from_text(t@, u64::MAX as nat) {
            Some(n) => Some(n as u64),
            None => None,
        },
        None => None,
    }
}

impl SignerContext {
    /// The context that the environment holds. The five texts of the order
    /// must be there: the first that is not is the error. The time to
    /// expiry is a week where none is set or where it is no number; the
    /// nonce is left open where none is set or where it is no number; the
    /// output is `ui` where none is set.
    pub fn from_values(
        order_hash: Option<String>,
        order_owner: Option<String>,
        orderbook: Option<String>,
        token: Option<String>,
        vault_id: Option<String>,
        expiry_seconds: Option<String>,
        nonce: Option<String>,
        output: Option<String>,
    ) -> (r: Result<SignerContext, MissingValue>)
        ensures
            match r {
                Ok(ctx) => {
                    &&& order_hash == Some(ctx.order_hash)
                    &&& order_owner == Some(ctx.order_owner)
                    &&& orderbook == Some(ctx.orderbook)
                    &&& token == Some(ctx.token)
                    &&& vault_id == Some(ctx.vault_id)
                    &&& ctx.expiry_seconds == match number_in(expiry_seconds) {
                        Some(n) => n,
                        None => 604800,
                    }
                    &&& ctx.nonce == number_in(nonce)
                    &&& ctx.output@ == match output {
                        Some(o) => o@,
                        None => "ui"@,
                    }
                },
                Err(MissingValue::OrderHash) => order_hash.is_none(),
                Err(MissingValue::OrderOwner) => order_hash.is_some() && order_owner.is_none(),
                Err(MissingValue::Orderbook) => order_hash.is_some() && order_owner.is_some()
                    && orderbook.is_none(),
                Err(MissingValue::Token) => order_hash.is_some() && order_owner.is_some()
                    && orderbook.is_some() && token.is_none(),
                Err(MissingValue::VaultId) => order_hash.is_some() && order_owner.is_some()
                    && orderbook.is_some() && token.is_some() && vault_id.is_none(),
            },
    {
        let order_hash = match order_hash {
            Some(v) => v,
            None => {
                return Err(MissingValue::OrderHash);
            },
        };
        let order_owner = match order_owner {
            Some(v) => v,
            None => {
                return Err(MissingValue::OrderOwner);
            },
        };
        let orderbook = match orderbook {
            Some(v) => v,
            None => {
                return Err(MissingValue::Orderbook);
            },
        };
        let token = match token {
            Some(v) => v,
            None => {
                return Err(MissingValue::Token);
            },
        };
        let vault_id = match vault_id {
            Some(v) => v,
            None => {
                return Err(MissingValue::VaultId);
            },
        };
        let expiry = match &expiry_seconds {
            Some(t) => parse_u64(t.as_str()),
            None => None,
        };
        let nonce = match &nonce {
            Some(t) => parse_u64(t.as_str()),
            None => None,
        };
        Ok(
            SignerContext::with_defaults(
                order_hash,
                order_owner,
                orderbook,
                token,
                vault_id,
                expiry,
                nonce,
                output,
            ),
        )
    }

    /// A context from its five texts, with a week as the time to expiry
    /// and `ui` as the output where none is given.
    pub fn with_defaults(
        order_hash: String,
        order_owner: String,
        orderbook: String,
        token: String,
        vault_id: String,
        expiry_seconds: Option<u64>,
        nonce: Option<u64>,
        output: Option<String>,
    ) -> (r: SignerContext)
        ensures
            r.order_hash == order_hash,
            r.order_owner == order_owner,
            r.orderbook == orderbook,
            r.token == token,
            r.vault_id == vault_id,
            r.expiry_seconds == match expiry_seconds {
                Some(s) => s,
                None => 604800,
            },
            r.nonce == nonce,
            r.output@ == match output {
                Some(o) => o@,
                None => "ui"@,
            },
    {
        SignerContext {
            order_hash,
            order_owner,
            orderbook,
            token,
            vault_id,
            expiry_seconds: match expiry_seconds {
                Some(s) => s,
                None => 604800,
            },
            nonce,
            output: match output {
                Some(o) => o,
                None => String::from_str("ui"),
            },
        }
    }
}

/// The numbers of a sequence of words.
pub open spec fn values_of(words: Seq<U256>) -> Seq<nat> {
    Seq::new(words.len(), |i: int| words[i].value())
}

/// The nine context numbers, in the order in which they are signed:
/// recipient, amount, expiry, order hash, order owner, orderbook, token,
/// vault id, nonce. Addresses and the hash count as numbers written most
/// significant byte first.
pub open spec fn context_values(
    recipient: Seq<u8>,
    amount: nat,
    expiry: u64,
    order_hash: Seq<u8>,
    order_owner: Seq<u8>,
    orderbook: Seq<u8>,
    token: Seq<u8>,
    vault_id: nat,
    nonce: u64,
) -> Seq<nat> {
    seq![
        be_value(recipient),
        amount,
        expiry as nat,
        be_value(order_hash),
        be_value(order_owner),
        be_value(orderbook),
        be_value(token),
        vault_id,
        nonce as nat,
    ]
}

/// The context numbers one after the other, each as 32 bytes, most
/// significant byte first.
pub open spec fn packed_context(values: Seq<nat>) -> Seq<u8>
    decreases values.len(),
{
    if values.len() == 0 {
        Seq::empty()
    } else {
        packed_context(values.drop_last()) + be_bytes32(values.last())
    }
}

/// The bytes of the signed message prefix for a 32-byte message: the byte
/// 0x19, then `Ethereum Signed Message:`, a line feed, and `32`.
pub open spec fn signed_message_prefix() -> Seq<u8> {
    seq![
        0x19u8, 0x45, 0x74, 0x68, 0x65, 0x72, 0x65, 0x75, 0x6d, 0x20, 0x53, 0x69, 0x67, 0x6e, 0x65,
        0x64, 0x20, 0x4d, 0x65, 0x73, 0x73, 0x61, 0x67, 0x65, 0x3a, 0x0a, 0x33, 0x32,
    ]
}

/// The digest that is signed for context numbers: the hash of the prefix
/// followed by the hash of the packed numbers.
pub open spec fn context_digest(values: Seq<nat>) -> Seq<u8> {
    keccak256_of(signed_message_prefix() + keccak256_of(packed_context(values)))
}

/// The 65 bytes of a signature: `r`, `s`, and 27 or 28 for the parity.
pub open spec fn signature_bytes(r: nat, s: nat, v: bool) -> Seq<u8> {
    be_bytes32(r) + be_bytes32(s) + seq![if v {
        28u8
    } else {
        27u8
    }]
}

/// Builds the nine context words, in the order in which they are signed.
pub fn build_context(
    recipient: &Address,
    amount: U256,
    expiry: u64,
    order_hash: &B256,
    order_owner: &Address,
    orderbook: &Address,
    token: &Address,
    vault_id: U256,
    nonce: u64,
) -> (r: Vec<U256>)
    ensures
        r@.len() == 9,
        values_of(r@) == context_values(
            recipient.bytes@,
            amount.value(),
            expiry,
            order_hash.bytes@,
            order_owner.bytes@,
            orderbook.bytes@,
            token.bytes@,
            vault_id.value(),
            nonce,
        ),
{
    let mut out: Vec<U256> = Vec::new();
    out.push(from_be_slice(vstd::array::array_as_slice(&recipient.bytes)));
    out.push(amount);
    out.push(U256::from_u64(expiry));
    out.push(from_be_slice(vstd::array::array_as_slice(&order_hash.bytes)));
    out.push(from_be_slice(vstd::array::array_as_slice(&order_owner.bytes)));
    out.push(from_be_slice(vstd::array::array_as_slice(&orderbook.bytes)));
    out.push(from_be_slice(vstd::array::array_as_slice(&token.bytes)));
    out.push(vault_id);
    out.push(U256::from_u64(nonce));
    assert(values_of(out@) =~= context_values(
        recipient.bytes@,
        amount.value(),
        expiry,
        order_hash.bytes@,
        order_owner.bytes@,
        orderbook.bytes@,
        token.bytes@,
        vault_id.value(),
        nonce,
    ));
    out
}

/// The context words one after the other, each as 32 bytes.
pub fn pack_context(context: &Vec<U256>) -> (r: Vec<u8>)
    ensures
        r@ == packed_context(values_of(context@)),
{
    let mut out: Vec<u8> = Vec::new();
    let mut i: usize = 0;
    assert(values_of(context@).take(0) =~= Seq::<nat>::empty());
    while i < context.len()
        invariant
            i <= context@.len(),
            out@ == packed_context(values_of(context@).take(i as int)),
        decreases context@.len() - i,
    {
        proof {
            let next = values_of(context@).take(i + 1);
            assert(next.drop_last() =~= values_of(context@).take(i as int));
            assert(next.last() == context@[i as int].value());
        }
        let mut word = to_be_bytes(context[i]);
        out.append(&mut word);
        i = i + 1;
    }
    assert(values_of(context@).take(context@.len() as int) =~= values_of(context@));
    out
}

/// The digest that is signed for a context: the hash of its packed words,
/// hashed once more behind the signed message prefix.
pub fn digest_context(context: &Vec<U256>) -> (r: B256)
    ensures
        r.bytes@ == context_digest(values_of(context@)),
{
    let packed = pack_context(context);
    let inner = keccak256(packed.as_slice());
    let mut message: Vec<u8> = vec![
        0x19u8, 0x45, 0x74, 0x68, 0x65, 0x72, 0x65, 0x75, 0x6d, 0x20, 0x53, 0x69, 0x67, 0x6e, 0x65,
        0x64, 0x20, 0x4d, 0x65, 0x73, 0x73, 0x61, 0x67, 0x65, 0x3a, 0x0a, 0x33, 0x32,
    ];
    assert(message@ =~= signed_message_prefix());
    let mut i: usize = 0;
    while i < 32
        invariant
            i <= 32,
            message@ == signed_message_prefix() + inner.bytes@.take(i as int),
        decreases 32 - i,
    {
        message.push(inner.bytes[i]);
        assert(message@ =~= signed_message_prefix() + inner.bytes@.take(i + 1));
        i = i + 1;
    }
    assert(inner.bytes@.take(32) =~= inner.bytes@);
    keccak256(message.as_slice())
}

/// The 65 bytes of a signature: `r`, `s`, and 27 or 28 for the parity.
pub fn encode_signature(signature: &Signature) -> (r: Vec<u8>)
    ensures
        r@ == signature_bytes(signature.r.value(), signature.s.value(), signature.v),
        r@.len() == 65,
{
    let mut out = to_be_bytes(signature.r);
    let mut s = to_be_bytes(signature.s);
    out.append(&mut s);
    out.push(if signature.v {
        28
    } else {
        27
    });
    assert(out@ =~= signature_bytes(signature.r.value(), signature.s.value(), signature.v));
    out
}

/// Whether `signed` is the signed context of the signer `signer` for the
/// context numbers `values` under the signature `(r, s, v)`.
pub open spec fn is_signed_context(
    signed: SignedContext,
    signer: Seq<u8>,
    values: Seq<nat>,
    r: nat,
    s: nat,
    v: bool,
) -> bool {
    &&& signed.signer@ == prefixed_hex(signer)
    &&& signed.context@.len() == values.len()
    &&& forall|i: int|
        0 <= i < values.len() ==> (#[trigger] signed.context@[i])@ == prefixed_hex(
            be_bytes32(values[i]),
        )
    &&& signed.signature@ == prefixed_hex(signature_bytes(r, s, v))
}

/// Whether two signed contexts hold the same texts.
pub open spec fn same_signed_context(a: SignedContext, b: SignedContext) -> bool {
    &&& a.signer@ == b.signer@
    &&& a.signature@ == b.signature@
    &&& a.context@.len() == b.context@.len()
    &&& forall|i: int| 0 <= i < a.context@.len() ==> (#[trigger] a.context@[i])@ == b.context@[i]@
}

/// A copy of a signed context.
pub fn duplicate_signed_context(signed: &SignedContext) -> (r: SignedContext)
    ensures
        same_signed_context(r, *signed),
{
    let mut context: Vec<String> = Vec::new();
    let mut i: usize = 0;
    while i < signed.context.len()
        invariant
            i <= signed.context@.len(),
            context@.len() == i,
            forall|k: int| 0 <= k < i ==> (#[trigger] context@[k])@ == signed.context@[k]@,
        decreases signed.context@.len() - i,
    {
        context.push(signed.context[i].clone());
        i = i + 1;
    }
    SignedContext { signer: signed.signer.clone(), context, signature: signed.signature.clone() }
}

/// Signs the context with the key and builds the coupon.
///
/// The context is hashed, the hash is hashed behind the signed message
/// prefix, and that digest is signed. The signed context holds the signer,
/// each context word and the 65 signature bytes in hexadecimal; the coupon
/// holds the recipient in hexadecimal, the amount as it was given and in
/// the smallest unit, expiry and nonce, and the signed context. Where no
/// signature comes about, nothing is built.
pub fn sign_and_build_coupon(
    key: &SigningKey,
    signer_address: &Address,
    amount_text: &str,
    amount: U256,
    recipient: &Address,
    context: &Vec<U256>,
    expiry: u64,
    nonce: u64,
) -> (r: Result<(SignedContext, ClaimCoupon), SignerError>)
    ensures
        r.is_ok() == signature_of(key.bytes@, context_digest(values_of(context@))).is_some(),
        match r {
            Ok((signed, coupon)) => {
                let sig = signature_of(key.bytes@, context_digest(values_of(context@))).unwrap();
                &&& is_signed_context(
                    signed,
                    signer_address.bytes@,
                    values_of(context@),
                    sig.0,
                    sig.1,
                    sig.2,
                )
                &&& same_signed_context(coupon.signed_context, signed)
                &&& coupon.recipient@ == prefixed_hex(recipient.bytes@)
                &&& coupon.amount@ == amount_text@
                &&& coupon.amount_wei@ == decimal_text(amount.value())
                &&& coupon.expiry == expiry
                &&& coupon.nonce == nonce
            },
            Err(e) => e == SignerError::SigningFailed,
        },
{
    let digest = digest_context(context);
    let signature = match sign_digest(key, &digest) {
        Some(s) => s,
        None => {
            return Err(SignerError::SigningFailed);
        },
    };
    let sig_bytes = encode_signature(&signature);
    let mut words: Vec<String> = Vec::new();
    let mut i: usize = 0;
    while i < context.len()
        invariant
            i <= context@.len(),
            words@.len() == i,
            forall|k: int|
                0 <= k < i ==> (#[trigger] words@[k])@ == prefixed_hex(
                    be_bytes32(values_of(context@)[k]),
                ),
        decreases context@.len() - i,
    {
        let bytes = to_be_bytes(context[i]);
        words.push(to_prefixed_hex(bytes.as_slice()));
        i = i + 1;
    }
    let signed_context = SignedContext {
        signer: to_prefixed_hex(vstd::array::array_as_slice(&signer_address.bytes)),
        context: words,
        signature: to_prefixed_hex(sig_bytes.as_slice()),
    };
    let coupon = ClaimCoupon {
        recipient: to_prefixed_hex(vstd::array::array_as_slice(&recipient.bytes)),
        amount: String::from_str(amount_text),
        amount_wei: to_decimal(amount),
        expiry,
        nonce,
        signed_context: duplicate_signed_context(&signed_context),
    };
    Ok((signed_context, coupon))
}

/// How a coupon is shown.
#[derive(Debug, Clone, Copy, PartialEq, Eq, Structural)]
pub enum OutputMode {
    /// One `key=value` line for the signer, the signature and each context
    /// word.
    Compact,
    /// The signature alone.
    Hex,
    /// The whole coupon as JSON.
    Json,
    /// Signer, signature and the context numbers in base ten, with commas
    /// between them.
    Ui,
}

impl OutputMode {
    /// The mode that a text asks for: `compact`, `hex` or `json`, and `ui`
    /// for any other text.
    pub open spec fn of(text: Seq<char>) -> OutputMode {
        if text == "compact"@ {
            OutputMode::Compact
        } else if text == "hex"@ {
            OutputMode::Hex
        } else if text == "json"@ {
            OutputMode::Json
        } else {
            OutputMode::Ui
        }
    }

    /// The mode that a text asks for.
    pub fn from_text(text: &str) -> (r: OutputMode)
        ensures
            r == OutputMode::of(text@),
    {
        if same_text(text, "compact") {
            OutputMode::Compact
        } else if same_text(text, "hex") {
            OutputMode::Hex
        } else if same_text(text, "json") {
            OutputMode::Json
        } else {
            OutputMode::Ui
        }
    }
}

/// The lines of the first `n` context words in the compact form, each
/// behind a line feed: `context[i]=` and the word.
pub open spec fn compact_context_lines(context: Seq<String>, n: nat) -> Seq<char>
    decreases n,
{
    if n == 0 {
        Seq::empty()
    } else {
        compact_context_lines(context, (n - 1) as nat) + "\ncontext["@ + decimal_text((n - 1) as nat)
            + "]="@ + context[n - 1]@
    }
}

/// The compact form: a line for the signer, one for the signature, and
/// one for each context word.
pub open spec fn compact_text(signed: SignedContext) -> Seq<char> {
    "signer="@ + signed.signer@ + "\nsignature="@ + signed.signature@ + compact_context_lines(
        signed.context@,
        signed.context@.len(),
    )
}

/// The first `n` numbers in base ten, each behind a comma.
pub open spec fn decimal_fields(values: Seq<nat>, n: nat) -> Seq<char>
    decreases n,
{
    if n == 0 {
        Seq::empty()
    } else {
        decimal_fields(values, (n - 1) as nat) + ","@ + decimal_text(values[n - 1])
    }
}

/// The form for the user interface: signer, signature and the context
/// numbers in base ten, with commas between them. Without context numbers
/// the text ends with the comma behind the signature.
pub open spec fn ui_text(signed: SignedContext, values: Seq<nat>) -> Seq<char> {
    if values.len() == 0 {
        signed.signer@ + ","@ + signed.signature@ + ","@
    } else {
        signed.signer@ + ","@ + signed.signature@ + decimal_fields(values, values.len())
    }
}

/// A coupon as it is to be shown.
#[derive(Debug, Clone, PartialEq, Eq)]
pub enum CouponOutput {
    /// The text to show.
    Text(String),
    /// The coupon itself is to be shown, as indented JSON.
    Json,
}

/// What is shown for a signed context and its numbers in the mode `mode`.
pub open spec fn is_output_for(
    output: CouponOutput,
    signed: SignedContext,
    values: Seq<nat>,
    mode: OutputMode,
) -> bool {
    match mode {
        OutputMode::Compact => output matches CouponOutput::Text(t) && t@ == compact_text(signed),
        OutputMode::Hex => output matches CouponOutput::Text(t) && t@ == signed.signature@,
        OutputMode::Json => output == CouponOutput::Json,
        OutputMode::Ui => output matches CouponOutput::Text(t) && t@ == ui_text(signed, values),
    }
}

/// Renders a signed context in the mode that `output` asks for: `compact`,
/// `hex`, `json`, and the form for the user interface for any other text.
/// The context numbers are written in base ten for the user interface and
/// in hexadecimal everywhere else.
pub fn format_output(context: &Vec<U256>, signed_context: &SignedContext, output: &str) -> (r:
    CouponOutput)
    ensures
        is_output_for(r, *signed_context, values_of(context@), OutputMode::of(output@)),
{
    match OutputMode::from_text(output) {
        OutputMode::Compact => {
            let mut out = String::from_str("signer=");
            out.append(signed_context.signer.as_str());
            out.append("\nsignature=");
            out.append(signed_context.signature.as_str());
            let ghost head = out@;
            let mut i: usize = 0;
            while i < signed_context.context.len()
                invariant
                    i <= signed_context.context@.len(),
                    out@ == head + compact_context_lines(signed_context.context@, i as nat),
                decreases signed_context.context@.len() - i,
            {
                let index = u64_to_decimal(i as u64);
                out.append("\ncontext[");
                out.append(index.as_str());
                out.append("]=");
                out.append(signed_context.context[i].as_str());
                i = i + 1;
                assert(out@ =~= head + compact_context_lines(signed_context.context@, i as nat));
            }
            CouponOutput::Text(out)
        },
        OutputMode::Hex => CouponOutput::Text(signed_context.signature.clone()),
        OutputMode::Json => CouponOutput::Json,
        OutputMode::Ui => {
            let mut out = signed_context.signer.clone();
            out.append(",");
            out.append(signed_context.signature.as_str());
            let ghost head = out@;
            if context.len() == 0 {
                out.append(",");
                return CouponOutput::Text(out);
            }
            let mut i: usize = 0;
            while i < context.len()
                invariant
                    i <= context@.len(),
                    out@ == head + decimal_fields(values_of(context@), i as nat),
                decreases context@.len() - i,
            {
                let number = to_decimal(context[i]);
                out.append(",");
                out.append(number.as_str());
                i = i + 1;
                assert(out@ =~= head + decimal_fields(values_of(context@), i as nat));
            }
            CouponOutput::Text(out)
        },
    }
}

/// What a coupon is made of, once every text is read.
pub ghost struct CouponPlan {
    pub key: Seq<u8>,
    pub recipient: Seq<u8>,
    pub amount: nat,
    pub expiry: u64,
    pub nonce: u64,
    pub values: Seq<nat>,
}

/// What comes of a request for a coupon at the time `now`: the plan of the
/// coupon, or the first error in the order key, recipient, order hash,
/// order owner, orderbook, token, vault id, amount, expiry.
pub open spec fn coupon_plan(
    private_key: Seq<char>,
    amount: Seq<char>,
    recipient: Seq<char>,
    ctx: SignerContext,
    now: u64,
) -> Result<CouponPlan, SignerError> {
    if signing_key_of(private_key).is_none() {
        Err(SignerError::InvalidPrivateKey)
    } else if fixed_hex(recipient, 20).is_none() {
        Err(SignerError::InvalidRecipient)
    } else if fixed_hex(ctx.order_hash@, 32).is_none() {
        Err(SignerError::InvalidOrderHash)
    } else if fixed_hex(ctx.order_owner@, 20).is_none() {
        Err(SignerError::InvalidOrderOwner)
    } else if fixed_hex(ctx.orderbook@, 20).is_none() {
        Err(SignerError::InvalidOrderbook)
    } else if fixed_hex(ctx.token@, 20).is_none() {
        Err(SignerError::InvalidToken)
    } else if u256_from_text(ctx.vault_id@).is_none() {
        Err(SignerError::InvalidVaultId)
    } else {
        match parse_amount_spec(amount) {
            Err(e) => Err(SignerError::Amount(e)),
            Ok(value) => if now + ctx.expiry_seconds > u64::MAX {
                Err(SignerError::ExpiryOverflow)
            } else {
                let expiry = (now + ctx.expiry_seconds) as u64;
                let nonce = match ctx.nonce {
                    Some(n) => n,
                    None => now,
                };
                Ok(
                    CouponPlan {
                        key: signing_key_of(private_key).unwrap(),
                        recipient: fixed_hex(recipient, 20).unwrap(),
                        amount: value,
                        expiry,
                        nonce,
                        values: context_values(
                            fixed_hex(recipient, 20).unwrap(),
                            value,
                            expiry,
                            fixed_hex(ctx.order_hash@, 32).unwrap(),
                            fixed_hex(ctx.order_owner@, 20).unwrap(),
                            fixed_hex(ctx.orderbook@, 20).unwrap(),
                            fixed_hex(ctx.token@, 20).unwrap(),
                            u256_from_text(ctx.vault_id@).unwrap(),
                            nonce,
                        ),
                    },
                )
            },
        }
    }
}

/// Whether `coupon` is the coupon of the plan `plan` for the amount text
/// `amount`: the plan's digest has a signature, the signed context holds
/// the address of the key, the context words and that signature, and the
/// coupon holds recipient, amounts, expiry and nonce of the plan.
pub open spec fn is_issued_coupon(coupon: ClaimCoupon, plan: CouponPlan, amount: Seq<char>) -> bool {
    &&& signature_of(plan.key, context_digest(plan.values)).is_some()
    &&& ({
        let sig = signature_of(plan.key, context_digest(plan.values)).unwrap();
        is_signed_context(
            coupon.signed_context,
            address_of_key(plan.key),
            plan.values,
            sig.0,
            sig.1,
            sig.2,
        )
    })
    &&& coupon.recipient@ == prefixed_hex(plan.recipient)
    &&& coupon.amount@ == amount
    &&& coupon.amount_wei@ == decimal_text(plan.amount)
    &&& coupon.expiry == plan.expiry
    &&& coupon.nonce == plan.nonce
}

/// Whether `error` is why no coupon comes of a request: the error of the
/// plan where it has one, and a failed signing where the plan's digest has
/// no signature.
pub open spec fn is_coupon_error(error: SignerError, plan: Result<CouponPlan, SignerError>) -> bool {
    match plan {
        Err(planned) => error == planned,
        Ok(plan) => error == SignerError::SigningFailed && signature_of(
            plan.key,
            context_digest(plan.values),
        ).is_none(),
    }
}

/// Two coupons that are issued for one request hold the same texts: the
/// same signer, the same context words and the same signature, and the
/// same recipient, amounts, expiry and nonce. Signing is a function of the
/// key and the digest, so whatever recovers a signer from the one signature
/// recovers it from the other.
pub proof fn lemma_same_request_same_coupon(
    first: ClaimCoupon,
    second: ClaimCoupon,
    plan: CouponPlan,
    amount: Seq<char>,
)
    requires
        is_issued_coupon(first, plan, amount),
        is_issued_coupon(second, plan, amount),
    ensures
        same_signed_context(first.signed_context, second.signed_context),
        first.recipient@ == second.recipient@,
        first.amount@ == second.amount@,
        first.amount_wei@ == second.amount_wei@,
        first.expiry == second.expiry,
        first.nonce == second.nonce,
{
    let a = first.signed_context;
    let b = second.signed_context;
    assert forall|i: int| 0 <= i < a.context@.len() implies (#[trigger] a.context@[i])@
        == b.context@[i]@ by {
        assert(a.context@[i]@ == prefixed_hex(be_bytes32(plan.values[i])));
        assert(b.context@[i]@ == prefixed_hex(be_bytes32(plan.values[i])));
    }
}

/// Issues a coupon: reads key, addresses, hash, vault id and amount,
/// builds the context, signs it, and renders the result.
///
/// The coupon expires `ctx.expiry_seconds` after `now`, and its nonce is
/// `ctx.nonce` or, without one, `now`. Every text is read before anything is
/// signed: the first one that cannot be read is the error, and no coupon
/// comes out.
pub fn generate_coupon_with_context(
    private_key: &str,
    amount: &str,
    recipient: &str,
    ctx: &SignerContext,
    now: u64,
) -> (r: Result<(ClaimCoupon, CouponOutput), SignerError>)
    ensures
        match r {
            Ok((coupon, output)) => {
                let plan = coupon_plan(private_key@, amount@, recipient@, *ctx, now);
                &&& plan.is_ok()
                &&& is_issued_coupon(coupon, plan.unwrap(), amount@)
                &&& is_output_for(
                    output,
                    coupon.signed_context,
                    plan.unwrap().values,
                    OutputMode::of(ctx.output@),
                )
            },
            Err(e) => is_coupon_error(e, coupon_plan(private_key@, amount@, recipient@, *ctx, now)),
        },
{
    let key = match parse_signing_key(private_key) {
        Some(k) => k,
        None => {
            return Err(SignerError::InvalidPrivateKey);
        },
    };
    let signer = match signer_address(&key) {
        Some(a) => a,
        None => {
            return Err(SignerError::InvalidPrivateKey);
        },
    };
    let recipient_address = match parse_address(recipient) {
        Some(a) => a,
        None => {
            return Err(SignerError::InvalidRecipient);
        },
    };
    let order_hash = match parse_b256(ctx.order_hash.as_str()) {
        Some(h) => h,
        None => {
            return Err(SignerError::InvalidOrderHash);
        },
    };
    let order_owner = match parse_address(ctx.order_owner.as_str()) {
        Some(a) => a,
        None => {
            return Err(SignerError::InvalidOrderOwner);
        },
    };
    let orderbook = match parse_address(ctx.orderbook.as_str()) {
        Some(a) => a,
        None => {
            return Err(SignerError::InvalidOrderbook);
        },
    };
    let token = match parse_address(ctx.token.as_str()) {
        Some(a) => a,
        None => {
            return Err(SignerError::InvalidToken);
        },
    };
    let vault_id = match parse_u256(ctx.vault_id.as_str()) {
        Some(v) => v,
        None => {
            return Err(SignerError::InvalidVaultId);
        },
    };
    let value = match parse_amount(amount) {
        Ok(v) => v,
        Err(e) => {
            return Err(SignerError::Amount(e));
        },
    };
    if ctx.expiry_seconds > u64::MAX - now {
        return Err(SignerError::ExpiryOverflow);
    }
    let expiry = now + ctx.expiry_seconds;
    let nonce = match ctx.nonce {
        Some(n) => n,
        None => now,
    };
    let context = build_context(
        &recipient_address,
        value,
        expiry,
        &order_hash,
        &order_owner,
        &orderbook,
        &token,
        vault_id,
        nonce,
    );
    let (signed_context, coupon) = match sign_and_build_coupon(
        &key,
        &signer,
        amount,
        value,
        &recipient_address,
        &context,
        expiry,
        nonce,
    ) {
        Ok(pair) => pair,
        Err(e) => {
            return Err(e);
        },
    };
    let output = format_output(&context, &coupon.signed_context, ctx.output.as_str());
    Ok((coupon, output))
}

} // verus!
