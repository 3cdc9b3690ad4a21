use alloy::primitives::{keccak256, PrimitiveSignature};
use lock_bridge::amount::AmountError;
use lock_bridge::primitives::{Address, B256};
use lock_bridge::signer::{
    build_context, digest_context, encode_signature, format_output, generate_coupon_with_context,
    pack_context, sign_and_build_coupon, ClaimCoupon, CouponOutput, OutputMode, Signature,
    SignedContext, SignerContext, SignerError, SigningKey,
};
use lock_bridge::uint::U256;
use lock_bridge::withdrawer::WithdrawerArgs;

const KEY_ONE: &str = "0x0000000000000000000000000000000000000000000000000000000000000001";
const ADDRESS_OF_KEY_ONE: &str = "0x7e5f4552091a69125d5dfcb7b8c2659029395bdf";
const RECIPIENT: &str = "0x00000000000000000000000000000000000000a1";

fn context(output: &str, nonce: Option<u64>) -> SignerContext {
    SignerContext {
        order_hash: format!("0x{}", "0f".repeat(32)),
        order_owner: "0x00000000000000000000000000000000000000b2".to_string(),
        orderbook: "0x00000000000000000000000000000000000000c3".to_string(),
        token: "0x00000000000000000000000000000000000000d4".to_string(),
        vault_id: "77".to_string(),
        expiry_seconds: 604800,
        nonce,
        output: output.to_string(),
    }
}

fn issue(output: &str) -> (ClaimCoupon, CouponOutput) {
    generate_coupon_with_context(KEY_ONE, "1.5", RECIPIENT, &context(output, Some(9)), 1_700_000_000)
        .unwrap()
}

fn word(hex_byte: &str) -> String {
    format!("0x{}{}", "00".repeat(31), hex_byte)
}

#[test]
fn coupon_holds_the_nine_words_in_order() {
    let (coupon, _) = issue("ui");
    assert_eq!(coupon.recipient, RECIPIENT);
    assert_eq!(coupon.amount, "1.5");
    assert_eq!(coupon.amount_wei, "1500000000000000000");
    assert_eq!(coupon.expiry, 1_700_604_800);
    assert_eq!(coupon.nonce, 9);
    let signed = &coupon.signed_context;
    assert_eq!(signed.signer, ADDRESS_OF_KEY_ONE);
    assert_eq!(signed.context.len(), 9);
    assert_eq!(signed.context[0], word("a1"));
    assert_eq!(
        signed.context[1],
        "0x00000000000000000000000000000000000000000000000014d1120d7b160000"
    );
    assert_eq!(
        signed.context[2],
        "0x00000000000000000000000000000000000000000000000000000000655d2b80"
    );
    assert_eq!(signed.context[3], format!("0x{}", "0f".repeat(32)));
    assert_eq!(signed.context[4], word("b2"));
    assert_eq!(signed.context[5], word("c3"));
    assert_eq!(signed.context[6], word("d4"));
    assert_eq!(signed.context[7], word("4d"));
    assert_eq!(signed.context[8], word("09"));
    assert_eq!(signed.signature.len(), 2 + 130);
    assert!(signed.signature.ends_with("1b") || signed.signature.ends_with("1c"));
}

#[test]
fn signing_twice_gives_signatures_that_recover_to_the_signer() {
    let (first, _) = issue("ui");
    let (second, _) = issue("ui");
    assert_eq!(first, second);
    for coupon in [first, second] {
        let signed = coupon.signed_context;
        let mut packed = Vec::new();
        for w in &signed.context {
            packed.extend(hex::decode(&w[2..]).unwrap());
        }
        assert_eq!(packed.len(), 9 * 32);
        let inner = keccak256(&packed);
        let raw = hex::decode(&signed.signature[2..]).unwrap();
        assert_eq!(raw.len(), 65);
        assert!(raw[64] == 27 || raw[64] == 28);
        let signature = PrimitiveSignature::from_raw(&raw).unwrap();
        let recovered = signature.recover_address_from_msg(inner.as_slice()).unwrap();
        assert_eq!(format!("{:?}", recovered), signed.signer);
        assert_eq!(signed.signer, ADDRESS_OF_KEY_ONE);
    }
}

#[test]
fn digest_is_the_prefixed_hash_of_the_packed_words() {
    let words = vec![U256::from_u64(1), U256::from_u64(0x0102)];
    let packed = pack_context(&words);
    let mut expected = vec![0u8; 64];
    expected[31] = 1;
    expected[62] = 1;
    expected[63] = 2;
    assert_eq!(packed, expected);
    let inner = keccak256(&packed);
    let mut message = b"\x19Ethereum Signed Message:\n32".to_vec();
    message.extend_from_slice(inner.as_slice());
    assert_eq!(digest_context(&words).bytes, keccak256(&message).0);
    assert_ne!(digest_context(&words).bytes, inner.0);
    // the hash of no words at all is a known value
    assert_eq!(
        hex::encode(keccak256(pack_context(&Vec::new()))),
        "c5d2460186f7233c927e7db2dcc703c0e500b653ca82273b7bfad8045d85a470"
    );
}

#[test]
fn context_pads_addresses_on_the_left() {
    let mut recipient = [0u8; 20];
    recipient[0] = 0x80;
    recipient[19] = 0x01;
    let words = build_context(
        &Address { bytes: recipient },
        U256::from_u64(5),
        6,
        &B256 { bytes: [0xff; 32] },
        &Address { bytes: [0; 20] },
        &Address { bytes: [0x11; 20] },
        &Address { bytes: [0x22; 20] },
        U256::from_u64(7),
        8,
    );
    assert_eq!(words.len(), 9);
    assert_eq!(
        words[0],
        U256 { w0: 1, w1: 0, w2: 0x8000_0000, w3: 0 }
    );
    assert_eq!(words[1], U256::from_u64(5));
    assert_eq!(words[2], U256::from_u64(6));
    assert_eq!(
        words[3],
        U256 { w0: u64::MAX, w1: u64::MAX, w2: u64::MAX, w3: u64::MAX }
    );
    assert_eq!(words[4], U256::zero());
    assert_eq!(
        words[5],
        U256 { w0: 0x1111_1111_1111_1111, w1: 0x1111_1111_1111_1111, w2: 0x1111_1111, w3: 0 }
    );
    assert_eq!(words[7], U256::from_u64(7));
    assert_eq!(words[8], U256::from_u64(8));
    let packed = pack_context(&words);
    assert_eq!(&packed[0..12], &[0u8; 12]);
    assert_eq!(&packed[12..32], &recipient);
}

#[test]
fn signature_is_r_then_s_then_27_or_28() {
    let low = Signature { r: U256::from_u64(1), s: U256::from_u64(2), v: false };
    let bytes = encode_signature(&low);
    assert_eq!(bytes.len(), 65);
    assert_eq!(bytes[31], 1);
    assert_eq!(bytes[63], 2);
    assert_eq!(bytes[64], 27);
    assert_eq!(bytes.iter().filter(|b| **b != 0).count(), 3);
    let high = Signature { v: true, ..low };
    assert_eq!(encode_signature(&high)[64], 28);
}

#[test]
fn renderings() {
    let (coupon, ui) = issue("ui");
    let signed = &coupon.signed_context;
    let numbers = "161,1500000000000000000,1700604800,\
6811299366900952671974763824040465167839410862684739061144563765171360567055,\
178,195,212,77,9";
    assert_eq!(
        ui,
        CouponOutput::Text(format!("{},{},{}", signed.signer, signed.signature, numbers))
    );
    // any other word asks for the same form
    assert_eq!(issue("").1, ui);
    assert_eq!(issue("JSON").1, ui);
    assert_eq!(issue("hex").1, CouponOutput::Text(signed.signature.clone()));
    assert_eq!(issue("json").1, CouponOutput::Json);
    let mut compact = format!("signer={}\nsignature={}", signed.signer, signed.signature);
    for (i, w) in signed.context.iter().enumerate() {
        compact.push_str(&format!("\ncontext[{}]={}", i, w));
    }
    assert_eq!(issue("compact").1, CouponOutput::Text(compact));
    assert_eq!(OutputMode::from_text("compact"), OutputMode::Compact);
    assert_eq!(OutputMode::from_text("hex"), OutputMode::Hex);
    assert_eq!(OutputMode::from_text("json"), OutputMode::Json);
    assert_eq!(OutputMode::from_text("ui"), OutputMode::Ui);
    assert_eq!(OutputMode::from_text("anything"), OutputMode::Ui);
}

#[test]
fn rendering_without_context_words() {
    let signed = SignedContext {
        signer: "0xaa".to_string(),
        context: Vec::new(),
        signature: "0xbb".to_string(),
    };
    assert_eq!(
        format_output(&Vec::new(), &signed, "ui"),
        CouponOutput::Text("0xaa,0xbb,".to_string())
    );
    assert_eq!(
        format_output(&Vec::new(), &signed, "compact"),
        CouponOutput::Text("signer=0xaa\nsignature=0xbb".to_string())
    );
}

#[test]
fn nonce_defaults_to_the_time_of_signing() {
    let (coupon, _) =
        generate_coupon_with_context(KEY_ONE, "10", RECIPIENT, &context("ui", None), 1_700_000_000)
            .unwrap();
    assert_eq!(coupon.nonce, 1_700_000_000);
    assert_eq!(coupon.expiry, 1_700_604_800);
    assert_eq!(coupon.amount, "10");
    assert_eq!(coupon.amount_wei, "10000000000000000000");
}

#[test]
fn every_text_is_read_before_anything_is_signed() {
    let now = 1_700_000_000;
    let good = context("ui", Some(1));
    let run = |key: &str, amount: &str, recipient: &str, ctx: &SignerContext, now: u64| {
        generate_coupon_with_context(key, amount, recipient, ctx, now).unwrap_err()
    };
    assert_eq!(run("", "1", RECIPIENT, &good, now), SignerError::InvalidPrivateKey);
    assert_eq!(run("0x1234", "1", RECIPIENT, &good, now), SignerError::InvalidPrivateKey);
    let zero = format!("0x{}", "00".repeat(32));
    assert_eq!(run(&zero, "1", RECIPIENT, &good, now), SignerError::InvalidPrivateKey);
    let order = "0xfffffffffffffffffffffffffffffffebaaedce6af48a03bbfd25e8cd0364141";
    assert_eq!(run(order, "1", RECIPIENT, &good, now), SignerError::InvalidPrivateKey);
    assert_eq!(run(KEY_ONE, "1", "0x12", &good, now), SignerError::InvalidRecipient);
    // the key is looked at first
    assert_eq!(run("", "x", "0x12", &good, now), SignerError::InvalidPrivateKey);
    let mut ctx = context("ui", Some(1));
    ctx.order_hash = "0x00".to_string();
    assert_eq!(run(KEY_ONE, "1", RECIPIENT, &ctx, now), SignerError::InvalidOrderHash);
    let mut ctx = context("ui", Some(1));
    ctx.order_owner = "owner".to_string();
    assert_eq!(run(KEY_ONE, "1", RECIPIENT, &ctx, now), SignerError::InvalidOrderOwner);
    let mut ctx = context("ui", Some(1));
    ctx.orderbook = String::new();
    assert_eq!(run(KEY_ONE, "1", RECIPIENT, &ctx, now), SignerError::InvalidOrderbook);
    let mut ctx = context("ui", Some(1));
    ctx.token = format!("0x{}", "11".repeat(21));
    assert_eq!(run(KEY_ONE, "1", RECIPIENT, &ctx, now), SignerError::InvalidToken);
    let mut ctx = context("ui", Some(1));
    ctx.vault_id = "-1".to_string();
    assert_eq!(run(KEY_ONE, "1", RECIPIENT, &ctx, now), SignerError::InvalidVaultId);
    assert_eq!(
        run(KEY_ONE, "1.2.3", RECIPIENT, &good, now),
        SignerError::Amount(AmountError::InvalidFormat)
    );
    assert_eq!(
        run(KEY_ONE, "abc", RECIPIENT, &good, now),
        SignerError::Amount(AmountError::InvalidAmount)
    );
    assert_eq!(run(KEY_ONE, "1", RECIPIENT, &good, u64::MAX), SignerError::ExpiryOverflow);
    assert_eq!(SignerError::InvalidPrivateKey.message(), "Invalid private key format");
    assert_eq!(SignerError::InvalidRecipient.message(), "Invalid recipient address");
    assert_eq!(SignerError::InvalidOrderHash.message(), "Invalid order hash");
    assert_eq!(SignerError::InvalidOrderOwner.message(), "Invalid order owner address");
    assert_eq!(SignerError::InvalidOrderbook.message(), "Invalid orderbook address");
    assert_eq!(SignerError::InvalidToken.message(), "Invalid token address");
    assert_eq!(SignerError::InvalidVaultId.message(), "Invalid vault ID");
    assert_eq!(
        SignerError::Amount(AmountError::TooManyDecimals).message(),
        "Too many decimal places (max 18)"
    );
}

#[test]
fn the_largest_key_below_the_order_signs() {
    let key = "fffffffffffffffffffffffffffffffebaaedce6af48a03bbfd25e8cd0364140";
    let r = generate_coupon_with_context(key, "1", RECIPIENT, &context("hex", Some(1)), 0);
    assert!(r.is_ok());
}

#[test]
fn sign_and_build_coupon_keeps_what_it_is_given() {
    let mut key = [0u8; 32];
    key[31] = 1;
    let signer = Address { bytes: [0x7e; 20] };
    let recipient = Address { bytes: [0xa1; 20] };
    let words = vec![U256::from_u64(3), U256::from_u64(4)];
    let (signed, coupon) = sign_and_build_coupon(
        &SigningKey { bytes: key },
        &signer,
        "0.000000000000000003",
        U256::from_u64(3),
        &recipient,
        &words,
        11,
        12,
    )
    .unwrap();
    assert_eq!(signed.signer, format!("0x{}", "7e".repeat(20)));
    assert_eq!(signed.context, vec![
        format!("0x{}03", "00".repeat(31)),
        format!("0x{}04", "00".repeat(31)),
    ]);
    assert_eq!(coupon.signed_context, signed);
    assert_eq!(coupon.recipient, format!("0x{}", "a1".repeat(20)));
    assert_eq!(coupon.amount, "0.000000000000000003");
    assert_eq!(coupon.amount_wei, "3");
    assert_eq!(coupon.expiry, 11);
    assert_eq!(coupon.nonce, 12);
}

#[test]
fn defaults_of_the_contexts() {
    let ctx = SignerContext::with_defaults(
        "h".to_string(),
        "o".to_string(),
        "b".to_string(),
        "t".to_string(),
        "v".to_string(),
        None,
        None,
        None,
    );
    assert_eq!(ctx.expiry_seconds, 604800);
    assert_eq!(ctx.nonce, None);
    assert_eq!(ctx.output, "ui");
    assert_eq!(ctx.order_hash, "h");
    let given = SignerContext::with_defaults(
        "h".to_string(),
        "o".to_string(),
        "b".to_string(),
        "t".to_string(),
        "v".to_string(),
        Some(60),
        Some(5),
        Some("json".to_string()),
    );
    assert_eq!(given.expiry_seconds, 60);
    assert_eq!(given.nonce, Some(5));
    assert_eq!(given.output, "json");
    let args = WithdrawerArgs::with_defaults(
        None,
        None,
        None,
        "dna".to_string(),
        "agent".to_string(),
        "ea".to_string(),
    );
    assert_eq!(args.admin_url, "127.0.0.1:8800");
    assert_eq!(args.app_url, "127.0.0.1:30000");
    assert_eq!(args.app_id, "bridging-app");
    let config = args.config();
    assert_eq!(config.dna_hash, "dna");
    assert_eq!(config.agent_pubkey, "agent");
    assert_eq!(config.admin_url, "127.0.0.1:8800");
}
