use ech_board::board::{absorb_chunk, next_chunk, next_cursor, page_key, page_start};
use ech_board::cache::{address_bytes, is_registry_type, is_shard_type, shard_index_of, RegistryCache, ShardSet, ShardsCache};
use ech_board::codec::address_to_string;
use ech_board::error::RelayError;
use ech_board::intent::IntentObject;
use ech_board::keys::{parse_admin_key, SponsorService};
use ech_board::media::{contains_rarjpeg, needs_shrink, validate, FileType};
use ech_board::moderation::{
    ban_active, ban_levels, decrypt_message, identity_hashes, is_authorized, le_bytes_of, shard_index, BanLevel,
};
use ech_board::requests::{compute_trip, ip32_mac_message, trip_response, uid_mask_message};
use ech_board::send::{
    captcha_token, check_media_count, check_media_pairs, check_text_presence, check_topic, check_tx_size,
    deepest_level, geo_answer, payload_kind, plan_transaction, request_ip, tripcode_answer, verify_hash,
    verify_plaintext, PayloadKind, PlannedInput, SealedIntent,
};
use ech_board::config::SponsorConfig;
use ech_board::tripcode::{tripcode, vichan_salt};

fn base64_std_encode(data: &[u8]) -> String {
    <base64::engine::general_purpose::GeneralPurpose as base64::Engine>::encode(
        &base64::engine::general_purpose::STANDARD,
        data,
    )
}

fn blake2b256(data: &[u8]) -> [u8; 32] {
    <blake2::Blake2b<blake2::digest::consts::U32> as blake2::Digest>::digest(data).into()
}

fn ed25519_verify(pk: &[u8; 32], msg: &[u8], sig: &[u8; 64]) -> bool {
    let key = ed25519_dalek::VerifyingKey::from_bytes(pk).unwrap();
    key.verify_strict(msg, &ed25519_dalek::Signature::from_bytes(sig)).is_ok()
}

fn build(e: &RelayError) -> String {
    match e {
        RelayError::SponsorBuild(s) | RelayError::SponsorConfig(s) | RelayError::GraphqlResponse(s) => s.clone(),
        other => format!("{other:?}"),
    }
}

fn item(objects: Vec<([u8; 32], bool)>, intent_bytes: Vec<u8>) -> SealedIntent {
    SealedIntent {
        module: "main".into(),
        function: "post_apply_intent_uid".into(),
        objects: objects.into_iter().map(|(id, mutable)| IntentObject { id, mutable }).collect(),
        intent_bytes,
        signature: vec![5; 64],
        sealed: vec![1, 2, 3],
    }
}

#[test]
fn payload_kinds() {
    assert_eq!(payload_kind("forum_apply_intent_uid", "new_board"), Some(PayloadKind::NewBoard));
    assert_eq!(payload_kind("board_apply_intent_uid_geo_captcha", "new_thread_v2"), Some(PayloadKind::NewThread));
    assert_eq!(payload_kind("board_apply_thread_intent_uid_captcha", "new_post_v2"), Some(PayloadKind::NewPost));
    assert_eq!(payload_kind("board_apply_post_intent_uid", "ban"), Some(PayloadKind::Ban));
    assert_eq!(payload_kind("board_apply_post_intent_uid", "unban"), None);
    assert_eq!(payload_kind("board_apply_intent_uid", "new_thread_v2"), None);
}

#[test]
fn content_checks() {
    assert_eq!(build(&check_media_count(3, 2).unwrap_err()), "media count 3 exceeds board max_media 2");
    assert!(check_media_count(2, 2).is_ok());
    assert_eq!(check_text_presence(true, Some(5), 5).unwrap(), true);
    assert_eq!(check_text_presence(false, None, 5).unwrap(), false);
    assert_eq!(build(&check_text_presence(true, Some(10), 5).unwrap_err()), "text size 10 exceeds max 5");
    assert_eq!(
        build(&check_text_presence(true, None, 5).unwrap_err()),
        "text_hash present but no text content provided"
    );
    assert_eq!(
        build(&check_text_presence(false, Some(1), 5).unwrap_err()),
        "text provided but intent text_hash is None"
    );
    assert_eq!(build(&check_media_pairs(1, 2).unwrap_err()), "media count mismatch: 1 blobs vs 2 hashes");
    assert!(check_topic(Some(&"a".repeat(150))).is_ok());
    assert_eq!(build(&check_topic(Some(&"a".repeat(151))).unwrap_err()), "topic exceeds 150 chars");
    assert_eq!(
        build(&check_tx_size(131073).unwrap_err()),
        "batch too large: 131073 bytes > 131072, reduce chunk size"
    );
    assert!(check_tx_size(131072).is_ok());
}

#[test]
fn plaintext_hashes() {
    let hash = blake2b256(b"name");
    assert!(verify_hash(&hash, b"name").is_ok());
    assert_eq!(build(&verify_hash(&hash, b"other").unwrap_err()), "content hash mismatch");
    assert_eq!(verify_plaintext(Some(hash), Some("name")).unwrap(), true);
    assert_eq!(verify_plaintext(None, None).unwrap(), false);
    assert_eq!(
        build(&verify_plaintext(Some(hash), None).unwrap_err()),
        "plaintext hash present but no content provided"
    );
    assert_eq!(
        build(&verify_plaintext(None, Some("x")).unwrap_err()),
        "plaintext provided but intent hash is None"
    );
}

#[test]
fn request_answers() {
    assert_eq!(request_ip("10.1.2.3").unwrap(), 0x0A01_0203);
    assert_eq!(build(&request_ip("::1").unwrap_err()), "invalid ipv4: invalid IPv4 address syntax");
    assert_eq!(build(&tripcode_answer(None, "k").unwrap_err()), "tripcode requested but not provided");
    assert_eq!(build(&tripcode_answer(Some("plain"), "k").unwrap_err()), "tripcode must start with # or ##");
    let answer = tripcode_answer(Some("#pass"), "k").unwrap();
    assert_eq!(answer[0], 0);
    assert_eq!(answer[1], 10);
    assert_eq!(answer.len(), 12);
    assert_eq!(geo_answer(Some(840)), vec![0x48, 0x03, 0, 0]);
    assert_eq!(geo_answer(None), vec![0, 0, 0, 0]);
    assert_eq!(captcha_token(Some("t")).unwrap(), "t");
    assert_eq!(build(&captcha_token(None).unwrap_err()), "captcha requested but not provided");
    assert_eq!(uid_mask_message(0xC0A8_010A, 0), vec![32, 0xC0, 0xA8, 0x01, 0x0A]);
    assert_eq!(uid_mask_message(0xC0A8_010A, 1), vec![24, 0xC0, 0xA8, 0x01, 0x00]);
    assert_eq!(uid_mask_message(0xC0A8_01FA, 2), vec![20, 0xC0, 0xA8, 0x00, 0x00]);
    assert_eq!(uid_mask_message(0xC0A8_010A, 3), vec![16, 0xC0, 0xA8, 0x00, 0x00]);
    let mut expected = vec![1u8; 32];
    expected.extend_from_slice(&[1, 2, 3, 4]);
    assert_eq!(ip32_mac_message(&[1u8; 32], 0x0102_0304), expected);
    assert_eq!(trip_response(true, "abc").unwrap(), vec![1, 3, b'a', b'b', b'c']);
}

#[test]
fn tripcodes() {
    let t = tripcode("pass").unwrap();
    assert_eq!(t.len(), 10);
    assert_eq!(t, tripcode("pass").unwrap());
    assert_ne!(t, tripcode("pass2").unwrap());
    assert_eq!(vichan_salt("a"), "H.");
    assert_eq!(vichan_salt("abc"), "bc");
    assert_eq!(compute_trip("nothing", "k").unwrap(), None);
    let (secured, secure) = compute_trip("##pass", "key").unwrap().unwrap();
    assert!(secured);
    assert_eq!(secure.len(), 10);
    let (classic, _) = compute_trip("#pass", "key").unwrap().unwrap();
    assert!(!classic);
}

#[test]
fn transaction_plan_shares_objects() {
    let x = [1u8; 32];
    let y = [2u8; 32];
    let items = vec![item(vec![(x, true), (y, false)], vec![9, 9]), item(vec![(x, true), (x, false)], vec![8])];
    let plan = plan_transaction(&items, [7u8; 32], [6u8; 32], 1000, 100).unwrap();
    assert_eq!(plan.gas_budget, 200);
    assert_eq!(plan.package, [7u8; 32]);
    assert_eq!(plan.sender, [6u8; 32]);
    assert_eq!(plan.gas_owner, [6u8; 32]);
    assert_eq!(plan.gas_price, 1000);
    assert_eq!(plan.inputs.len(), 3 + 6);
    assert!(matches!(plan.inputs[0], PlannedInput::Object(id, true) if id == x));
    assert!(matches!(plan.inputs[1], PlannedInput::Object(id, false) if id == y));
    assert!(matches!(plan.inputs[2], PlannedInput::Object(id, false) if id == x));
    match &plan.inputs[3] {
        PlannedInput::Pure(b) => assert_eq!(b, &vec![2, 9, 9]),
        other => panic!("{other:?}"),
    }
    match &plan.inputs[5] {
        PlannedInput::Pure(b) => assert_eq!(b, &vec![1, 2, 3]),
        other => panic!("{other:?}"),
    }
    assert_eq!(plan.calls[0].arguments, vec![3, 4, 5, 0, 1]);
    assert_eq!(plan.calls[1].arguments, vec![6, 7, 8, 0, 2]);
    assert_eq!(plan.calls[1].function, "post_apply_intent_uid");
    assert_eq!(plan_transaction(&items, [7u8; 32], [6u8; 32], 1000, u64::MAX).unwrap().gas_budget, u64::MAX);
}

#[test]
fn reveal_levels() {
    assert_eq!(deepest_level(1), BanLevel::Forum);
    assert_eq!(deepest_level(2), BanLevel::Board);
    assert_eq!(deepest_level(4), BanLevel::Thread);
}

#[test]
fn moderation_helpers() {
    assert_eq!(le_bytes_of(0x0102), vec![2, 1, 0, 0, 0, 0, 0, 0]);
    assert_eq!(ban_levels(Some(true), true), vec![BanLevel::Board, BanLevel::Thread]);
    assert_eq!(ban_levels(Some(false), false), vec![BanLevel::Forum, BanLevel::Board]);
    assert_eq!(ban_levels(None, false), vec![BanLevel::Forum]);
    assert!(ban_active(10, 9));
    assert!(!ban_active(9, 9));
    assert_eq!(build(&decrypt_message(&[1, 2], &[], &[0u8; 32]).unwrap_err()), "path must have 1-4 addresses");
    let msg = decrypt_message(&[1, 2], &[[3u8; 32]], &[4u8; 32]).unwrap();
    assert_eq!(msg.len(), 2 + 32 + 32);
    assert_eq!(&msg[..2], &[1, 2]);
    assert_eq!(msg[2], 3);
    assert_eq!(msg[34], 4);
    let who = [7u8; 32];
    assert!(is_authorized(&[false, true], &[0u8; 32], None, &who));
    assert!(is_authorized(&[false], &who, None, &who));
    assert!(is_authorized(&[], &[0u8; 32], Some(who), &who));
    assert!(!is_authorized(&[false, false], &[0u8; 32], Some([1u8; 32]), &who));
    assert!(shard_index(&who) < 512);
    let h = identity_hashes(&[[1u8; 32]; 4], &[[2u8; 32]; 4]);
    assert_eq!(h.len(), 128);
    let mut first = vec![1u8; 32];
    first.push(32);
    first.extend_from_slice(&[2u8; 32]);
    assert_eq!(&h[..32], &blake2b256(&first)[..]);
}

#[test]
fn admin_keys() {
    assert_eq!(parse_admin_key(&"07".repeat(32)).unwrap(), [7u8; 32]);
    let mut raw = vec![0u8];
    raw.extend_from_slice(&[9u8; 32]);
    let b64 = base64_std_encode(&raw);
    assert_eq!(parse_admin_key(&b64).unwrap(), [9u8; 32]);
    assert_eq!(
        build(&parse_admin_key(&base64_std_encode(&[1, 2, 3])).unwrap_err()),
        "admin key must be 33-byte base64 or 64-char hex"
    );
    assert!(build(&parse_admin_key("!!").unwrap_err()).starts_with("admin key base64: "));
}

#[test]
fn sponsor_keys() {
    let mut raw = vec![0u8];
    raw.extend_from_slice(&[9u8; 32]);
    let cfg = SponsorConfig { private_key_base64: base64_std_encode(&raw), gas_budget: 1, gas_price: 1 };
    let sponsor = SponsorService::new(&cfg).unwrap();
    let pk = sponsor.sponsor_public_key();
    let sig = sponsor.sign(b"digest");
    assert!(ed25519_verify(&pk, b"digest", &sig));
    assert!(!ed25519_verify(&pk, b"other", &sig));
    let mut flagged = vec![0u8];
    flagged.extend_from_slice(&pk);
    assert_eq!(sponsor.sponsor_address(), blake2b256(&flagged));

    let mut wrong = vec![1u8];
    wrong.extend_from_slice(&[9u8; 32]);
    let cfg = SponsorConfig { private_key_base64: base64_std_encode(&wrong), gas_budget: 1, gas_price: 1 };
    assert_eq!(build(&SponsorService::new(&cfg).unwrap_err()), "sponsor key scheme must be ed25519");
    let cfg = SponsorConfig { private_key_base64: base64_std_encode(&[0u8; 32]), gas_budget: 1, gas_price: 1 };
    assert_eq!(
        build(&SponsorService::new(&cfg).unwrap_err()),
        "sponsor key must be 33 bytes (scheme flag + 32-byte secret)"
    );
    let cfg = SponsorConfig { private_key_base64: "%%".into(), gas_budget: 1, gas_price: 1 };
    assert!(build(&SponsorService::new(&cfg).unwrap_err()).starts_with("invalid sponsor key base64: "));
}

#[test]
fn media_formats() {
    assert_eq!(FileType::detect(&[0xff, 0xd8, 0xff, 0xe0]), Some(FileType::Jpeg));
    assert_eq!(FileType::detect(&[0x89, b'P', b'N', b'G', 0x0d, 0x0a, 0x1a, 0x0a]), Some(FileType::Png));
    assert_eq!(FileType::detect(b"RIFF\0\0\0\0WEBPVP8 "), Some(FileType::WebP));
    assert_eq!(FileType::detect(b"\0\0\0\x18ftypisom"), Some(FileType::Mp4));
    assert_eq!(FileType::detect(&[0x1a, 0x45, 0xdf, 0xa3, 0]), Some(FileType::WebM));
    assert_eq!(FileType::detect(b"GIF89a"), None);
    assert_eq!(FileType::Png.mime(), "image/png");
    assert_eq!(build(&validate(b"GIF89a").unwrap_err()), "unsupported media format");
    let mut hidden = vec![0xff, 0xd8, 0xff, 0xe0, 0, 0];
    hidden.extend_from_slice(b"Rar!\x1a\x07\x00");
    assert!(contains_rarjpeg(&hidden));
    assert_eq!(build(&validate(&hidden).unwrap_err()), "rarjpeg rejected");
    assert_eq!(validate(&[0xff, 0xd8, 0xff, 0xe0]).unwrap(), FileType::Jpeg);
    let mut webm = vec![0x1a, 0x45, 0xdf, 0xa3];
    webm.extend_from_slice(b"Rar!\x1a\x07");
    assert!(!contains_rarjpeg(&webm));
    assert!(needs_shrink(221, 10));
    assert!(!needs_shrink(220, 220));
}

#[test]
fn board_pages() {
    let a = [1u8; 32];
    let b = [2u8; 32];
    let c = [3u8; 32];
    let d = [4u8; 32];
    let mut sel = page_start(&[a, a, b], None, 10);
    assert_eq!(sel.threads, vec![a, b]);
    assert_eq!(sel.next, 11);
    assert_eq!(next_chunk(&sel), Some((1, 11)));
    absorb_chunk(&mut sel, 1, &[c, a, d]);
    assert_eq!(sel.threads, vec![a, b, d, c]);
    assert_eq!(sel.next, 1);
    assert_eq!(next_chunk(&sel), None);
    assert_eq!(next_cursor(sel.next), None);
    let sel = page_start(&[], Some(600), 1000);
    assert_eq!(sel.next, 600);
    assert_eq!(next_chunk(&sel), Some((100, 600)));
    assert_eq!(page_start(&[], Some(5000), 1000).next, 1001);
    assert_eq!(next_cursor(42), Some(42));
    assert_eq!(page_key(&[0u8; 32], 5, 2, None), format!("v:board:0x{}:5:2:0", "0".repeat(64)));
}

#[test]
fn board_page_fills_up() {
    let threads: Vec<[u8; 32]> = (0..30u8).map(|i| [i; 32]).collect();
    let mut sel = page_start(&[], None, 30);
    absorb_chunk(&mut sel, 1, &threads);
    assert_eq!(sel.threads.len(), 20);
    assert_eq!(sel.threads[0], [29u8; 32]);
    assert_eq!(sel.next, 11);
    assert_eq!(next_chunk(&sel), None);
    assert_eq!(next_cursor(sel.next), Some(11));
}

#[test]
fn caches_give_back_what_was_stored() {
    let mut reg = RegistryCache::new();
    assert_eq!(reg.get(), None);
    reg.set(vec![1, 2]);
    assert_eq!(reg.get(), Some(vec![1, 2]));
    let mut shards = ShardsCache::new();
    assert_eq!(shards.get("p"), None);
    shards.set("p".into(), vec![1]);
    shards.set("q".into(), vec![2]);
    shards.set("p".into(), vec![3]);
    assert_eq!(shards.get("p"), Some(vec![3]));
    assert_eq!(shards.get("q"), Some(vec![2]));
    let mut set = ShardSet::new();
    set.insert(5, vec![5]);
    set.insert(1, vec![1]);
    set.insert(3, vec![3]);
    set.insert(1, vec![11]);
    assert_eq!(set.into_values(), vec![vec![11], vec![3], vec![5]]);
}

#[test]
fn indexer_addresses() {
    assert_eq!(address_bytes("0x0a0B").unwrap(), vec![10, 11]);
    assert_eq!(address_bytes("0x0x0a").unwrap(), vec![10]);
    assert!(matches!(address_bytes("0xzz").unwrap_err(), RelayError::GraphqlResponse(_)));
    assert!(is_registry_type("forum", "BoardSlugRegistry"));
    assert!(!is_registry_type("nonce", "BoardSlugRegistry"));
    assert!(is_shard_type("nonce", "NonceGateShard"));
    assert_eq!(shard_index_of(Some("17")), 17);
    assert_eq!(shard_index_of(Some("x")), 0);
    assert_eq!(shard_index_of(None), 0);
    assert_eq!(address_to_string(&[0xabu8; 32]), format!("0x{}", "ab".repeat(32)));
}

#[test]
fn sealed_answers() {
    let mut raw = vec![0u8];
    raw.extend_from_slice(&[7u8; 32]);
    let cfg = SponsorConfig { private_key_base64: base64_std_encode(&raw), gas_budget: 1, gas_price: 1 };
    let sponsor = SponsorService::new(&cfg).unwrap();
    let sealed = ech_board::send::seal_responses(&sponsor, &[1, 2, 3], &[9, 9]);
    assert_eq!(sealed.len(), 1 + 64 + 32 + 2);
    assert_eq!(sealed[0], 64);
    let mut sig = [0u8; 64];
    sig.copy_from_slice(&sealed[1..65]);
    assert_eq!(&sealed[65..97], &sponsor.sponsor_public_key()[..]);
    assert_eq!(&sealed[97..], &[9, 9]);
    let digest = blake2b256(&[1, 2, 3, 9, 9]);
    assert!(ed25519_verify(&sponsor.sponsor_public_key(), &digest, &sig));
    assert_eq!(sponsor.sign_blake2b(&[1, 2, 3, 9, 9]), sig);
}

#[test]
fn reveal_requests_are_signed() {
    let key = ed25519_dalek::SigningKey::from_bytes(&[5u8; 32]);
    let pk = key.verifying_key().to_bytes();
    let uid = vec![1u8, 2, 3];
    let path = [[7u8; 32], [8u8; 32]];
    let mut msg = uid.clone();
    msg.extend_from_slice(&[7u8; 32]);
    msg.extend_from_slice(&[8u8; 32]);
    msg.extend_from_slice(&pk);
    let sig = ed25519_dalek::Signer::<ed25519_dalek::Signature>::sign(&key, &blake2b256(&msg)).to_bytes();
    assert!(ech_board::send::verify_reveal(&uid, &path, &pk, &sig).is_ok());
    let mut bad = sig;
    bad[0] ^= 1;
    assert!(build(&ech_board::send::verify_reveal(&uid, &path, &pk, &bad).unwrap_err())
        .starts_with("signature verification: "));
    assert!(build(&ech_board::send::verify_reveal(&uid, &path, &pk, &sig[..10]).unwrap_err())
        .starts_with("invalid signature: "));
    assert_eq!(
        build(&ech_board::send::verify_reveal(&uid, &[], &pk, &sig).unwrap_err()),
        "path must have 1-4 addresses"
    );
    let not_a_point = (0u8..=255)
        .map(|b| [b; 32])
        .find(|k| ed25519_dalek::VerifyingKey::from_bytes(k).is_err())
        .unwrap();
    assert!(build(&ech_board::send::verify_reveal(&uid, &path, &not_a_point, &sig).unwrap_err())
        .starts_with("invalid pk: "));
}
