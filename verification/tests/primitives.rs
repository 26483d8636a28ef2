use silk::event::{get_signature, hash_event, sign_hash, transfer_hash, verify_event, Event};
use silk::hash::{extend_and_hash, hash, hash_eq, Sha256Hash};
use silk::signature::{
    generate_keypair, get_pubkey, keypair_from_drawn, verify_signature, Keypair,
};

fn unhex(text: &str) -> Vec<u8> {
    let digits: Vec<u8> = text
        .bytes()
        .map(|c| match c {
            b'0'..=b'9' => c - b'0',
            b'a'..=b'f' => c - b'a' + 10,
            _ => panic!("not a hex digit"),
        })
        .collect();
    digits.chunks(2).map(|pair| pair[0] * 16 + pair[1]).collect()
}

fn unhex32(text: &str) -> [u8; 32] {
    let mut out = [0u8; 32];
    out.copy_from_slice(&unhex(text));
    out
}

fn rfc8032_keypair() -> Keypair {
    Keypair::from_seed(unhex32(
        "9d61b19deffd5a60ba844af492ec2cc44449c5697b326919703bac031cae7f60",
    ))
}

#[test]
fn hash_of_empty_input() {
    assert_eq!(
        hash(b""),
        unhex32("e3b0c44298fc1c149afbf4c8996fb92427ae41e4649b934ca495991b7852b855")
    );
}

#[test]
fn hash_of_abc() {
    assert_eq!(
        hash(b"abc"),
        unhex32("ba7816bf8f01cfea414140de5dae2223b00361a396177a9cb410ff61f20015ad")
    );
}

#[test]
fn hash_of_zero_hash() {
    let zero = Sha256Hash::default();
    assert_eq!(zero, [0u8; 32]);
    assert_eq!(
        hash(&zero),
        unhex32("66687aadf862bd776c8fc18b8e9f8e20089714856ee233b3902a591d0d5f2925")
    );
}

#[test]
fn extend_and_hash_concatenates_hash_tag_and_value() {
    let start = hash(b"start");
    let mut bytes = start.to_vec();
    bytes.push(7);
    bytes.extend_from_slice(b"payload");
    assert_eq!(extend_and_hash(&start, 7, b"payload"), hash(&bytes));

    let mut bare = start.to_vec();
    bare.push(0);
    assert_eq!(extend_and_hash(&start, 0, b""), hash(&bare));
    assert_ne!(extend_and_hash(&start, 1, b"payload"), extend_and_hash(&start, 2, b"payload"));
}

#[test]
fn hash_event_tick_is_identity() {
    let start = hash(b"start");
    assert_eq!(hash_event(&start, &Event::Tick), start);
}

#[test]
fn hash_event_discovery_layout() {
    let start = hash(b"start");
    let data = hash(b"data");
    let mut bytes = start.to_vec();
    bytes.push(1);
    bytes.extend_from_slice(&data);
    assert_eq!(bytes.len(), 65);
    assert_eq!(hash_event(&start, &Event::Discovery { data }), hash(&bytes));
}

#[test]
fn hash_event_claim_layout() {
    let start = hash(b"start");
    let data = hash(b"data");
    let key = hash(b"key");
    let sig = [9u8; 64];
    let mut bytes = start.to_vec();
    bytes.push(2);
    bytes.extend_from_slice(&data);
    bytes.extend_from_slice(&sig);
    bytes.extend_from_slice(&key);
    assert_eq!(bytes.len(), 161);
    assert_eq!(hash_event(&start, &Event::Claim { key, data, sig }), hash(&bytes));
}

#[test]
fn hash_event_transaction_layout() {
    let start = hash(b"start");
    let data = hash(b"data");
    let from = hash(b"from");
    let to = hash(b"to");
    let sig = [9u8; 64];
    let mut bytes = start.to_vec();
    bytes.push(2);
    bytes.extend_from_slice(&data);
    bytes.extend_from_slice(&sig);
    bytes.extend_from_slice(&from);
    bytes.extend_from_slice(&to);
    assert_eq!(bytes.len(), 193);
    assert_eq!(
        hash_event(&start, &Event::Transaction { from, to, data, sig }),
        hash(&bytes)
    );
}

#[test]
fn public_key_of_known_seed() {
    let keypair = rfc8032_keypair();
    let expected = unhex32("d75a980182b10ab7d54bfed3c964073a0ee172f3daa62325af021a68f707511a");
    assert_eq!(get_pubkey(&keypair), expected);
}

#[test]
fn signature_of_known_seed_over_empty_message() {
    let keypair = rfc8032_keypair();
    let expected = unhex(
        "e5564300c360ac729086e2cc806e828a84877f1eb8e5d974d873e06522490155\
         5fb8821590a33bacc61e39701cf9b46bd25bf5f0595bbe24655141438e7a100b",
    );
    assert_eq!(keypair.sign(b"").to_vec(), expected);
}

#[test]
fn sign_then_verify() {
    let keypair = rfc8032_keypair();
    let sig = keypair.sign(b"a message");
    let key = get_pubkey(&keypair);
    assert!(verify_signature(&key, b"a message", &sig));
    assert!(!verify_signature(&key, b"another message", &sig));
    let other = get_pubkey(&Keypair::from_seed([5u8; 32]));
    assert!(!verify_signature(&other, b"a message", &sig));
    let mut bent = sig;
    bent[10] ^= 1;
    assert!(!verify_signature(&key, b"a message", &bent));
}

#[test]
fn signing_is_deterministic() {
    let keypair = rfc8032_keypair();
    assert_eq!(keypair.sign(b"twice").to_vec(), keypair.sign(b"twice").to_vec());
    assert_ne!(keypair.sign(b"twice").to_vec(), keypair.sign(b"thrice").to_vec());
}

#[test]
fn verify_signature_rejects_wrong_lengths() {
    let keypair = rfc8032_keypair();
    let sig = keypair.sign(b"m");
    let key = get_pubkey(&keypair);
    assert!(verify_signature(&key, b"m", &sig));
    assert!(!verify_signature(&key[..31], b"m", &sig));
    assert!(!verify_signature(&key, b"m", &sig[..63]));
    assert!(!verify_signature(&[], b"m", &[]));
}

#[test]
fn generated_keypairs_differ_and_sign() {
    let first = generate_keypair().unwrap();
    let second = generate_keypair().unwrap();
    assert_ne!(get_pubkey(&first), get_pubkey(&second));
    let sig = first.sign(b"m");
    assert!(verify_signature(&get_pubkey(&first), b"m", &sig));
    assert!(!verify_signature(&get_pubkey(&second), b"m", &sig));
}

#[test]
fn sign_hash_builds_a_claim_over_data() {
    let keypair = rfc8032_keypair();
    let data = hash(b"hello, world");
    let event = sign_hash(&data, &keypair);
    let expected = Event::Claim {
        key: get_pubkey(&keypair),
        data,
        sig: keypair.sign(&data),
    };
    assert_eq!(event, expected);
    assert!(verify_event(&event));
}

#[test]
fn transfer_hash_signs_data_then_recipient() {
    let keypair = rfc8032_keypair();
    let data = hash(b"hello, world");
    let to = get_pubkey(&Keypair::from_seed([1u8; 32]));
    let event = transfer_hash(&data, &keypair, to);
    let mut signed = data.to_vec();
    signed.extend_from_slice(&to);
    let expected = Event::Transaction {
        from: get_pubkey(&keypair),
        to,
        data,
        sig: keypair.sign(&signed),
    };
    assert_eq!(event, expected);
    assert!(verify_event(&event));
    if let Event::Transaction { from, sig, .. } = event {
        assert!(verify_signature(&from, &signed, &sig));
        assert!(!verify_signature(&from, &data, &sig));
    } else {
        panic!("not a transaction");
    }
}

#[test]
fn verify_event_checks_the_signature() {
    let keypair = rfc8032_keypair();
    let data = hash(b"data");
    assert!(verify_event(&Event::Tick));
    assert!(verify_event(&Event::Discovery { data }));
    let claim = sign_hash(&data, &keypair);
    assert!(verify_event(&claim));
    if let Event::Claim { key, sig, .. } = claim {
        assert!(!verify_event(&Event::Claim { key, data: hash(b"other"), sig }));
        assert!(!verify_event(&Event::Claim { key: data, data, sig }));
    }
    let to = get_pubkey(&Keypair::from_seed([1u8; 32]));
    let transfer = transfer_hash(&data, &keypair, to);
    if let Event::Transaction { from, to, data, sig } = transfer {
        assert!(!verify_event(&Event::Transaction { from, to: from, data, sig }));
        assert!(!verify_event(&Event::Transaction { from: to, to, data, sig }));
    }
    assert!(!verify_event(&Event::Claim { key: [0u8; 32], data, sig: [0u8; 64] }));
}

#[test]
fn get_signature_of_each_kind() {
    let data = hash(b"data");
    let key = hash(b"key");
    let sig = [3u8; 64];
    assert_eq!(get_signature(&Event::Tick), None);
    assert_eq!(get_signature(&Event::Discovery { data }), None);
    assert_eq!(get_signature(&Event::Claim { key, data, sig }), Some(sig));
    assert_eq!(
        get_signature(&Event::Transaction { from: key, to: key, data, sig }),
        Some(sig)
    );
}

#[test]
fn new_claim_holds_its_arguments() {
    let data = hash(b"data");
    let key = hash(b"key");
    let sig = [3u8; 64];
    assert_eq!(Event::new_claim(key, data, sig), Event::Claim { key, data, sig });
}

#[test]
fn hash_eq_compares_every_byte() {
    let a = hash(b"a");
    assert!(hash_eq(&a, &a));
    for i in 0..32 {
        let mut b = a;
        b[i] ^= 0x80;
        assert!(!hash_eq(&a, &b));
        assert!(!hash_eq(&b, &a));
    }
}

#[test]
fn keypair_from_drawn_keeps_the_seed() {
    assert!(keypair_from_drawn(None).is_none());
    let seed = [9u8; 32];
    let pair = keypair_from_drawn(Some(seed)).unwrap();
    assert_eq!(get_pubkey(&pair), get_pubkey(&Keypair::from_seed(seed)));
    assert_eq!(pair.sign(b"m").to_vec(), Keypair::from_seed(seed).sign(b"m").to_vec());
    let other = keypair_from_drawn(Some([10u8; 32])).unwrap();
    assert_ne!(get_pubkey(&pair), get_pubkey(&other));
}
