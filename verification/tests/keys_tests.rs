use ring::signature::KeyPair;
use tuf::jsonval::JsonValue;
use tuf::Error;
use tuf::Key;
use tuf::KeyId;
use tuf::KeyType;
use tuf::KeyValue;
use tuf::RoleDefinition;
use tuf::Signature;
use tuf::SignatureScheme;
use tuf::SignatureValue;

fn ed25519_fixture() -> (ring::signature::Ed25519KeyPair, Key) {
    let rng = ring::rand::SystemRandom::new();
    let pkcs8 = ring::signature::Ed25519KeyPair::generate_pkcs8(&rng).unwrap();
    let kp = ring::signature::Ed25519KeyPair::from_pkcs8(pkcs8.as_ref()).unwrap();
    let public = kp.public_key().as_ref().to_vec();
    let original = tuf::hex::hex_encode(&public);
    let key = Key {
        typ: KeyType::Ed25519,
        value: KeyValue {
            value: public,
            original,
            typ: KeyType::Ed25519,
        },
    };
    (kp, key)
}

#[test]
fn ed25519_verify_accepts_good_signature() {
    let (kp, key) = ed25519_fixture();
    let msg = b"hello metadata";
    let sig = kp.sign(msg).as_ref().to_vec();
    let r = key.verify(&SignatureScheme::Ed25519, msg, &SignatureValue(sig));
    assert_eq!(r, Ok(()));
}

#[test]
fn ed25519_verify_rejects_flipped_bits() {
    let (kp, key) = ed25519_fixture();
    let msg = b"hello metadata";
    let mut sig = kp.sign(msg).as_ref().to_vec();
    sig[0] ^= 1;
    let r = key.verify(&SignatureScheme::Ed25519, msg, &SignatureValue(sig));
    assert_eq!(r, Err(Error::VerificationFailure));

    let sig = kp.sign(msg).as_ref().to_vec();
    let mut other_msg = msg.to_vec();
    other_msg[3] ^= 0x80;
    let r = key.verify(&SignatureScheme::Ed25519, &other_msg, &SignatureValue(sig));
    assert_eq!(r, Err(Error::VerificationFailure));
}

#[test]
fn ed25519_verify_rejects_wrong_key() {
    let (kp, _) = ed25519_fixture();
    let (_, other_key) = ed25519_fixture();
    let msg = b"hello metadata";
    let sig = kp.sign(msg).as_ref().to_vec();
    let r = other_key.verify(&SignatureScheme::Ed25519, msg, &SignatureValue(sig));
    assert_eq!(r, Err(Error::VerificationFailure));
}

#[test]
fn scheme_key_type_mismatch_refused_before_crypto() {
    let rsa_key = Key {
        typ: KeyType::Rsa,
        value: KeyValue {
            value: vec![1, 2, 3],
            original: "-----BEGIN PUBLIC KEY-----\nAAEC\n-----END PUBLIC KEY-----\n".to_string(),
            typ: KeyType::Rsa,
        },
    };
    let r = rsa_key.verify(&SignatureScheme::Ed25519, b"m", &SignatureValue(vec![0; 64]));
    assert_eq!(r, Err(Error::SignatureSchemeKeyTypeMismatch));

    let (_, ed_key) = ed25519_fixture();
    let r = ed_key.verify(
        &SignatureScheme::RsaSsaPssSha256,
        b"m",
        &SignatureValue(vec![0; 64]),
    );
    assert_eq!(r, Err(Error::SignatureSchemeKeyTypeMismatch));
}

#[test]
fn unsupported_key_type_and_scheme_refused() {
    let key = Key {
        typ: KeyType::Unsupported("dsa".to_string()),
        value: KeyValue {
            value: vec![],
            original: "ab".to_string(),
            typ: KeyType::Ed25519,
        },
    };
    let r = key.verify(&SignatureScheme::Ed25519, b"m", &SignatureValue(vec![]));
    assert_eq!(r, Err(Error::UnsupportedKeyType("dsa".to_string())));

    let (_, ed_key) = ed25519_fixture();
    let r = ed_key.verify(
        &SignatureScheme::Unsupported("gost".to_string()),
        b"m",
        &SignatureValue(vec![]),
    );
    assert_eq!(r, Err(Error::UnsupportedSignatureScheme("gost".to_string())));
}

#[test]
fn rsa_pss_rejects_garbage() {
    // not a real RSA key: the verification primitive must refuse, and the
    // refusal surfaces as an ordinary verification failure
    let key = Key {
        typ: KeyType::Rsa,
        value: KeyValue {
            value: vec![0x30, 0x00],
            original: "-----BEGIN PUBLIC KEY-----\nMAA=\n-----END PUBLIC KEY-----\n".to_string(),
            typ: KeyType::Rsa,
        },
    };
    let r = key.verify(
        &SignatureScheme::RsaSsaPssSha256,
        b"m",
        &SignatureValue(vec![0; 256]),
    );
    assert_eq!(r, Err(Error::VerificationFailure));
    let r = key.verify(
        &SignatureScheme::RsaSsaPssSha512,
        b"m",
        &SignatureValue(vec![0; 256]),
    );
    assert_eq!(r, Err(Error::VerificationFailure));
}

#[test]
fn key_id_depends_only_on_original_text() {
    let a = KeyValue {
        value: vec![0xAB],
        original: "ab".to_string(),
        typ: KeyType::Ed25519,
    };
    let b = KeyValue {
        value: vec![],
        original: "ab".to_string(),
        typ: KeyType::Rsa,
    };
    assert_eq!(a.key_id(), b.key_id());
    // the ID is a 64-digit hex digest, not an echo of the input
    let id = a.key_id().0;
    assert_eq!(id.len(), 64);
    assert_ne!(id, "ab");
    // even a whitespace change to the text changes the ID
    let c = KeyValue {
        value: vec![0xAB],
        original: "ab ".to_string(),
        typ: KeyType::Ed25519,
    };
    assert_ne!(a.key_id(), c.key_id());
    // an unsupported key type derives the fixed sentinel
    let d = KeyValue {
        value: vec![],
        original: "ab".to_string(),
        typ: KeyType::Unsupported("dsa".to_string()),
    };
    assert_eq!(d.key_id(), KeyId("error".to_string()));
}

#[test]
fn key_value_parse_infers_type_from_encoding() {
    // hex means a raw Ed25519 key
    let kv = KeyValue::parse(&JsonValue::Str("00ff".to_string())).unwrap();
    assert_eq!(kv.typ, KeyType::Ed25519);
    assert_eq!(kv.value, vec![0x00, 0xFF]);
    assert_eq!(kv.original, "00ff");
    // a PEM block means an RSA key, decoded from its body
    let pem_text = "-----BEGIN PUBLIC KEY-----\nAAEC\n-----END PUBLIC KEY-----\n";
    let kv = KeyValue::parse(&JsonValue::Str(pem_text.to_string())).unwrap();
    assert_eq!(kv.typ, KeyType::Rsa);
    assert_eq!(kv.value, vec![0x00, 0x01, 0x02]);
    assert_eq!(kv.original, pem_text);
    // an object wraps one of the above under "public"
    let wrapped = JsonValue::Object(vec![(
        "public".to_string(),
        JsonValue::Str("00ff".to_string()),
    )]);
    let kv = KeyValue::parse(&wrapped).unwrap();
    assert_eq!(kv.typ, KeyType::Ed25519);
    // an object without "public" is missing that field
    let empty = JsonValue::Object(vec![]);
    assert_eq!(
        KeyValue::parse(&empty),
        Err(Error::MissingField("public".to_string()))
    );
    // neither hex nor PEM is malformed
    assert!(KeyValue::parse(&JsonValue::Str("not hex".to_string())).is_err());
}

#[test]
fn name_parsers_keep_unknown_names() {
    assert_eq!(KeyType::from_str("ed25519"), Ok(KeyType::Ed25519));
    assert_eq!(KeyType::from_str("rsa"), Ok(KeyType::Rsa));
    assert_eq!(
        KeyType::from_str("dsa"),
        Ok(KeyType::Unsupported("dsa".to_string()))
    );
    assert_eq!(
        SignatureScheme::from_str("rsassa-pss-sha512"),
        Ok(SignatureScheme::RsaSsaPssSha512)
    );
    assert_eq!(
        SignatureScheme::from_str("gost"),
        Ok(SignatureScheme::Unsupported("gost".to_string()))
    );
    assert_eq!(tuf::HashType::from_str("sha256"), Ok(tuf::HashType::Sha256));
    assert_eq!(
        tuf::HashType::from_str("md5"),
        Ok(tuf::HashType::Unsupported("md5".to_string()))
    );
}

#[test]
fn hash_preferences_prefer_sha512() {
    let prefs = tuf::HashType::preferences();
    assert_eq!(prefs, vec![tuf::HashType::Sha512, tuf::HashType::Sha256]);
}

#[test]
fn threshold_two_of_three() {
    let (kp_a, key_a) = ed25519_fixture();
    let (kp_b, key_b) = ed25519_fixture();
    let (_, key_c) = ed25519_fixture();
    let id_a = key_a.value.key_id();
    let id_b = key_b.value.key_id();
    let id_c = key_c.value.key_id();
    let pool = vec![
        (id_a.clone(), key_a),
        (id_b.clone(), key_b),
        (id_c.clone(), key_c),
    ];
    let def = RoleDefinition {
        key_ids: vec![id_a.clone(), id_b.clone(), id_c.clone()],
        threshold: 2,
    };
    let msg = b"signed payload bytes";
    let sig_a = Signature {
        key_id: id_a.clone(),
        method: SignatureScheme::Ed25519,
        sig: SignatureValue(kp_a.sign(msg).as_ref().to_vec()),
    };
    let sig_b = Signature {
        key_id: id_b.clone(),
        method: SignatureScheme::Ed25519,
        sig: SignatureValue(kp_b.sign(msg).as_ref().to_vec()),
    };
    // signatures from two distinct authorized keys meet the threshold
    let r = tuf::verify_role(&def, &pool, msg, &vec![sig_a.clone(), sig_b.clone()]);
    assert_eq!(r, Ok(()));
    // one valid signature alone does not
    let r = tuf::verify_role(&def, &pool, msg, &vec![sig_a.clone()]);
    assert_eq!(r, Err(Error::VerificationFailure));
    // the same signature listed twice still counts one key
    let r = tuf::verify_role(&def, &pool, msg, &vec![sig_a.clone(), sig_a.clone()]);
    assert_eq!(r, Err(Error::VerificationFailure));
    // an unauthorized signer contributes nothing
    let (kp_x, key_x) = ed25519_fixture();
    let id_x = key_x.value.key_id();
    let mut pool_x = pool.clone();
    pool_x.push((id_x.clone(), key_x));
    let sig_x = Signature {
        key_id: id_x,
        method: SignatureScheme::Ed25519,
        sig: SignatureValue(kp_x.sign(msg).as_ref().to_vec()),
    };
    let r = tuf::verify_role(&def, &pool_x, msg, &vec![sig_a, sig_x]);
    assert_eq!(r, Err(Error::VerificationFailure));
}

#[test]
fn threshold_counts_distinct_keys_once() {
    let (kp_a, key_a) = ed25519_fixture();
    let id_a = key_a.value.key_id();
    let pool = vec![(id_a.clone(), key_a)];
    // a duplicated key id in the definition counts once
    let def = RoleDefinition {
        key_ids: vec![id_a.clone(), id_a.clone()],
        threshold: 2,
    };
    let msg = b"payload";
    let sig_a = Signature {
        key_id: id_a.clone(),
        method: SignatureScheme::Ed25519,
        sig: SignatureValue(kp_a.sign(msg).as_ref().to_vec()),
    };
    let r = tuf::verify_role(&def, &pool, msg, &vec![sig_a.clone()]);
    assert_eq!(r, Err(Error::VerificationFailure));
    let def_one = RoleDefinition {
        key_ids: vec![id_a.clone(), id_a],
        threshold: 1,
    };
    let r = tuf::verify_role(&def_one, &pool, msg, &vec![sig_a]);
    assert_eq!(r, Ok(()));
}
