use acme_proxy::key_change::{
    key_change_problem, parse_header, rejection, verify_payload, verify_signature, InnerHeader,
    InnerPayload, Jwk, KeyChangeError, KeyChangeJws, SignatureError,
};
use base64::engine::general_purpose::URL_SAFE_NO_PAD;
use base64::Engine;
use ring::rand::SystemRandom;
use ring::signature::{
    EcdsaKeyPair, KeyPair, UnparsedPublicKey, ECDSA_P256_SHA256_FIXED,
    ECDSA_P256_SHA256_FIXED_SIGNING,
};
use serde_json::Value;

const URL: &str = "http://localhost:3000/keyChange";

fn b64(data: &[u8]) -> String {
    URL_SAFE_NO_PAD.encode(data)
}

fn b64_json(value: &Value) -> String {
    b64(&serde_json::to_vec(value).unwrap())
}

fn object(members: Vec<(&str, Value)>) -> Value {
    let mut map = serde_json::Map::new();
    for (name, value) in members {
        map.insert(name.to_string(), value);
    }
    Value::Object(map)
}

fn generate_ec_key() -> EcdsaKeyPair {
    let rng = SystemRandom::new();
    let doc = EcdsaKeyPair::generate_pkcs8(&ECDSA_P256_SHA256_FIXED_SIGNING, &rng).unwrap();
    EcdsaKeyPair::from_pkcs8(&ECDSA_P256_SHA256_FIXED_SIGNING, doc.as_ref(), &rng).unwrap()
}

fn ec_jwk(key_pair: &EcdsaKeyPair) -> Jwk {
    let point = key_pair.public_key().as_ref();
    Jwk::EC {
        crv: "P-256".to_string(),
        x: b64(&point[1..33]),
        y: b64(&point[33..65]),
    }
}

fn jwk_value(jwk: &Jwk) -> Value {
    match jwk {
        Jwk::EC { crv, x, y } => object(vec![
            ("kty", Value::from("EC")),
            ("crv", Value::from(crv.as_str())),
            ("x", Value::from(x.as_str())),
            ("y", Value::from(y.as_str())),
        ]),
        Jwk::RSA { n, e } => object(vec![
            ("kty", Value::from("RSA")),
            ("n", Value::from(n.as_str())),
            ("e", Value::from(e.as_str())),
        ]),
    }
}

/// Builds a well-formed inner JWS, signed by `new_key` itself.
fn build(new_key: &EcdsaKeyPair, url: &str, payload: &Value) -> KeyChangeJws {
    let protected = object(vec![
        ("alg", Value::from("ES256")),
        ("jwk", jwk_value(&ec_jwk(new_key))),
        ("url", Value::from(url)),
    ]);
    let protected_b64 = b64_json(&protected);
    let payload_b64 = b64_json(payload);
    let signing_input = format!("{protected_b64}.{payload_b64}");
    let sig = new_key
        .sign(&SystemRandom::new(), signing_input.as_bytes())
        .unwrap();
    KeyChangeJws {
        protected: protected_b64,
        payload: payload_b64,
        signature: b64(sig.as_ref()),
    }
}

fn account_url() -> &'static str {
    "http://localhost:3000/acct/1"
}

fn payload_for(old_key: &Jwk) -> Value {
    object(vec![
        ("account", Value::from(account_url())),
        ("oldKey", jwk_value(old_key)),
    ])
}

fn member(value: &Value, name: &str) -> Option<String> {
    value.get(name)?.as_str().map(|s| s.to_string())
}

fn read_jwk(value: &Value) -> Option<Jwk> {
    match value.get("kty")?.as_str()? {
        "EC" => Some(Jwk::EC {
            crv: member(value, "crv")?,
            x: member(value, "x")?,
            y: member(value, "y")?,
        }),
        "RSA" => Some(Jwk::RSA {
            n: member(value, "n")?,
            e: member(value, "e")?,
        }),
        _ => None,
    }
}

fn read_header(bytes: &[u8]) -> Option<InnerHeader> {
    let value: Value = serde_json::from_slice(bytes).ok()?;
    Some(InnerHeader {
        alg: member(&value, "alg")?,
        jwk: read_jwk(value.get("jwk")?)?,
        url: member(&value, "url")?,
    })
}

fn read_payload(bytes: &[u8]) -> Option<InnerPayload> {
    let value: Value = serde_json::from_slice(bytes).ok()?;
    Some(InnerPayload {
        account: member(&value, "account")?,
        old_key: read_jwk(value.get("oldKey")?)?,
    })
}

fn verify_es256(
    alg: &str,
    jwk: &Jwk,
    signed: &str,
    signature: &str,
) -> Result<Vec<u8>, SignatureError> {
    let (x, y) = match jwk {
        Jwk::EC { x, y, .. } if alg == "ES256" => (x, y),
        _ => return Err(SignatureError::BadAlgorithm("unsupported alg")),
    };
    let mut point = vec![4];
    for part in [x, y] {
        let bytes = URL_SAFE_NO_PAD
            .decode(part)
            .map_err(|_| SignatureError::Malformed("coordinate"))?;
        point.extend(bytes);
    }
    let signature = URL_SAFE_NO_PAD
        .decode(signature)
        .map_err(|_| SignatureError::Malformed("signature"))?;
    UnparsedPublicKey::new(&ECDSA_P256_SHA256_FIXED, &point)
        .verify(signed.as_bytes(), &signature)
        .map_err(|_| SignatureError::BadSignature("no"))?;
    Ok(point)
}

#[test]
fn parse_header_accepts_well_formed_and_matching_url() {
    let new_key = generate_ec_key();
    let old_key = ec_jwk(&generate_ec_key());
    let inner = build(&new_key, URL, &payload_for(&old_key));

    let header = parse_header(&inner, URL, read_header).unwrap();
    assert_eq!(header.alg, "ES256");
}

#[test]
fn parse_header_rejects_url_mismatch() {
    let new_key = generate_ec_key();
    let old_key = ec_jwk(&generate_ec_key());
    let inner = build(&new_key, "http://localhost:3000/other", &payload_for(&old_key));

    assert!(matches!(
        parse_header(&inner, URL, read_header),
        Err(KeyChangeError::Malformed(_))
    ));
}

#[test]
fn parse_header_rejects_malformed_base64_and_json() {
    let new_key = generate_ec_key();
    let old_key = ec_jwk(&generate_ec_key());

    let mut inner = build(&new_key, URL, &payload_for(&old_key));
    inner.protected = "!!!not-base64!!!".to_string();
    assert!(matches!(
        parse_header(&inner, URL, read_header),
        Err(KeyChangeError::Malformed("inner protected base64 invalid"))
    ));

    let mut inner = build(&new_key, URL, &payload_for(&old_key));
    inner.protected = b64(b"not json");
    assert!(matches!(
        parse_header(&inner, URL, read_header),
        Err(KeyChangeError::Malformed("inner protected JSON invalid"))
    ));

    let mut padded = build(&new_key, URL, &payload_for(&old_key));
    padded.protected = "e30=".to_string();
    assert!(matches!(
        parse_header(&padded, URL, read_header),
        Err(KeyChangeError::Malformed("inner protected base64 invalid"))
    ));
}

#[test]
fn parse_header_rejects_missing_jwk() {
    let protected_b64 = b64_json(&object(vec![
        ("alg", Value::from("ES256")),
        ("url", Value::from(URL)),
    ]));
    let inner = KeyChangeJws {
        protected: protected_b64,
        payload: String::new(),
        signature: String::new(),
    };
    assert!(matches!(
        parse_header(&inner, URL, read_header),
        Err(KeyChangeError::Malformed(_))
    ));
}

#[test]
fn verify_signature_accepts_a_correctly_self_signed_inner_jws() {
    let new_key = generate_ec_key();
    let old_key = ec_jwk(&generate_ec_key());
    let inner = build(&new_key, URL, &payload_for(&old_key));
    let header = parse_header(&inner, URL, read_header).unwrap();

    let der = verify_signature(&inner, &header, verify_es256).unwrap();
    assert!(!der.is_empty());
}

#[test]
fn verify_signature_rejects_a_tampered_signature() {
    let new_key = generate_ec_key();
    let old_key = ec_jwk(&generate_ec_key());
    let mut inner = build(&new_key, URL, &payload_for(&old_key));
    let header = parse_header(&inner, URL, read_header).unwrap();
    inner.signature = b64(&[0u8; 64]);

    assert!(matches!(
        verify_signature(&inner, &header, verify_es256),
        Err(KeyChangeError::BadSignature)
    ));
}

#[test]
fn verify_signature_rejects_a_tampered_payload() {
    let new_key = generate_ec_key();
    let old_key = ec_jwk(&generate_ec_key());
    let mut inner = build(&new_key, URL, &payload_for(&old_key));
    let header = parse_header(&inner, URL, read_header).unwrap();
    inner.payload = b64_json(&payload_for(&ec_jwk(&generate_ec_key())));

    assert!(matches!(
        verify_signature(&inner, &header, verify_es256),
        Err(KeyChangeError::BadSignature)
    ));
}

#[test]
fn verify_payload_accepts_correct_account_and_old_key() {
    let new_key = generate_ec_key();
    let old_key = ec_jwk(&generate_ec_key());
    let inner = build(&new_key, URL, &payload_for(&old_key));

    let payload = verify_payload(&inner, account_url(), &old_key, read_payload).unwrap();
    assert_eq!(payload.account, account_url());
}

#[test]
fn verify_payload_rejects_account_mismatch() {
    let new_key = generate_ec_key();
    let old_key = ec_jwk(&generate_ec_key());
    let inner = build(&new_key, URL, &payload_for(&old_key));

    assert!(matches!(
        verify_payload(&inner, "http://localhost:3000/acct/999", &old_key, read_payload),
        Err(KeyChangeError::Malformed(_))
    ));
}

#[test]
fn verify_payload_rejects_old_key_mismatch() {
    let new_key = generate_ec_key();
    let old_key = ec_jwk(&generate_ec_key());
    let unrelated_key = ec_jwk(&generate_ec_key());
    let inner = build(&new_key, URL, &payload_for(&old_key));

    assert!(matches!(
        verify_payload(&inner, account_url(), &unrelated_key, read_payload),
        Err(KeyChangeError::Malformed(_))
    ));
}

#[test]
fn verify_payload_rejects_malformed_payload_json() {
    let new_key = generate_ec_key();
    let old_key = ec_jwk(&generate_ec_key());
    let mut inner = build(&new_key, URL, &payload_for(&old_key));
    inner.payload = b64(b"not a keyChange object");

    assert!(matches!(
        verify_payload(&inner, account_url(), &old_key, read_payload),
        Err(KeyChangeError::Malformed(_))
    ));
}

#[test]
fn verify_payload_rejects_malformed_payload_base64() {
    let new_key = generate_ec_key();
    let old_key = ec_jwk(&generate_ec_key());
    let mut inner = build(&new_key, URL, &payload_for(&old_key));
    inner.payload = "!!!not-base64!!!".to_string();

    assert!(matches!(
        verify_payload(&inner, account_url(), &old_key, read_payload),
        Err(KeyChangeError::Malformed(_))
    ));
}

#[test]
fn each_refusal_has_its_own_answer() {
    let problem = key_change_problem(KeyChangeError::Malformed("m"));
    assert_eq!((problem.status, problem.detail.as_str()), (400, "m"));
    assert_eq!(problem.kind, "urn:ietf:params:acme:error:malformed");
    let problem = key_change_problem(KeyChangeError::BadSignature);
    assert_eq!(problem.status, 401);
    assert_eq!(problem.detail, "Inner JWS signature invalid");
    let problem = key_change_problem(KeyChangeError::Internal("i"));
    assert_eq!(problem.status, 500);
    assert_eq!(rejection(&KeyChangeError::Malformed("m")), ("malformed", "m"));
    assert_eq!(
        rejection(&KeyChangeError::BadSignature),
        ("bad_signature", "inner JWS signature invalid")
    );
    assert_eq!(rejection(&KeyChangeError::Internal("i")), ("internal", "i"));
}

#[test]
fn a_signature_error_keeps_its_blame() {
    let of = KeyChangeError::from_signature;
    assert_eq!(of(SignatureError::Malformed("a")), KeyChangeError::Malformed("a"));
    assert_eq!(of(SignatureError::BadAlgorithm("b")), KeyChangeError::Malformed("b"));
    assert_eq!(of(SignatureError::BadSignature("c")), KeyChangeError::BadSignature);
    assert_eq!(of(SignatureError::Encoding("d")), KeyChangeError::Internal("d"));
}

#[test]
fn keys_are_compared_member_by_member() {
    let rsa = |n: &str| Jwk::RSA {
        n: n.to_string(),
        e: "AQAB".to_string(),
    };
    let ec = ec_jwk(&generate_ec_key());
    assert!(rsa("a").same(&rsa("a")));
    assert!(!rsa("a").same(&rsa("b")));
    assert!(!rsa("a").same(&ec));
    assert!(ec.same(&ec));
}
