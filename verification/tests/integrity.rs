use cql_gateway::descriptors::RawData;
use cql_gateway::envelope::{classify_command, seal_envelope, verify_envelope, Command, CommandData, CommandKind};
use cql_gateway::integrity::calculate_hash;

fn raw_envelope(hash: &str, command: &str, length: usize, nonce: Option<&str>) -> Command {
    Command {
        hash: hash.to_string(),
        command: command.to_string(),
        table: None,
        keyspace: None,
        data: CommandData::Raw(RawData {
            query: "SELECT * FROM ks.t".to_string(),
            values: Vec::new(),
            limit: None,
        }),
        length,
        nonce: nonce.map(|n| n.to_string()),
        type_: None,
    }
}

#[test]
fn digest_of_empty_string_is_the_known_sha512() {
    let expected = "cf83e1357eefb8bdf1542850d66d8007d620e4050b5715dc83f4a921d36ce9ce47d0d13c5d85f2b0ff8318d2877eec2f63b931bd47417a81a538327af927da3e";
    assert_eq!(calculate_hash(String::new()), expected);
}

#[test]
fn digest_is_deterministic() {
    let a = calculate_hash("select42{}".to_string());
    let b = calculate_hash("select42{}".to_string());
    assert_eq!(a, b);
    assert_eq!(a.len(), 128);
}

#[test]
fn one_changed_byte_changes_the_digest() {
    let a = calculate_hash("select42{\"limit\":0}".to_string());
    let b = calculate_hash("select42{\"limit\":1}".to_string());
    assert_ne!(a, b);
}

#[test]
fn sealing_recomputes_length_and_digest() {
    let payload = "{\"success\":true}";
    let meta = seal_envelope("insert", payload, Some("abc123".to_string()));
    assert_eq!(meta.length, payload.len() + "insert".len());
    let expected = calculate_hash(format!("insert{}{}", meta.length, payload));
    assert_eq!(meta.hash, expected);
    assert_eq!(meta.nonce.as_deref(), Some("abc123"));
}

#[test]
fn protocol_error_responses_carry_no_nonce() {
    let meta = seal_envelope("error", "{}", None);
    assert_eq!(meta.nonce, None);
}

#[test]
fn verify_accepts_a_matching_digest_and_refuses_a_tampered_one() {
    let payload = "{\"query\":\"SELECT * FROM ks.t\",\"values\":[]}";
    let length = payload.len() + "raw".len();
    let good = calculate_hash(format!("raw{}{}", length, payload));
    let cmd = raw_envelope(&good, "raw", length, Some("n1"));
    assert!(verify_envelope(&cmd, payload));

    let mut tampered = String::from(payload);
    tampered.truncate(payload.len() - 1);
    tampered.push('}');
    assert!(!verify_envelope(&cmd, &tampered) || tampered == payload);

    let bad = raw_envelope("0000", "raw", length, None);
    assert!(!verify_envelope(&bad, payload));
}

#[test]
fn stale_declared_length_fails_verification() {
    let payload = "{}";
    let length = payload.len() + "raw".len();
    let good = calculate_hash(format!("raw{}{}", length, payload));
    let cmd = raw_envelope(&good, "raw", length + 1, None);
    assert!(!verify_envelope(&cmd, payload));
}

#[test]
fn command_names_classify() {
    assert_eq!(classify_command(&"connect".to_string()), CommandKind::Connect);
    assert_eq!(classify_command(&"select".to_string()), CommandKind::Select);
    assert_eq!(classify_command(&"insert".to_string()), CommandKind::Insert);
    assert_eq!(classify_command(&"update".to_string()), CommandKind::Update);
    assert_eq!(classify_command(&"delete".to_string()), CommandKind::Delete);
    assert_eq!(classify_command(&"raw".to_string()), CommandKind::Raw);
    assert_eq!(classify_command(&"drop".to_string()), CommandKind::Unknown);
    assert_eq!(classify_command(&"".to_string()), CommandKind::Unknown);
}

#[test]
fn a_sealed_envelope_always_verifies_against_its_payload() {
    let payload = "{\"columns\":{\"a\":1}}";
    let meta = seal_envelope("insert", payload, Some("n9".to_string()));
    let cmd = raw_envelope(&meta.hash, "insert", meta.length, Some("n9"));
    assert!(verify_envelope(&cmd, payload));
}
