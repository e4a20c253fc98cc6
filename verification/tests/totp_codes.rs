use cyber_note::totp::{
    generate_totp, plan_totp_command, remove_whitespace, totp_at, totp_store_from_json,
    totp_store_to_json, TotpCommand, TotpStore,
};

const RFC_KEY: &[u8] = b"12345678901234567890";

fn args(list: &[&str]) -> Vec<String> {
    list.iter().map(|s| s.to_string()).collect()
}

#[test]
fn totp_matches_rfc6238_vectors() {
    assert_eq!(totp_at(RFC_KEY, 59), Ok(("287082".to_string(), 1)));
    assert_eq!(totp_at(RFC_KEY, 1111111109), Ok(("081804".to_string(), 1)));
    assert_eq!(totp_at(RFC_KEY, 1111111111), Ok(("050471".to_string(), 29)));
    assert_eq!(totp_at(RFC_KEY, 1234567890), Ok(("005924".to_string(), 30)));
    assert_eq!(totp_at(RFC_KEY, 2000000000), Ok(("279037".to_string(), 10)));
}

#[test]
fn totp_code_is_stable_within_a_step() {
    let a = totp_at(RFC_KEY, 60).unwrap();
    let b = totp_at(RFC_KEY, 89).unwrap();
    assert_eq!(a.0, b.0);
    assert_eq!(a.1, 30);
    assert_eq!(b.1, 1);
}

#[test]
fn generate_totp_accepts_spaced_lowercase_secret() {
    let (code, remaining) = generate_totp("gezd gnbv gy3t qojq gezd gnbv gy3t qojq").unwrap();
    assert_eq!(code.len(), 6);
    assert!(code.chars().all(|c| c.is_ascii_digit()));
    assert!((1..=30).contains(&remaining));
}

#[test]
fn generate_totp_upper_cases_before_decoding() {
    assert!(generate_totp("ſſſſſſſſ").is_ok());
}

#[test]
fn generate_totp_rejects_invalid_secret() {
    let msg = "Base32 解碼失敗：密鑰格式不正確".to_string();
    assert_eq!(generate_totp("!!!!"), Err(msg.clone()));
    assert_eq!(generate_totp("密鑰"), Err(msg));
}

#[test]
fn whitespace_is_removed() {
    assert_eq!(remove_whitespace(" a b\tc\n"), "abc");
}

#[test]
fn store_insert_get_remove() {
    let mut s = TotpStore::new();
    assert_eq!(s.len(), 0);
    s.insert("google".to_string(), "AAAA".to_string());
    s.insert("aws".to_string(), "BBBB".to_string());
    s.insert("google".to_string(), "CCCC".to_string());
    assert_eq!(s.len(), 2);
    assert_eq!(s.get("google"), Some("CCCC".to_string()));
    assert_eq!(s.get("github"), None);
    assert_eq!(s.labels_in_order(), args(&["aws", "google"]));
    assert_eq!(s.resolve_label("2"), "google");
    assert_eq!(s.resolve_label("3"), "3");
    assert_eq!(s.resolve_label("aws"), "aws");
    assert!(s.remove("aws"));
    assert!(!s.remove("aws"));
    assert_eq!(s.labels_in_order(), args(&["google"]));
}

#[test]
fn totp_command_plans() {
    assert!(matches!(plan_totp_command(&args(&["-t"])), TotpCommand::List));
    assert!(matches!(plan_totp_command(&args(&["-t", "google"])), TotpCommand::Show(l) if l == "google"));
    assert!(matches!(
        plan_totp_command(&args(&["-t", "google", "ABCD", "EFGH"])),
        TotpCommand::Add(l, s) if l == "google" && s == "ABCDEFGH"
    ));
    assert!(matches!(plan_totp_command(&args(&["-t", "-f", "2"])), TotpCommand::Delete(t) if t == "2"));
    assert!(matches!(plan_totp_command(&args(&["-t", "--rm"])), TotpCommand::MissingDeleteTarget));
}

#[test]
fn generate_totp_ignores_letter_case() {
    let a = generate_totp("gezdgnbvgy3tqojq").unwrap();
    let b = generate_totp("GEZDGNBVGY3TQOJQ").unwrap();
    let c = generate_totp("gezdgnbvgy3tqojq").unwrap();
    assert!(b.0 == a.0 || b.0 == c.0);
}

#[test]
fn generate_totp_refuses_symbols_outside_base32() {
    let msg = "Base32 解碼失敗：密鑰格式不正確".to_string();
    assert_eq!(generate_totp("gezd1234"), Err(msg.clone()));
    assert_eq!(generate_totp("GEZD-GNBV"), Err(msg));
    assert!(generate_totp("MZXW6===").is_ok());
    assert!(generate_totp("").is_ok());
}

#[test]
fn totp_store_reads_json_objects_of_strings() {
    let store = totp_store_from_json(r#"{"google": "GEZD GNBV", "aws": "MZXW6==="}"#).unwrap();
    assert_eq!(store.labels_in_order(), args(&["aws", "google"]));
    assert_eq!(store.get("google"), Some("GEZD GNBV".to_string()));
    assert_eq!(store.get("aws"), Some("MZXW6===".to_string()));
    assert_eq!(totp_store_from_json(r#"{"a": "1", "a": "2"}"#).unwrap().get("a"), Some("2".to_string()));
    assert!(totp_store_from_json("{}").unwrap().labels_in_order().is_empty());
    assert!(totp_store_from_json("not json").is_none());
    assert!(totp_store_from_json(r#"{"a": 1}"#).is_none());
    assert!(totp_store_from_json(r#"["a", "b"]"#).is_none());
}

#[test]
fn totp_store_writes_pretty_json_that_reads_back() {
    let mut store = TotpStore::new();
    assert_eq!(totp_store_to_json(&store), "{}");
    store.insert("google".to_string(), "ABC".to_string());
    store.insert("aws".to_string(), "DE\"F".to_string());
    let text = totp_store_to_json(&store);
    assert_eq!(text, "{\n  \"aws\": \"DE\\\"F\",\n  \"google\": \"ABC\"\n}");
    let back = totp_store_from_json(&text).unwrap();
    assert_eq!(back.labels_in_order(), store.labels_in_order());
    assert_eq!(back.get("aws"), Some("DE\"F".to_string()));
    assert_eq!(back.get("google"), Some("ABC".to_string()));
}
