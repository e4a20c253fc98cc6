use cyber_note::catalog::{aligned_key_fields, file_details, offline_cloud_names};
use cyber_note::ledger::{
    compute_sha256, has_valid_key, key_id_from_listing, to_hex_lower, usable_key_id, KeyLedger,
    KeyLedgerEntry,
};

fn entry(name: &str, key: &str) -> KeyLedgerEntry {
    KeyLedgerEntry {
        id: format!("id-{}", name),
        file_name: name.to_string(),
        target_path: format!("/n/{}", name),
        key_id: key.to_string(),
        cipher_mode: "GPG_PUBLIC_KEY".to_string(),
        iterations: 0,
        layer: 1,
        timestamp: "t".to_string(),
        file_size_bytes: 10,
        sha256: "h".to_string(),
        notes: "n".to_string(),
    }
}

fn names(l: &KeyLedger) -> Vec<String> {
    l.records.iter().map(|r| r.file_name.clone()).collect()
}

#[test]
fn sha256_of_abc() {
    assert_eq!(
        compute_sha256(b"abc"),
        "ba7816bf8f01cfea414140de5dae2223b00361a396177a9cb410ff61f20015ad"
    );
    assert_eq!(compute_sha256(b"").len(), 64);
}

#[test]
fn hex_is_two_lowercase_digits_per_byte() {
    assert_eq!(to_hex_lower(&[0x00, 0xab, 0x0f, 0xff]), "00ab0fff");
    assert_eq!(to_hex_lower(&[]), "");
}

#[test]
fn new_ledger_is_empty() {
    let l = KeyLedger::new("2026-01-01T00:00:00+08:00".to_string());
    assert_eq!(l.system, "Cyber-NOte");
    assert_eq!(l.version, "1.0.0");
    assert!(l.records.is_empty());
    assert_eq!(l.updated_at, "2026-01-01T00:00:00+08:00");
}

#[test]
fn record_replaces_previous_record_of_file() {
    let mut l = KeyLedger::new("2026-01-01T00:00:00+08:00".to_string());
    l.record(entry("a.gpg", "K1"));
    l.record(entry("b.gpg", "K2"));
    l.record(entry("a.gpg", "K3"));
    assert_eq!(names(&l), vec!["b.gpg".to_string(), "a.gpg".to_string()]);
    assert_eq!(l.records[1].key_id, "K3");
    assert_eq!(l.find_record("a.gpg"), Some(1));
    assert_eq!(l.find_record("zzz"), None);
}

#[test]
fn remove_and_rename_file() {
    let mut l = KeyLedger::new("2026-01-01T00:00:00+08:00".to_string());
    l.records.push(entry("a", "K"));
    l.records.push(entry("b", "K"));
    l.records.push(entry("a", "K"));
    assert_eq!(l.remove_file("a"), 2);
    assert_eq!(names(&l), vec!["b".to_string()]);
    assert_eq!(l.remove_file("a"), 0);
    l.rename_file("b", "c");
    assert_eq!(names(&l), vec!["c".to_string()]);
    assert_eq!(l.records[0].id, "id-b");
}

#[test]
fn retain_known_drops_orphans() {
    let mut l = KeyLedger::new("2026-01-01T00:00:00+08:00".to_string());
    l.records.push(entry("remote.gpg", "K"));
    l.records.push(entry("gone.gpg", "K"));
    l.records.push(entry("local.gpg", "K"));
    let remote = vec!["remote.gpg".to_string()];
    let changed = l.retain_known(&remote, &vec![false, false, true]);
    assert!(changed);
    assert_eq!(names(&l), vec!["remote.gpg".to_string(), "local.gpg".to_string()]);
    assert!(!l.retain_known(&remote, &vec![false, true]));
}

#[test]
fn key_validity() {
    assert!(has_valid_key(&entry("x.gpg", "ABCD1234"), true));
    assert!(!has_valid_key(&entry("x.gpg", ""), true));
    assert!(!has_valid_key(&entry("x.gpg", "-"), true));
    assert!(!has_valid_key(&entry("x.gpg", "未知"), true));
    assert!(has_valid_key(&entry("x.txt", ""), false));
    assert!(usable_key_id("ABCDEF0123456789"));
    assert!(!usable_key_id("對稱加固 (S2K) 或 GPG 封包"));
    assert!(!usable_key_id(""));
}

#[test]
fn key_id_from_packet_listing() {
    let out = ":pubkey enc packet: version 3, algo 1, keyid 0123456789ABCDEF\n\tdata: [2048 bits]\n";
    assert_eq!(key_id_from_listing(out, ""), "0123456789ABCDEF");
    assert_eq!(key_id_from_listing("", "gpg: encrypted with key ID ABCDEF12"), "ABCDEF12");
    assert_eq!(key_id_from_listing(":symkey enc packet: version 4", ""), "對稱加固 (S2K) 或 GPG 封包");
}

#[test]
fn aligned_fields() {
    assert_eq!(aligned_key_fields(false, Some("X")), ("-".to_string(), "PLAINTEXT".to_string()));
    assert_eq!(
        aligned_key_fields(true, Some("ABCDEF12")),
        ("ABCDEF12".to_string(), "GPG_ENCRYPTED".to_string())
    );
    assert_eq!(
        aligned_key_fields(true, Some("對稱加固 (S2K) 或 GPG 封包")),
        (String::new(), "GPG_ENCRYPTED".to_string())
    );
    assert_eq!(aligned_key_fields(true, None), (String::new(), "GPG_ENCRYPTED".to_string()));
}

#[test]
fn details_of_recorded_and_unrecorded_files() {
    let e = entry("a.gpg", "KEY");
    let d = file_details("a.gpg", Some(&e), false);
    assert_eq!(d.key_id, "KEY");
    assert_eq!(d.cipher_mode, "GPG_PUBLIC_KEY");
    assert_eq!(d.layer, 1);
    assert_eq!(d.cloud_status, "🌐 雲端已備份");
    let d = file_details("b.gpg", None, false);
    assert_eq!(d.key_id, "未知");
    assert_eq!(d.cipher_mode, "GPG_ENCRYPTED");
    assert_eq!(d.layer, 1);
    assert_eq!(d.notes, "無審計備註");
    assert_eq!(d.status, "🛡️ GPG/RSA");
    assert_eq!(d.cloud_status, "❌ 僅本地存在");
    let d = file_details("c.txt", None, true);
    assert_eq!(d.key_id, "-");
    assert_eq!(d.cipher_mode, "PLAINTEXT");
    assert_eq!(d.layer, 0);
    assert_eq!(d.status, "📄 明文");
    assert_eq!(d.cloud_status, "🌐 雲端已備份");
}

#[test]
fn offline_names_from_cache_or_ledger() {
    let mut l = KeyLedger::new("2026-01-01T00:00:00+08:00".to_string());
    l.records.push(entry("b", "K"));
    l.records.push(entry("a", "K"));
    l.records.push(entry("b", "K"));
    assert_eq!(offline_cloud_names(None, &l), vec!["a".to_string(), "b".to_string()]);
    let cached = vec!["z".to_string(), "y".to_string(), "z".to_string()];
    assert_eq!(offline_cloud_names(Some(&cached), &l), vec!["y".to_string(), "z".to_string()]);
}
