use cyber_note::setup::{
    current_as_default, finish_setup, key_step, prompt_answer, token_file_choice,
    token_from_decrypted, token_prompt_default, token_step, KeyStep, TokenStep,
};
use cyber_note::totp::{get_legacy_totp_storage_path, get_totp_storage_path};
use cyber_note::ledger::get_ledger_path;
use cyber_note::{path_join, AppUnifiedConfig, GameConfig, GIST_BASE_API};

fn some(s: &str) -> Option<String> {
    Some(s.to_string())
}

#[test]
fn path_join_adds_one_separator() {
    assert_eq!(path_join("/home/u", "notes"), "/home/u/notes");
    assert_eq!(path_join("/home/u/", "notes"), "/home/u/notes");
    assert_eq!(path_join("", "notes"), "notes");
    assert_eq!(path_join("/home/u", "/etc/x"), "/etc/x");
}

#[test]
fn expand_tilde_cases() {
    assert_eq!(GameConfig::expand_tilde("~", "/home/u"), "/home/u");
    assert_eq!(GameConfig::expand_tilde("~/BOok/NOte", "/home/u"), "/home/u/BOok/NOte");
    assert_eq!(GameConfig::expand_tilde("/abs/dir", "/home/u"), "/abs/dir");
    assert_eq!(GameConfig::expand_tilde("~other", "/home/u"), "~other");
}

#[test]
fn extract_clean_id_from_urls_and_ids() {
    assert_eq!(GameConfig::extract_clean_id("abc123"), "abc123");
    assert_eq!(GameConfig::extract_clean_id("  https://gist.github.com/user/abc123/  "), "abc123");
    assert_eq!(GameConfig::extract_clean_id("https://api.github.com/gists/e81d7f"), "e81d7f");
    assert_eq!(GameConfig::extract_clean_id("a/b//"), "b");
    assert_eq!(GameConfig::extract_clean_id("   "), "");
}

#[test]
fn extract_clean_id_is_idempotent_on_examples() {
    for raw in ["https://gist.github.com/u/xyz/", " id-1 ", "a/b / c", "///"] {
        let once = GameConfig::extract_clean_id(raw);
        assert_eq!(GameConfig::extract_clean_id(&once), once);
    }
}

#[test]
fn gist_url_round_trip() {
    let url = GameConfig::get_gist_url("e81d7f6b0f9c");
    assert_eq!(url, "https://api.github.com/gists/e81d7f6b0f9c");
    assert_eq!(GameConfig::extract_clean_id(&url), "e81d7f6b0f9c");
    assert!(url.starts_with(GIST_BASE_API));
}

#[test]
fn application_paths() {
    let app = GameConfig::get_app_config_dir("/home/u");
    assert_eq!(app, "/home/u/.local/share/cyber-note");
    assert_eq!(GameConfig::get_unified_config_path(&app), "/home/u/.local/share/cyber-note/config.json");
    assert_eq!(GameConfig::get_secrets_dir(&app), "/home/u/.local/share/cyber-note/secrets");
    assert_eq!(GameConfig::default_note_dir("/home/u"), "/home/u/.local/share/cyber-note/notes");
    assert_eq!(get_ledger_path(&app), "/home/u/.local/share/cyber-note/key_ledger.json");
    assert_eq!(get_totp_storage_path("/n"), "/n/totp_secrets.json.gpg");
    assert_eq!(get_legacy_totp_storage_path(&app), "/home/u/.local/share/cyber-note/totp_secrets.json");
}

#[test]
fn gpg_user_id_takes_first_configured_source() {
    let sources = vec![None, some("   "), some("  ABCDEF0123456789 \n"), some("other")];
    assert_eq!(GameConfig::first_configured_source(&sources), Some(2));
    assert_eq!(GameConfig::get_gpg_user_id(&sources), Ok("ABCDEF0123456789".to_string()));
}

#[test]
fn gpg_user_id_refuses_ssh_keys() {
    let sources = vec![some("ssh-ed25519 AAAAC3Nza"), some("ABCDEF01")];
    let r = GameConfig::get_gpg_user_id(&sources);
    assert_eq!(r, Err("安全合規違規：系統嚴格鎖定 GPG 金鑰，禁止使用 SSH 金鑰！".to_string()));
}

#[test]
fn gpg_user_id_unconfigured() {
    let sources: Vec<Option<String>> = vec![None, some(""), some(" \t")];
    assert_eq!(
        GameConfig::get_gpg_user_id(&sources),
        Err("未配置 GPG 金鑰，請執行 'a --init' 進行配置。".to_string())
    );
}

#[test]
fn gist_id_sources() {
    let sources = vec![None, some("https://gist.github.com/me/1234abcd/")];
    assert_eq!(GameConfig::get_gist_id(&sources), Ok("1234abcd".to_string()));
    let none: Vec<Option<String>> = vec![None, None];
    assert_eq!(
        GameConfig::get_gist_id(&none),
        Err("未配置雲端 Gist ID，請執行 'a --init' 進行配置。".to_string())
    );
}

#[test]
fn note_dir_precedence() {
    let sources = vec![some(" ~/BOok/NOte "), some("/ignored")];
    assert_eq!(GameConfig::get_note_dir(Some("~/env"), &sources, "/home/u"), "/home/u/env");
    assert_eq!(GameConfig::get_note_dir(None, &sources, "/home/u"), "/home/u/BOok/NOte");
    let blank = vec![some("  "), None];
    assert_eq!(
        GameConfig::get_note_dir(None, &blank, "/home/u"),
        "/home/u/.local/share/cyber-note/notes"
    );
}

#[test]
fn migrated_config_reads_first_readable_files() {
    let dirs = vec![None, some(" /notes \n"), some("/later")];
    let keys = vec![some(""), some("KEY")];
    let gists: Vec<Option<String>> = vec![None, None, None];
    let c = GameConfig::migrated_config(&dirs, &keys, &gists);
    assert_eq!(c.note_dir, some("/notes"));
    assert_eq!(c.key_id, some(""));
    assert_eq!(c.gist_id, None);
    assert_eq!(c.token_path, None);
}

#[test]
fn default_config_is_empty() {
    let c = AppUnifiedConfig::default();
    assert!(c.note_dir.is_none() && c.key_id.is_none() && c.gist_id.is_none());
    assert!(c.web_port.is_none() && c.cached_remote_files.is_none());
}

#[test]
fn prompt_answers() {
    assert_eq!(prompt_answer("  value \n", Some("def")), "value");
    assert_eq!(prompt_answer("   \n", Some("def")), "def");
    assert_eq!(prompt_answer("", None), "");
    assert_eq!(current_as_default(""), None);
    assert_eq!(current_as_default("k"), Some("k"));
    assert_eq!(token_prompt_default(true), Some("保留現有加密憑證"));
    assert_eq!(token_prompt_default(false), None);
}

#[test]
fn token_steps() {
    assert!(matches!(token_step("ghp_x", false), TokenStep::Store(t) if t == "ghp_x"));
    assert!(matches!(token_step("保留現有加密憑證", true), TokenStep::Keep));
    assert!(matches!(token_step("", true), TokenStep::Keep));
    assert!(matches!(token_step("", false), TokenStep::Skip));
}

#[test]
fn key_steps() {
    assert!(matches!(key_step(""), KeyStep::Done));
    assert!(matches!(key_step("ABCD1234"), KeyStep::Save(k) if k == "ABCD1234"));
    assert!(matches!(key_step("~/.ssh/id_rsa"), KeyStep::Retry(_)));
}

#[test]
fn finish_setup_records_outcome() {
    let mut c = AppUnifiedConfig::default();
    c.key_id = some("old");
    c.web_port = Some(4000);
    finish_setup(
        &mut c,
        "/n".to_string(),
        Err("none".to_string()),
        Ok("g1".to_string()),
        "/s/token.gpg".to_string(),
        "2026-01-01T00:00:00+00:00".to_string(),
    );
    assert_eq!(c.note_dir, some("/n"));
    assert_eq!(c.key_id, some("old"));
    assert_eq!(c.gist_id, some("g1"));
    assert_eq!(c.token_path, some("/s/token.gpg"));
    assert_eq!(c.last_updated, some("2026-01-01T00:00:00+00:00"));
    assert_eq!(c.web_port, Some(4000));
}

#[test]
fn token_file_choice_order() {
    assert_eq!(token_file_choice(true, true, true), 0);
    assert_eq!(token_file_choice(false, true, true), 1);
    assert_eq!(token_file_choice(false, false, true), 2);
    assert_eq!(token_file_choice(false, false, false), 0);
}

#[test]
fn decrypted_token() {
    assert_eq!(token_from_decrypted(" ghp_abc \n"), Ok("ghp_abc".to_string()));
    assert_eq!(token_from_decrypted("\n  "), Err("解密後的 Token 內容為空".to_string()));
}
