use cyber_note::gist::{clean_slate_request, delete_file_patch, replace_patch, GistFileChange, GistPatch};
use cyber_note::json::{
    config_saved_json, create_body, patch_body, rename_body, status_json, web_state_json, StatusFacts,
};

fn parsed(text: &str) -> serde_json::Value {
    serde_json::from_str(text).unwrap()
}

#[test]
fn patch_bodies_escape_and_list_files() {
    let p = GistPatch {
        description: Some("d \"q\"".to_string()),
        files: vec![
            GistFileChange { name: "a.txt".to_string(), content: Some("line1\nline2\t\\ \u{1}".to_string()) },
            GistFileChange { name: "old.txt".to_string(), content: None },
        ],
    };
    let text = patch_body(&p);
    assert_eq!(
        text,
        "{\"description\":\"d \\\"q\\\"\",\"files\":{\"a.txt\":{\"content\":\"line1\\nline2\\t\\\\ \\u0001\"},\"old.txt\":null}}"
    );
    let v = parsed(&text);
    assert_eq!(v["files"]["a.txt"]["content"], "line1\nline2\t\\ \u{1}");
    assert!(v["files"]["old.txt"].is_null());
    assert_eq!(patch_body(&GistPatch { description: None, files: vec![] }), "{\"files\":{}}");
}

#[test]
fn patch_bodies_of_library_patches() {
    assert_eq!(patch_body(&delete_file_patch("x.gpg")), "{\"files\":{\"x.gpg\":null}}");
    let v = parsed(&patch_body(&replace_patch(Some("a"), "a.gpg", "密文")));
    assert_eq!(v["files"]["a.gpg"]["content"], "密文");
    assert!(v["files"]["a"].is_null());
}

#[test]
fn create_and_rename_bodies() {
    let req = clean_slate_request(vec![("n.txt".to_string(), "c".to_string())], "備份", false);
    let text = create_body(&req);
    assert_eq!(text, "{\"description\":\"備份\",\"public\":false,\"files\":{\"n.txt\":{\"content\":\"c\"}}}");
    assert_eq!(parsed(&text)["public"], false);
    assert_eq!(rename_body("a", "b\u{7f}"), "{\"files\":{\"a\":{\"filename\":\"b\u{7f}\"}}}");
}

#[test]
fn web_answers() {
    let v = parsed(config_saved_json());
    assert_eq!(v["success"], true);
    assert_eq!(
        web_state_json("active"),
        "{\"message\":\"Web 網頁端管理引擎已啟動 (ACTIVE)\",\"state\":\"active\"}"
    );
    let v = parsed(&web_state_json("standby"));
    assert_eq!(v["message"], "Web 網頁端管理引擎已切換為待機模式 (STANDBY)");
    let facts = StatusFacts {
        note_dir: "/n".to_string(),
        config_dir: "/c".to_string(),
        unified_config_file: "/c/config.json".to_string(),
        secrets_dir: "/s".to_string(),
        token_path: "/s/token.gpg".to_string(),
        key_id: "K".to_string(),
        gist_id: "未配置".to_string(),
        has_token: true,
        web_state: " standby\n".to_string(),
    };
    let text = status_json(&facts);
    let v = parsed(&text);
    assert_eq!(v["webState"], "standby");
    assert_eq!(v["hasToken"], true);
    assert!(v["notes"].as_array().unwrap().is_empty());
    assert_eq!(v["version"], "0.0.4");
    assert_eq!(v.as_object().unwrap().len(), 15);
    assert!(text.starts_with("{\"binaryPath\":\"a\",\"configDir\":\"/c\","));
}

