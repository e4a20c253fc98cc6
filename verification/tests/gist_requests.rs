use cyber_note::gist::{
    clean_slate_request, create_outcome, delete_file_outcome, delete_file_patch,
    delete_gist_outcome, fetch_outcome, list_outcome, replace_outcome, replace_patch,
    success_code, sync_outcome, sync_patch, BodyRead, HttpReply,
};

fn answered(code: u16, status: &str) -> HttpReply {
    HttpReply::Answered { code, status: status.to_string() }
}

fn failed(timeout: bool, m: &str) -> HttpReply {
    HttpReply::Failed { timeout, message: m.to_string() }
}

#[test]
fn patches_touch_only_named_files() {
    let p = sync_patch("", "2026.note.gpg");
    assert_eq!(p.files.len(), 1);
    assert_eq!(p.files[0].name, "2026.note.gpg");
    assert_eq!(p.files[0].content, Some("\n".to_string()));
    assert!(p.description.is_some());
    let p = sync_patch("body", "x");
    assert_eq!(p.files[0].content, Some("body".to_string()));
    let p = replace_patch(Some("plain.txt"), "plain.txt.gpg", "CIPHER");
    assert_eq!(p.files.len(), 2);
    assert_eq!(p.files[1].name, "plain.txt");
    assert_eq!(p.files[1].content, None);
    let p = replace_patch(Some("same"), "same", "c");
    assert_eq!(p.files.len(), 1);
    let p = replace_patch(None, "n", "c");
    assert_eq!(p.files.len(), 1);
    let p = delete_file_patch("gone");
    assert_eq!(p.files[0].name, "gone");
    assert!(p.files[0].content.is_none());
}

#[test]
fn clean_slate_placeholder() {
    let c = clean_slate_request(Vec::new(), "desc", false);
    assert_eq!(c.files.len(), 1);
    assert_eq!(c.files[0].0, "cyber_note_vault.manifest");
    assert!(!c.public);
    let c = clean_slate_request(vec![("a".to_string(), "b".to_string())], "d", true);
    assert_eq!(c.files, vec![("a".to_string(), "b".to_string())]);
    assert_eq!(c.description, "d");
}

#[test]
fn success_codes() {
    assert!(success_code(200));
    assert!(success_code(204));
    assert!(!success_code(301));
    assert!(!success_code(404));
}

#[test]
fn sync_outcomes() {
    assert_eq!(sync_outcome(answered(200, "200 OK")), Ok(()));
    assert_eq!(
        sync_outcome(answered(422, "422 Unprocessable Entity")),
        Err("❌ 雲端拒絕了貨物，狀態碼: 422 Unprocessable Entity".to_string())
    );
    assert_eq!(
        sync_outcome(failed(true, "t")),
        Err("❌ 跨海連線超時：GitHub 連線緩慢或代理未通".to_string())
    );
    assert_eq!(sync_outcome(failed(false, "reset")), Err("❌ 跨海管道斷裂: reset".to_string()));
}

#[test]
fn fetch_outcomes() {
    assert_eq!(
        fetch_outcome(answered(200, "200 OK"), BodyRead::Found(Some("text".to_string())), "f"),
        Ok("text".to_string())
    );
    assert_eq!(
        fetch_outcome(answered(200, "200 OK"), BodyRead::Found(None), "f"),
        Err("❌ 在雲端 Gist 中找不到檔案: f".to_string())
    );
    assert_eq!(
        fetch_outcome(answered(200, "200 OK"), BodyRead::NotJson("eof".to_string()), "f"),
        Err("解析 JSON 失敗: eof".to_string())
    );
    assert_eq!(
        fetch_outcome(answered(200, "200 OK"), BodyRead::Unreadable("io".to_string()), "f"),
        Err("io".to_string())
    );
    assert_eq!(
        fetch_outcome(answered(404, "404 Not Found"), BodyRead::Found(None), "f"),
        Err("❌ 無法取得 Gist 內容，狀態碼: 404 Not Found".to_string())
    );
    assert_eq!(
        fetch_outcome(failed(true, ""), BodyRead::Found(None), "f"),
        Err("❌ 下載請求超時：請檢查網路狀況".to_string())
    );
}

#[test]
fn list_and_create_outcomes() {
    let names = vec!["b".to_string(), "a".to_string()];
    assert_eq!(list_outcome(answered(200, "200 OK"), BodyRead::Found(Some(names.clone()))), Ok(names));
    assert_eq!(
        list_outcome(answered(200, "200 OK"), BodyRead::Found(None)),
        Err("❌ 解析 Gist 檔案架構失敗".to_string())
    );
    assert_eq!(
        list_outcome(failed(false, "dns"), BodyRead::Found(None)),
        Err("❌ 聯絡雲端失敗: dns".to_string())
    );
    assert_eq!(
        create_outcome(answered(201, "201 Created"), "", BodyRead::Found(Some("id1".to_string()))),
        Ok("id1".to_string())
    );
    assert_eq!(
        create_outcome(answered(401, "401 Unauthorized"), "bad token", BodyRead::Found(None)),
        Err("❌ 建立新 Gist 倉庫失敗，狀態碼: 401 Unauthorized (詳情: bad token)".to_string())
    );
}

#[test]
fn delete_and_replace_outcomes() {
    assert_eq!(delete_gist_outcome(answered(204, "204 No Content")), Ok(()));
    assert_eq!(
        delete_gist_outcome(answered(403, "403 Forbidden")),
        Err("❌ 銷毀舊倉庫失敗，狀態碼: 403 Forbidden".to_string())
    );
    assert_eq!(replace_outcome(answered(200, "200 OK"), ""), Ok(()));
    assert_eq!(
        replace_outcome(failed(true, "slow"), ""),
        Err("❌ 連線 GitHub API 失敗: slow".to_string())
    );
    assert_eq!(
        delete_file_outcome(answered(422, "422"), "missing_field"),
        Err("❌ 刪除雲端檔案失敗，狀態碼: 422 (詳情: missing_field)".to_string())
    );
}

use cyber_note::gist::{
    create_from_body, details_from_body, fetch_from_body, head_version_from_body, list_from_body,
};

fn ok_body(s: &str) -> Result<String, String> {
    Ok(s.to_string())
}

const GIST: &str = r#"{"id":"abc","files":{"b.txt":{"content":"B","size":1},"a.gpg":{"content":"A","size":7},"n":{"size":"x"}},"history":[{"version":"v2"},{"version":"v1"}]}"#;

#[test]
fn fetch_reads_file_content_from_body() {
    assert_eq!(fetch_from_body(answered(200, "200 OK"), ok_body(GIST), "a.gpg"), Ok("A".to_string()));
    assert_eq!(
        fetch_from_body(answered(200, "200 OK"), ok_body(GIST), "zz"),
        Err("❌ 在雲端 Gist 中找不到檔案: zz".to_string())
    );
    assert_eq!(
        fetch_from_body(answered(200, "200 OK"), ok_body(GIST), "n"),
        Err("❌ 在雲端 Gist 中找不到檔案: n".to_string())
    );
    assert!(fetch_from_body(answered(200, "200 OK"), ok_body("not json"), "a")
        .unwrap_err()
        .starts_with("解析 JSON 失敗: "));
    assert_eq!(
        fetch_from_body(answered(200, "200 OK"), Err("read".to_string()), "a"),
        Err("read".to_string())
    );
    assert_eq!(
        fetch_from_body(answered(404, "404 Not Found"), ok_body(GIST), "a.gpg"),
        Err("❌ 無法取得 Gist 內容，狀態碼: 404 Not Found".to_string())
    );
}

#[test]
fn list_reads_every_file_name_once() {
    let mut names = list_from_body(answered(200, "200 OK"), ok_body(GIST)).unwrap();
    names.sort();
    assert_eq!(names, vec!["a.gpg".to_string(), "b.txt".to_string(), "n".to_string()]);
    assert_eq!(
        list_from_body(answered(200, "200 OK"), ok_body(r#"{"files":3}"#)),
        Err("❌ 解析 Gist 檔案架構失敗".to_string())
    );
    assert!(list_from_body(answered(200, "200 OK"), ok_body("{")).unwrap_err().starts_with("解析 JSON 失敗: "));
}

#[test]
fn details_read_sizes() {
    let mut d = details_from_body(answered(200, "200 OK"), ok_body(GIST)).unwrap();
    d.sort();
    assert_eq!(d, vec![("a.gpg".to_string(), 7), ("b.txt".to_string(), 1), ("n".to_string(), 0)]);
}

#[test]
fn new_id_and_head_version() {
    assert_eq!(create_from_body(answered(201, "201 Created"), "", ok_body(GIST)), Ok("abc".to_string()));
    assert_eq!(
        create_from_body(answered(201, "201 Created"), "", ok_body("{}")),
        Err("❌ 雲端未回傳有效的 Gist ID".to_string())
    );
    assert_eq!(head_version_from_body(answered(200, "200 OK"), ok_body(GIST)), Ok("v2".to_string()));
    assert_eq!(
        head_version_from_body(answered(200, "200 OK"), ok_body("{}")),
        Err("❌ 雲端未回傳修訂版本".to_string())
    );
}
