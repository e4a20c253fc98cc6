use vstd::prelude::*;

use crate::text::{concat, owned, views};

verus! {

/// One file of a Gist update: its new content, or `None` to delete it.
pub struct GistFileChange {
    pub name: String,
    pub content: Option<String>,
}

/// The body of a Gist update (`PATCH`): an optional new description and file changes.
pub struct GistPatch {
    pub description: Option<String>,
    pub files: Vec<GistFileChange>,
}

/// The body that creates a Gist (`POST`).
pub struct GistCreate {
    pub description: String,
    pub public: bool,
    pub files: Vec<(String, String)>,
}

/// What came back from the Gist API: the status code with its display text, or a failure
/// to get an answer (whether it timed out, and its message).
pub enum HttpReply {
    Answered { code: u16, status: String },
    Failed { timeout: bool, message: String },
}

/// The body of an answer, read and decoded as JSON, with the part that was asked for.
pub enum BodyRead<T> {
    /// The body could not be read (message).
    Unreadable(String),
    /// The body is not JSON (parser message).
    NotJson(String),
    /// The asked-for part, when the JSON holds it.
    Found(Option<T>),
}

/// The description put on every Gist update of a note.
pub open spec fn sync_description() -> Seq<char> {
    "Cyber-Forge 赛博灵感管家 自动云端加密备份法典"@
}

/// The file that an empty vault is created with.
pub open spec fn placeholder_name() -> Seq<char> {
    "cyber_note_vault.manifest"@
}

/// The text of the file that an empty vault is created with.
pub open spec fn placeholder_text() -> Seq<char> {
    "Cyber-NOte 乾淨無痕加密保險庫已初始化 (修訂歷史已抹除)"@
}

/// A 2xx status code.
pub open spec fn is_success(code: u16) -> bool {
    200 <= code && code < 300
}

/// Tells whether a status code is a success (2xx).
pub fn success_code(code: u16) -> (b: bool)
    ensures
        b == is_success(code),
{
    200 <= code && code < 300
}

/// The update that writes `content` to `file_name` (a single newline for empty content,
/// which the API would refuse), with the note description.
pub fn sync_patch(content: &str, file_name: &str) -> (p: GistPatch)
    ensures
        p.description matches Some(d) && d@ == sync_description(),
        p.files@.len() == 1,
        p.files@[0].name@ == file_name@,
        p.files@[0].content matches Some(c) && c@ == if content@.len() == 0 {
            "\n"@
        } else {
            content@
        },
{
    let safe = if content.is_empty() {
        owned("\n")
    } else {
        owned(content)
    };
    let mut files: Vec<GistFileChange> = Vec::new();
    files.push(GistFileChange { name: owned(file_name), content: Some(safe) });
    GistPatch { description: Some(owned("Cyber-Forge 赛博灵感管家 自动云端加密备份法典")), files }
}

/// The update that publishes `new_file` and, when `old_file` is another file, deletes it
/// in the same request.
pub fn replace_patch(old_file: Option<&str>, new_file: &str, new_content: &str) -> (p: GistPatch)
    ensures
        p.description is None,
        p.files@.len() >= 1,
        p.files@[0].name@ == new_file@,
        p.files@[0].content matches Some(c) && c@ == new_content@,
        p.files@.len() == match old_file {
            Some(old) => if old@ != new_file@ {
                2nat
            } else {
                1nat
            },
            None => 1nat,
        },
        p.files@.len() == 2 ==> (old_file matches Some(old) && p.files@[1].name@ == old@
            && p.files@[1].content is None),
{
    let mut files: Vec<GistFileChange> = Vec::new();
    files.push(GistFileChange { name: owned(new_file), content: Some(owned(new_content)) });
    match old_file {
        Some(old) => {
            if !crate::text::str_eq(old, new_file) {
                files.push(GistFileChange { name: owned(old), content: None });
            }
        },
        None => {},
    }
    GistPatch { description: None, files }
}

/// The update that deletes `file_name`.
pub fn delete_file_patch(file_name: &str) -> (p: GistPatch)
    ensures
        p.description is None,
        p.files@.len() == 1,
        p.files@[0].name@ == file_name@,
        p.files@[0].content is None,
{
    let mut files: Vec<GistFileChange> = Vec::new();
    files.push(GistFileChange { name: owned(file_name), content: None });
    GistPatch { description: None, files }
}

/// The request that creates a fresh Gist holding `files` (or, when there are none, a
/// placeholder file, since a Gist cannot be empty).
pub fn clean_slate_request(files: Vec<(String, String)>, description: &str, is_public: bool) -> (c: GistCreate)
    ensures
        c.description@ == description@,
        c.public == is_public,
        files@.len() > 0 ==> c.files@ == files@,
        files@.len() == 0 ==> c.files@.len() == 1 && c.files@[0].0@ == placeholder_name()
            && c.files@[0].1@ == placeholder_text(),
{
    let mut out = files;
    if out.len() == 0 {
        out.push(
            (
                owned("cyber_note_vault.manifest"),
                owned("Cyber-NOte 乾淨無痕加密保險庫已初始化 (修訂歷史已抹除)"),
            ),
        );
    }
    GistCreate { description: owned(description), public: is_public, files: out }
}

/// `prefix` then `detail`.
fn message(prefix: &str, detail: &str) -> (m: String)
    ensures
        m@ == prefix@ + detail@,
{
    concat(prefix, detail)
}

/// The outcome of writing a note file: success on a 2xx answer, else the refusal with the
/// status, a timeout message, or the transport error.
pub fn sync_outcome(reply: HttpReply) -> (r: Result<(), String>)
    ensures
        match reply {
            HttpReply::Answered { code, status } => if is_success(code) {
                r is Ok
            } else {
                r matches Err(e) && e@ == "❌ 雲端拒絕了貨物，狀態碼: "@ + status@
            },
            HttpReply::Failed { timeout: true, message: _ } => r matches Err(e) && e@
                == "❌ 跨海連線超時：GitHub 連線緩慢或代理未通"@,
            HttpReply::Failed { timeout: false, message: m } => r matches Err(e) && e@ == "❌ 跨海管道斷裂: "@
                + m@,
        },
{
    match reply {
        HttpReply::Answered { code, status } => {
            if success_code(code) {
                Ok(())
            } else {
                Err(message("❌ 雲端拒絕了貨物，狀態碼: ", status.as_str()))
            }
        },
        HttpReply::Failed { timeout: true, message: _ } => Err(
            owned("❌ 跨海連線超時：GitHub 連線緩慢或代理未通"),
        ),
        HttpReply::Failed { timeout: false, message: m } => Err(message("❌ 跨海管道斷裂: ", m.as_str())),
    }
}

/// The outcome of reading a file of the Gist: its content, or why it could not be had
/// (status, unreadable body, invalid JSON, missing file, timeout, transport error).
pub fn fetch_outcome(reply: HttpReply, body: BodyRead<String>, file_name: &str) -> (r: Result<String, String>)
    ensures
        match reply {
            HttpReply::Answered { code, status } => if !is_success(code) {
                r matches Err(e) && e@ == "❌ 無法取得 Gist 內容，狀態碼: "@ + status@
            } else {
                match body {
                    BodyRead::Unreadable(m) => r matches Err(e) && e@ == m@,
                    BodyRead::NotJson(m) => r matches Err(e) && e@ == "解析 JSON 失敗: "@ + m@,
                    BodyRead::Found(Some(c)) => r matches Ok(t) && t@ == c@,
                    BodyRead::Found(None) => r matches Err(e) && e@ == "❌ 在雲端 Gist 中找不到檔案: "@
                        + file_name@,
                }
            },
            HttpReply::Failed { timeout: true, message: _ } => r matches Err(e) && e@
                == "❌ 下載請求超時：請檢查網路狀況"@,
            HttpReply::Failed { timeout: false, message: m } => r matches Err(e) && e@ == "❌ 聯絡雲端失敗: "@
                + m@,
        },
{
    match reply {
        HttpReply::Answered { code, status } => {
            if !success_code(code) {
                return Err(message("❌ 無法取得 Gist 內容，狀態碼: ", status.as_str()));
            }
            match body {
                BodyRead::Unreadable(m) => Err(m),
                BodyRead::NotJson(m) => Err(message("解析 JSON 失敗: ", m.as_str())),
                BodyRead::Found(Some(c)) => Ok(c),
                BodyRead::Found(None) => Err(message("❌ 在雲端 Gist 中找不到檔案: ", file_name)),
            }
        },
        HttpReply::Failed { timeout: true, message: _ } => Err(owned("❌ 下載請求超時：請檢查網路狀況")),
        HttpReply::Failed { timeout: false, message: m } => Err(message("❌ 聯絡雲端失敗: ", m.as_str())),
    }
}

/// The outcome of listing the Gist's files: their names in the order the answer gives
/// them, or why they could not be had.
pub fn list_outcome(reply: HttpReply, body: BodyRead<Vec<String>>) -> (r: Result<Vec<String>, String>)
    ensures
        match reply {
            HttpReply::Answered { code, status } => if !is_success(code) {
                r matches Err(e) && e@ == "❌ 無法獲取雲端清單，狀態碼: "@ + status@
            } else {
                match body {
                    BodyRead::Unreadable(m) => r matches Err(e) && e@ == m@,
                    BodyRead::NotJson(m) => r matches Err(e) && e@ == "解析 JSON 失敗: "@ + m@,
                    BodyRead::Found(Some(names)) => r matches Ok(v) && views(v@) == views(names@),
                    BodyRead::Found(None) => r matches Err(e) && e@ == "❌ 解析 Gist 檔案架構失敗"@,
                }
            },
            HttpReply::Failed { timeout: true, message: _ } => r matches Err(e) && e@
                == "❌ 掃描請求超時：請檢查網路連線"@,
            HttpReply::Failed { timeout: false, message: m } => r matches Err(e) && e@ == "❌ 聯絡雲端失敗: "@
                + m@,
        },
{
    match reply {
        HttpReply::Answered { code, status } => {
            if !success_code(code) {
                return Err(message("❌ 無法獲取雲端清單，狀態碼: ", status.as_str()));
            }
            match body {
                BodyRead::Unreadable(m) => Err(m),
                BodyRead::NotJson(m) => Err(message("解析 JSON 失敗: ", m.as_str())),
                BodyRead::Found(Some(names)) => Ok(names),
                BodyRead::Found(None) => Err(owned("❌ 解析 Gist 檔案架構失敗")),
            }
        },
        HttpReply::Failed { timeout: true, message: _ } => Err(owned("❌ 掃描請求超時：請檢查網路連線")),
        HttpReply::Failed { timeout: false, message: m } => Err(message("❌ 聯絡雲端失敗: ", m.as_str())),
    }
}

/// The refusal of a request with the status and the answer's text as details.
fn status_with_details(prefix: &str, status: &str, details: &str) -> (m: String)
    ensures
        m@ == prefix@ + status@ + " (詳情: "@ + details@ + ")"@,
{
    let a = concat(prefix, status);
    let b = concat(a.as_str(), " (詳情: ");
    let c = concat(b.as_str(), details);
    concat(c.as_str(), ")")
}

/// The outcome of creating a Gist: its new ID, or why it failed. `details` is the text of
/// a refused answer (empty when unreadable).
pub fn create_outcome(reply: HttpReply, details: &str, body: BodyRead<String>) -> (r: Result<String, String>)
    ensures
        match reply {
            HttpReply::Answered { code, status } => if !is_success(code) {
                r matches Err(e) && e@ == "❌ 建立新 Gist 倉庫失敗，狀態碼: "@ + status@ + " (詳情: "@
                    + details@ + ")"@
            } else {
                match body {
                    BodyRead::Unreadable(m) => r matches Err(e) && e@ == m@,
                    BodyRead::NotJson(m) => r matches Err(e) && e@ == "解析 JSON 失敗: "@ + m@,
                    BodyRead::Found(Some(id)) => r matches Ok(t) && t@ == id@,
                    BodyRead::Found(None) => r matches Err(e) && e@ == "❌ 雲端未回傳有效的 Gist ID"@,
                }
            },
            HttpReply::Failed { timeout: _, message: m } => r matches Err(e) && e@
                == "❌ 連線 GitHub API 失敗: "@ + m@,
        },
{
    match reply {
        HttpReply::Answered { code, status } => {
            if !success_code(code) {
                return Err(
                    status_with_details("❌ 建立新 Gist 倉庫失敗，狀態碼: ", status.as_str(), details),
                );
            }
            match body {
                BodyRead::Unreadable(m) => Err(m),
                BodyRead::NotJson(m) => Err(message("解析 JSON 失敗: ", m.as_str())),
                BodyRead::Found(Some(id)) => Ok(id),
                BodyRead::Found(None) => Err(owned("❌ 雲端未回傳有效的 Gist ID")),
            }
        },
        HttpReply::Failed { timeout: _, message: m } => Err(
            message("❌ 連線 GitHub API 失敗: ", m.as_str()),
        ),
    }
}

/// The outcome of deleting a whole Gist: success on a 2xx (or 204) answer.
pub fn delete_gist_outcome(reply: HttpReply) -> (r: Result<(), String>)
    ensures
        match reply {
            HttpReply::Answered { code, status } => if is_success(code) || code == 204 {
                r is Ok
            } else {
                r matches Err(e) && e@ == "❌ 銷毀舊倉庫失敗，狀態碼: "@ + status@
            },
            HttpReply::Failed { timeout: _, message: m } => r matches Err(e) && e@
                == "❌ 發送刪除請求失敗: "@ + m@,
        },
{
    match reply {
        HttpReply::Answered { code, status } => {
            if success_code(code) || code == 204 {
                Ok(())
            } else {
                Err(message("❌ 銷毀舊倉庫失敗，狀態碼: ", status.as_str()))
            }
        },
        HttpReply::Failed { timeout: _, message: m } => Err(
            message("❌ 發送刪除請求失敗: ", m.as_str()),
        ),
    }
}

/// The outcome of publishing a file in place of another: success on a 2xx answer, else the
/// refusal with the status and the answer's text (`details`).
pub fn replace_outcome(reply: HttpReply, details: &str) -> (r: Result<(), String>)
    ensures
        match reply {
            HttpReply::Answered { code, status } => if is_success(code) {
                r is Ok
            } else {
                r matches Err(e) && e@ == "❌ 遠端檔案替換失敗，狀態碼: "@ + status@ + " (詳情: "@
                    + details@ + ")"@
            },
            HttpReply::Failed { timeout: _, message: m } => r matches Err(e) && e@
                == "❌ 連線 GitHub API 失敗: "@ + m@,
        },
{
    match reply {
        HttpReply::Answered { code, status } => {
            if success_code(code) {
                Ok(())
            } else {
                Err(status_with_details("❌ 遠端檔案替換失敗，狀態碼: ", status.as_str(), details))
            }
        },
        HttpReply::Failed { timeout: _, message: m } => Err(
            message("❌ 連線 GitHub API 失敗: ", m.as_str()),
        ),
    }
}

/// The outcome of deleting one file of the Gist: success on a 2xx answer, else the
/// refusal with the status and the answer's text (`details`).
pub fn delete_file_outcome(reply: HttpReply, details: &str) -> (r: Result<(), String>)
    ensures
        match reply {
            HttpReply::Answered { code, status } => if is_success(code) {
                r is Ok
            } else {
                r matches Err(e) && e@ == "❌ 刪除雲端檔案失敗，狀態碼: "@ + status@ + " (詳情: "@
                    + details@ + ")"@
            },
            HttpReply::Failed { timeout: _, message: m } => r matches Err(e) && e@
                == "❌ 發送刪除請求失敗: "@ + m@,
        },
{
    match reply {
        HttpReply::Answered { code, status } => {
            if success_code(code) {
                Ok(())
            } else {
                Err(status_with_details("❌ 刪除雲端檔案失敗，狀態碼: ", status.as_str(), details))
            }
        },
        HttpReply::Failed { timeout: _, message: m } => Err(
            message("❌ 發送刪除請求失敗: ", m.as_str()),
        ),
    }
}

/// The text of an optional string.
pub open spec fn opt_chars(o: Option<String>) -> Option<Seq<char>> {
    match o {
        Some(t) => Some(t@),
        None => None,
    }
}

/// A result of texts as a result of character sequences.
pub open spec fn result_chars(r: Result<String, String>) -> Result<Seq<char>, Seq<char>> {
    match r {
        Ok(t) => Ok(t@),
        Err(e) => Err(e@),
    }
}

/// What `serde_json` reads from a Gist answer `body` at `files.<name>.content`: the
/// parser's message when the body is not JSON, else the text there when it is a string.
pub uninterp spec fn gist_file_content_spec(body: Seq<char>, name: Seq<char>) -> Result<
    Option<Seq<char>>,
    Seq<char>,
>;

/// What `serde_json` reads from a Gist answer `body` as the keys of its `files` object:
/// the parser's message when the body is not JSON, else the keys when `files` is an object.
pub uninterp spec fn gist_file_names_spec(body: Seq<char>) -> Result<Option<Seq<Seq<char>>>, Seq<char>>;

/// What `serde_json` reads from a Gist answer `body` as the files with their `size`: the
/// parser's message when the body is not JSON, else each key of `files` (when it is an
/// object) with its `size` when that is an unsigned number.
pub uninterp spec fn gist_file_sizes_spec(body: Seq<char>) -> Result<
    Option<Seq<(Seq<char>, Option<u64>)>>,
    Seq<char>,
>;

/// What `serde_json` reads from an answer `body` at `id`: the parser's message when the
/// body is not JSON, else the text there when it is a string.
pub uninterp spec fn gist_new_id_spec(body: Seq<char>) -> Result<Option<Seq<char>>, Seq<char>>;

/// What `serde_json` reads from a Gist answer `body` at `history[0].version`: the parser's
/// message when the body is not JSON, else the text there when it is a string.
pub uninterp spec fn gist_head_version_spec(body: Seq<char>) -> Result<Option<Seq<char>>, Seq<char>>;

/// Parses `body` with `serde_json::from_str::<Value>` and reads `files[name]["content"]`
/// with `Value::as_str`; the parser's error is given by its `to_string`.
/// Claims: the outcome is the named function of the body and the name.
#[verifier::external_body]
fn gist_file_content(body: &str, name: &str) -> (r: Result<Option<String>, String>)
    ensures
        match r {
            Ok(c) => gist_file_content_spec(body@, name@) == Ok::<Option<Seq<char>>, Seq<char>>(
                opt_chars(c),
            ),
            Err(e) => gist_file_content_spec(body@, name@) == Err::<Option<Seq<char>>, Seq<char>>(e@),
        },
{
    match serde_json::from_str::<serde_json::Value>(body) {
        Ok(v) => Ok(v["files"][name]["content"].as_str().map(|c| c.to_string())),
        Err(e) => Err(e.to_string()),
    }
}

/// Parses `body` with `serde_json::from_str::<Value>` and lists the keys of the object at
/// `files` (`Value::as_object`, `Map::keys`).
/// Claims: the outcome is the named function of the body, and no key is listed twice (the
/// keys of a `serde_json::Map` are those of a map).
#[verifier::external_body]
fn gist_file_names(body: &str) -> (r: Result<Option<Vec<String>>, String>)
    ensures
        match r {
            Ok(Some(ns)) => gist_file_names_spec(body@) == Ok::<Option<Seq<Seq<char>>>, Seq<char>>(
                Some(views(ns@)),
            ) && forall|i: int, j: int|
                0 <= i < j < ns@.len() ==> #[trigger] ns@[i]@ != #[trigger] ns@[j]@,
            Ok(None) => gist_file_names_spec(body@) == Ok::<Option<Seq<Seq<char>>>, Seq<char>>(None),
            Err(e) => gist_file_names_spec(body@) == Err::<Option<Seq<Seq<char>>>, Seq<char>>(e@),
        },
{
    match serde_json::from_str::<serde_json::Value>(body) {
        Ok(v) => match v["files"].as_object() {
            Some(o) => Ok(Some(o.keys().cloned().collect())),
            None => Ok(None),
        },
        Err(e) => Err(e.to_string()),
    }
}

/// The file entries as plain values: each name with its size when there is one.
pub open spec fn size_entries(v: Seq<(String, Option<u64>)>) -> Seq<(Seq<char>, Option<u64>)> {
    v.map_values(|e: (String, Option<u64>)| (e.0@, e.1))
}

/// Parses `body` with `serde_json::from_str::<Value>` and lists the keys of the object at
/// `files`, each with its `size` read by `Value::as_u64`.
/// Claims: the outcome is the named function of the body.
#[verifier::external_body]
fn gist_file_sizes(body: &str) -> (r: Result<Option<Vec<(String, Option<u64>)>>, String>)
    ensures
        match r {
            Ok(Some(es)) => gist_file_sizes_spec(body@) == Ok::<
                Option<Seq<(Seq<char>, Option<u64>)>>,
                Seq<char>,
            >(Some(size_entries(es@))),
            Ok(None) => gist_file_sizes_spec(body@) == Ok::<
                Option<Seq<(Seq<char>, Option<u64>)>>,
                Seq<char>,
            >(None),
            Err(e) => gist_file_sizes_spec(body@) == Err::<
                Option<Seq<(Seq<char>, Option<u64>)>>,
                Seq<char>,
            >(e@),
        },
{
    match serde_json::from_str::<serde_json::Value>(body) {
        Ok(v) => match v["files"].as_object() {
            Some(o) => Ok(Some(o.iter().map(|(k, f)| (k.clone(), f["size"].as_u64())).collect())),
            None => Ok(None),
        },
        Err(e) => Err(e.to_string()),
    }
}

/// Parses `body` with `serde_json::from_str::<Value>` and reads `id` with `Value::as_str`.
/// Claims: the outcome is the named function of the body.
#[verifier::external_body]
fn gist_new_id(body: &str) -> (r: Result<Option<String>, String>)
    ensures
        match r {
            Ok(c) => gist_new_id_spec(body@) == Ok::<Option<Seq<char>>, Seq<char>>(opt_chars(c)),
            Err(e) => gist_new_id_spec(body@) == Err::<Option<Seq<char>>, Seq<char>>(e@),
        },
{
    match serde_json::from_str::<serde_json::Value>(body) {
        Ok(v) => Ok(v["id"].as_str().map(|c| c.to_string())),
        Err(e) => Err(e.to_string()),
    }
}

/// Parses `body` with `serde_json::from_str::<Value>` and reads `history[0]["version"]`
/// with `Value::as_str`.
/// Claims: the outcome is the named function of the body.
#[verifier::external_body]
fn gist_head_version(body: &str) -> (r: Result<Option<String>, String>)
    ensures
        match r {
            Ok(c) => gist_head_version_spec(body@) == Ok::<Option<Seq<char>>, Seq<char>>(
                opt_chars(c),
            ),
            Err(e) => gist_head_version_spec(body@) == Err::<Option<Seq<char>>, Seq<char>>(e@),
        },
{
    match serde_json::from_str::<serde_json::Value>(body) {
        Ok(v) => Ok(v["history"][0]["version"].as_str().map(|c| c.to_string())),
        Err(e) => Err(e.to_string()),
    }
}

/// The outcome of reading the Gist file `name` from an answer and its body (the body's
/// text, or why it could not be read).
pub open spec fn fetch_spec(reply: HttpReply, body: Result<Seq<char>, Seq<char>>, name: Seq<char>) -> Result<
    Seq<char>,
    Seq<char>,
> {
    match reply {
        HttpReply::Answered { code, status } => if !is_success(code) {
            Err("❌ 無法取得 Gist 內容，狀態碼: "@ + status@)
        } else {
            match body {
                Err(m) => Err(m),
                Ok(b) => match gist_file_content_spec(b, name) {
                    Err(e) => Err("解析 JSON 失敗: "@ + e),
                    Ok(Some(c)) => Ok(c),
                    Ok(None) => Err("❌ 在雲端 Gist 中找不到檔案: "@ + name),
                },
            }
        },
        HttpReply::Failed { timeout, message } => if timeout {
            Err("❌ 下載請求超時：請檢查網路狀況"@)
        } else {
            Err("❌ 聯絡雲端失敗: "@ + message@)
        },
    }
}

/// Reads the content of the Gist file `file_name` from an answer and its body.
pub fn fetch_from_body(reply: HttpReply, body: Result<String, String>, file_name: &str) -> (r: Result<
    String,
    String,
>)
    ensures
        result_chars(r) == fetch_spec(reply, result_chars(body), file_name@),
{
    let read = match body {
        Err(m) => BodyRead::Unreadable(m),
        Ok(b) => match gist_file_content(b.as_str(), file_name) {
            Err(e) => BodyRead::NotJson(e),
            Ok(c) => BodyRead::Found(c),
        },
    };
    fetch_outcome(reply, read, file_name)
}

/// The outcome of listing the Gist's files from an answer and its body.
pub open spec fn list_spec(reply: HttpReply, body: Result<Seq<char>, Seq<char>>) -> Result<
    Seq<Seq<char>>,
    Seq<char>,
> {
    match reply {
        HttpReply::Answered { code, status } => if !is_success(code) {
            Err("❌ 無法獲取雲端清單，狀態碼: "@ + status@)
        } else {
            match body {
                Err(m) => Err(m),
                Ok(b) => match gist_file_names_spec(b) {
                    Err(e) => Err("解析 JSON 失敗: "@ + e),
                    Ok(Some(ns)) => Ok(ns),
                    Ok(None) => Err("❌ 解析 Gist 檔案架構失敗"@),
                },
            }
        },
        HttpReply::Failed { timeout, message } => if timeout {
            Err("❌ 掃描請求超時：請檢查網路連線"@)
        } else {
            Err("❌ 聯絡雲端失敗: "@ + message@)
        },
    }
}

/// Lists the Gist's files from an answer and its body; no name is listed twice.
pub fn list_from_body(reply: HttpReply, body: Result<String, String>) -> (r: Result<Vec<String>, String>)
    ensures
        match r {
            Ok(v) => list_spec(reply, result_chars(body)) == Ok::<Seq<Seq<char>>, Seq<char>>(views(v@))
                && forall|i: int, j: int| 0 <= i < j < v@.len() ==> #[trigger] v@[i]@ != #[trigger] v@[j]@,
            Err(e) => list_spec(reply, result_chars(body)) == Err::<Seq<Seq<char>>, Seq<char>>(e@),
        },
{
    let read = match body {
        Err(m) => BodyRead::Unreadable(m),
        Ok(b) => match gist_file_names(b.as_str()) {
            Err(e) => BodyRead::NotJson(e),
            Ok(ns) => BodyRead::Found(ns),
        },
    };
    let ghost found = read;
    let r = list_outcome(reply, read);
    proof {
        if r is Ok {
            let v = r->Ok_0;
            assert(found matches BodyRead::Found(Some(ns)) && views(v@) == views(ns@));
            let ns = found->Found_0->Some_0;
            assert(views(v@).len() == v@.len());
            assert(views(ns@).len() == ns@.len());
            assert forall|i: int, j: int| 0 <= i < j < v@.len() implies #[trigger] v@[i]@ != #[trigger] v@[j]@ by {
                assert(views(v@)[i] == v@[i]@);
                assert(views(ns@)[i] == ns@[i]@);
                assert(views(v@)[j] == v@[j]@);
                assert(views(ns@)[j] == ns@[j]@);
            }
        }
    }
    r
}

/// The outcome of listing the Gist's files with their sizes (0 when an answer gives none).
pub open spec fn details_spec(reply: HttpReply, body: Result<Seq<char>, Seq<char>>) -> Result<
    Seq<(Seq<char>, u64)>,
    Seq<char>,
> {
    match reply {
        HttpReply::Answered { code, status } => if !is_success(code) {
            Err("❌ 無法獲取雲端清單，狀態碼: "@ + status@)
        } else {
            match body {
                Err(m) => Err(m),
                Ok(b) => match gist_file_sizes_spec(b) {
                    Err(e) => Err("解析 JSON 失敗: "@ + e),
                    Ok(Some(es)) => Ok(
                        es.map_values(
                            |e: (Seq<char>, Option<u64>)|
                                (
                                    e.0,
                                    match e.1 {
                                        Some(n) => n,
                                        None => 0u64,
                                    },
                                ),
                        ),
                    ),
                    Ok(None) => Err("❌ 解析 Gist 檔案架構失敗"@),
                },
            }
        },
        HttpReply::Failed { timeout, message } => if timeout {
            Err("❌ 掃描請求超時：請檢查網路連線"@)
        } else {
            Err("❌ 聯絡雲端失敗: "@ + message@)
        },
    }
}

/// The file entries as plain values.
pub open spec fn detail_entries(v: Seq<(String, u64)>) -> Seq<(Seq<char>, u64)> {
    v.map_values(|e: (String, u64)| (e.0@, e.1))
}

/// Lists the Gist's files with their sizes from an answer and its body.
pub fn details_from_body(reply: HttpReply, body: Result<String, String>) -> (r: Result<
    Vec<(String, u64)>,
    String,
>)
    ensures
        match r {
            Ok(v) => details_spec(reply, result_chars(body)) == Ok::<Seq<(Seq<char>, u64)>, Seq<char>>(
                detail_entries(v@),
            ),
            Err(e) => details_spec(reply, result_chars(body)) == Err::<Seq<(Seq<char>, u64)>, Seq<char>>(
                e@,
            ),
        },
{
    match reply {
        HttpReply::Answered { code, status } => {
            if !success_code(code) {
                return Err(message("❌ 無法獲取雲端清單，狀態碼: ", status.as_str()));
            }
            match body {
                Err(m) => Err(m),
                Ok(b) => match gist_file_sizes(b.as_str()) {
                    Err(e) => Err(message("解析 JSON 失敗: ", e.as_str())),
                    Ok(None) => Err(owned("❌ 解析 Gist 檔案架構失敗")),
                    Ok(Some(es)) => {
                        let ghost src = size_entries(es@);
                        let mut out: Vec<(String, u64)> = Vec::new();
                        let mut rest = es;
                        let n = rest.len();
                        let mut i: usize = 0;
                        let ghost all = rest@;
                        while i < n
                            invariant
                                n == all.len(),
                                i <= n,
                                src == size_entries(all),
                                rest@ == all.skip(i as int),
                                out@.len() == i,
                                forall|k: int|
                                    0 <= k < i ==> #[trigger] detail_entries(out@)[k] == (
                                        all[k].0@,
                                        match all[k].1 {
                                            Some(s) => s,
                                            None => 0u64,
                                        },
                                    ),
                            decreases n - i,
                        {
                            let (name, size) = rest.remove(0);
                            assert(all.skip(i as int).drop_first() =~= all.skip(i + 1));
                            let sz: u64 = match size {
                                Some(s) => s,
                                None => 0,
                            };
                            let ghost before = out@;
                            out.push((name, sz));
                            assert forall|k: int| 0 <= k < i + 1 implies #[trigger] detail_entries(out@)[k] == (
                                all[k].0@,
                                match all[k].1 {
                                    Some(s) => s,
                                    None => 0u64,
                                },
                            ) by {
                                if k < i {
                                    assert(out@[k] == before[k]);
                                    assert(detail_entries(before)[k] == (before[k].0@, before[k].1));
                                }
                            }
                            i = i + 1;
                        }
                        let ghost want = src.map_values(
                            |e: (Seq<char>, Option<u64>)|
                                (
                                    e.0,
                                    match e.1 {
                                        Some(s) => s,
                                        None => 0u64,
                                    },
                                ),
                        );
                        assert(detail_entries(out@) =~= want);
                        Ok(out)
                    },
                },
            }
        },
        HttpReply::Failed { timeout, message: m } => {
            if timeout {
                Err(owned("❌ 掃描請求超時：請檢查網路連線"))
            } else {
                Err(message("❌ 聯絡雲端失敗: ", m.as_str()))
            }
        },
    }
}

/// The outcome of creating a Gist, from the answer, the text of a refused answer
/// (`details`) and the body of an accepted one.
pub open spec fn create_spec(reply: HttpReply, details: Seq<char>, body: Result<Seq<char>, Seq<char>>) -> Result<
    Seq<char>,
    Seq<char>,
> {
    match reply {
        HttpReply::Answered { code, status } => if !is_success(code) {
            Err("❌ 建立新 Gist 倉庫失敗，狀態碼: "@ + status@ + " (詳情: "@ + details + ")"@)
        } else {
            match body {
                Err(m) => Err(m),
                Ok(b) => match gist_new_id_spec(b) {
                    Err(e) => Err("解析 JSON 失敗: "@ + e),
                    Ok(Some(id)) => Ok(id),
                    Ok(None) => Err("❌ 雲端未回傳有效的 Gist ID"@),
                },
            }
        },
        HttpReply::Failed { timeout: _, message } => Err("❌ 連線 GitHub API 失敗: "@ + message@),
    }
}

/// Reads the new Gist's ID from the answer to a creation.
pub fn create_from_body(reply: HttpReply, details: &str, body: Result<String, String>) -> (r: Result<
    String,
    String,
>)
    ensures
        result_chars(r) == create_spec(reply, details@, result_chars(body)),
{
    let read = match body {
        Err(m) => BodyRead::Unreadable(m),
        Ok(b) => match gist_new_id(b.as_str()) {
            Err(e) => BodyRead::NotJson(e),
            Ok(c) => BodyRead::Found(c),
        },
    };
    create_outcome(reply, details, read)
}

/// The outcome of reading the Gist's latest revision from an answer and its body.
pub open spec fn head_version_spec(reply: HttpReply, body: Result<Seq<char>, Seq<char>>) -> Result<
    Seq<char>,
    Seq<char>,
> {
    match reply {
        HttpReply::Answered { code, status } => if !is_success(code) {
            Err("❌ 無法取得 Gist 內容，狀態碼: "@ + status@)
        } else {
            match body {
                Err(m) => Err(m),
                Ok(b) => match gist_head_version_spec(b) {
                    Err(e) => Err("解析 JSON 失敗: "@ + e),
                    Ok(Some(v)) => Ok(v),
                    Ok(None) => Err("❌ 雲端未回傳修訂版本"@),
                },
            }
        },
        HttpReply::Failed { timeout, message } => if timeout {
            Err("❌ 下載請求超時：請檢查網路狀況"@)
        } else {
            Err("❌ 聯絡雲端失敗: "@ + message@)
        },
    }
}

/// Reads the version hash of the Gist's latest revision from an answer and its body.
pub fn head_version_from_body(reply: HttpReply, body: Result<String, String>) -> (r: Result<
    String,
    String,
>)
    ensures
        result_chars(r) == head_version_spec(reply, result_chars(body)),
{
    match reply {
        HttpReply::Answered { code, status } => {
            if !success_code(code) {
                return Err(message("❌ 無法取得 Gist 內容，狀態碼: ", status.as_str()));
            }
            match body {
                Err(m) => Err(m),
                Ok(b) => match gist_head_version(b.as_str()) {
                    Err(e) => Err(message("解析 JSON 失敗: ", e.as_str())),
                    Ok(Some(v)) => Ok(v),
                    Ok(None) => Err(owned("❌ 雲端未回傳修訂版本")),
                },
            }
        },
        HttpReply::Failed { timeout, message: m } => {
            if timeout {
                Err(owned("❌ 下載請求超時：請檢查網路狀況"))
            } else {
                Err(message("❌ 聯絡雲端失敗: ", m.as_str()))
            }
        },
    }
}

} // verus!
