use vstd::prelude::*;

use crate::encrypt::lowercase_spec;
use crate::text::{
    chars_of, decimal_spec, decimal_string, has_prefix, has_suffix, owned, parse_usize,
    parse_usize_spec, str_ends_with, str_starts_with, string_of, sub_chars, trim_chars,
    trim_spec, words_spec,
};

verus! {

/// The content type of a served file, chosen by its extension.
pub open spec fn mime_spec(p: Seq<char>) -> Seq<char> {
    if has_suffix(p, ".html"@) {
        "text/html; charset=utf-8"@
    } else if has_suffix(p, ".js"@) || has_suffix(p, ".mjs"@) {
        "application/javascript; charset=utf-8"@
    } else if has_suffix(p, ".css"@) {
        "text/css; charset=utf-8"@
    } else if has_suffix(p, ".json"@) {
        "application/json; charset=utf-8"@
    } else if has_suffix(p, ".svg"@) {
        "image/svg+xml"@
    } else if has_suffix(p, ".png"@) {
        "image/png"@
    } else if has_suffix(p, ".ico"@) {
        "image/x-icon"@
    } else {
        "application/octet-stream"@
    }
}

/// The content type of a served file, chosen by its extension.
pub fn get_mime_type(file_path: &str) -> (r: &'static str)
    ensures
        r@ == mime_spec(file_path@),
{
    if str_ends_with(file_path, ".html") {
        "text/html; charset=utf-8"
    } else if str_ends_with(file_path, ".js") || str_ends_with(file_path, ".mjs") {
        "application/javascript; charset=utf-8"
    } else if str_ends_with(file_path, ".css") {
        "text/css; charset=utf-8"
    } else if str_ends_with(file_path, ".json") {
        "application/json; charset=utf-8"
    } else if str_ends_with(file_path, ".svg") {
        "image/svg+xml"
    } else if str_ends_with(file_path, ".png") {
        "image/png"
    } else if str_ends_with(file_path, ".ico") {
        "image/x-icon"
    } else {
        "application/octet-stream"
    }
}

/// The position of the first `c` in `s`.
pub open spec fn index_of(s: Seq<char>, c: char) -> Option<int>
    decreases s.len(),
{
    if s.len() == 0 {
        None
    } else if s[0] == c {
        Some(0)
    } else {
        match index_of(s.drop_first(), c) {
            Some(i) => Some(i + 1),
            None => None,
        }
    }
}

/// The part of `s` before its first `c` (all of `s` when there is none), as the first
/// item of `str::split(c)`.
pub open spec fn before_char(s: Seq<char>, c: char) -> Seq<char> {
    match index_of(s, c) {
        Some(i) => s.take(i),
        None => s,
    }
}

proof fn lemma_index_of(s: Seq<char>, c: char, i: int)
    requires
        0 <= i <= s.len(),
        forall|j: int| 0 <= j < i ==> s[j] != c,
    ensures
        i < s.len() && s[i] == c ==> index_of(s, c) == Some(i),
        i == s.len() ==> index_of(s, c) is None,
    decreases i,
{
    if i > 0 {
        lemma_index_of(s.drop_first(), c, i - 1);
    }
}

/// The position of the first `c` in `v`.
pub fn find_char(v: &Vec<char>, c: char) -> (r: Option<usize>)
    ensures
        match r {
            Some(i) => index_of(v@, c) == Some(i as int) && i < v@.len(),
            None => index_of(v@, c) is None,
        },
{
    let mut i: usize = 0;
    while i < v.len()
        invariant
            i <= v@.len(),
            forall|j: int| 0 <= j < i ==> v@[j] != c,
        decreases v.len() - i,
    {
        if v[i] == c {
            proof {
                lemma_index_of(v@, c, i as int);
            }
            return Some(i);
        }
        i = i + 1;
    }
    proof {
        lemma_index_of(v@, c, v@.len() as int);
    }
    None
}

/// The characters of `v` before its first `c`.
pub fn before_char_vec(v: &Vec<char>, c: char) -> (r: Vec<char>)
    ensures
        r@ == before_char(v@, c),
{
    match find_char(v, c) {
        Some(i) => {
            let r = sub_chars(v, 0, i);
            assert(r@ =~= v@.take(i as int));
            r
        },
        None => v.clone(),
    }
}

/// The method and the path (without its query) of an HTTP request line.
pub struct RequestLine {
    pub method: String,
    pub path: String,
}

/// Reads an HTTP request line: its first word is the method, its second the target,
/// whose part before `?` is the path. A line of fewer than two words is no request.
pub fn parse_request_line(line: &str) -> (r: Option<RequestLine>)
    ensures
        match r {
            Some(q) => words_spec(line@).len() >= 2 && q.method@ == words_spec(line@)[0]
                && q.path@ == before_char(words_spec(line@)[1], '?'),
            None => words_spec(line@).len() < 2,
        },
{
    let words = crate::text::split_words(&chars_of(line));
    proof {
        assert(words@.map_values(|w: Vec<char>| w@).len() == words@.len());
    }
    if words.len() < 2 {
        return None;
    }
    assert(words@.map_values(|w: Vec<char>| w@)[0] == words@[0]@);
    assert(words@.map_values(|w: Vec<char>| w@)[1] == words@[1]@);
    let path = before_char_vec(&words[1], '?');
    Some(RequestLine { method: string_of(&words[0]), path: string_of(&path) })
}

/// The second `:`-separated field of a header line, as `split(':').nth(1)` gives it.
pub open spec fn header_field(line: Seq<char>) -> Option<Seq<char>> {
    match index_of(line, ':') {
        Some(i) => Some(before_char(line.skip(i + 1), ':')),
        None => None,
    }
}

/// The length that a header line declares: for a line that starts, in lower case, with
/// `content-length:`, the trimmed value parsed as a number, 0 when it does not parse.
pub open spec fn declared_length(line: Seq<char>) -> Option<nat> {
    if has_prefix(lowercase_spec(line), "content-length:"@) {
        match header_field(line) {
            Some(f) => Some(
                match parse_usize_spec(trim_spec(f)) {
                    Some(n) => n,
                    None => 0,
                },
            ),
            None => None,
        }
    } else {
        None
    }
}

/// The body length that a request's header lines declare: the last declaration wins,
/// 0 when there is none.
pub open spec fn content_length_spec(headers: Seq<Seq<char>>) -> nat
    decreases headers.len(),
{
    if headers.len() == 0 {
        0
    } else {
        match declared_length(headers.last()) {
            Some(n) => n,
            None => content_length_spec(headers.drop_last()),
        }
    }
}

/// The length that one header line declares, if it declares one.
pub fn declared_length_of(line: &str) -> (r: Option<usize>)
    ensures
        match r {
            Some(n) => declared_length(line@) == Some(n as nat),
            None => declared_length(line@) is None,
        },
{
    let lower = crate::encrypt::lowercase(line);
    if !str_starts_with(lower.as_str(), "content-length:") {
        return None;
    }
    let v = chars_of(line);
    match find_char(&v, ':') {
        Some(i) => {
            let rest = sub_chars(&v, i + 1, v.len());
            assert(rest@ =~= v@.skip(i + 1));
            let field = before_char_vec(&rest, ':');
            let t = trim_chars(&field);
            match parse_usize(&t) {
                Some(n) => Some(n),
                None => Some(0),
            }
        },
        None => None,
    }
}

/// The body length that a request's header lines declare.
pub fn content_length(headers: &Vec<String>) -> (n: usize)
    ensures
        n == content_length_spec(crate::text::views(headers@)),
{
    let ghost hv = crate::text::views(headers@);
    let mut n: usize = 0;
    let mut i: usize = 0;
    assert(hv.take(0) =~= Seq::<Seq<char>>::empty());
    while i < headers.len()
        invariant
            i <= headers@.len(),
            hv == crate::text::views(headers@),
            n == content_length_spec(hv.take(i as int)),
        decreases headers.len() - i,
    {
        assert(hv.take(i + 1).drop_last() =~= hv.take(i as int));
        assert(hv.take(i + 1).last() == headers@[i as int]@);
        match declared_length_of(headers[i].as_str()) {
            Some(k) => {
                n = k;
            },
            None => {},
        }
        i = i + 1;
    }
    assert(hv.take(headers@.len() as int) =~= hv);
    n
}

/// What the web server does with a request.
#[derive(Clone, Copy, Debug, PartialEq, Eq, Structural)]
pub enum Route {
    /// A CORS preflight: answered with the allowed methods.
    Preflight,
    /// The health probe.
    Health,
    /// The configuration and key status report.
    Status,
    /// A configuration update.
    ConfigUpdate,
    /// The key ledger.
    Ledger,
    /// A change of the web engine's state.
    WebState,
    /// A static file, or the built-in page.
    Static,
}

/// The route of a request by its method and path.
pub open spec fn route_spec(method: Seq<char>, path: Seq<char>) -> Route {
    if method == "OPTIONS"@ {
        Route::Preflight
    } else if path == "/api/health"@ {
        Route::Health
    } else if path == "/api/rust/status"@ {
        Route::Status
    } else if path == "/api/rust/config"@ && method == "POST"@ {
        Route::ConfigUpdate
    } else if path == "/api/ledger"@ {
        Route::Ledger
    } else if path == "/api/web/state"@ && method == "POST"@ {
        Route::WebState
    } else {
        Route::Static
    }
}

/// Chooses what to do with a request.
pub fn route_request(method: &str, path: &str) -> (r: Route)
    ensures
        r == route_spec(method@, path@),
{
    let is_post = crate::text::str_eq(method, "POST");
    if crate::text::str_eq(method, "OPTIONS") {
        Route::Preflight
    } else if crate::text::str_eq(path, "/api/health") {
        Route::Health
    } else if crate::text::str_eq(path, "/api/rust/status") {
        Route::Status
    } else if crate::text::str_eq(path, "/api/rust/config") && is_post {
        Route::ConfigUpdate
    } else if crate::text::str_eq(path, "/api/ledger") {
        Route::Ledger
    } else if crate::text::str_eq(path, "/api/web/state") && is_post {
        Route::WebState
    } else {
        Route::Static
    }
}

/// The whole answer to a CORS preflight request.
pub fn preflight_response() -> (r: &'static str)
    ensures
        r@ == "HTTP/1.1 200 OK\r\nAccess-Control-Allow-Origin: *\r\nAccess-Control-Allow-Methods: GET, POST, OPTIONS\r\nAccess-Control-Allow-Headers: *\r\nContent-Length: 0\r\n\r\n"@,
{
    "HTTP/1.1 200 OK\r\nAccess-Control-Allow-Origin: *\r\nAccess-Control-Allow-Methods: GET, POST, OPTIONS\r\nAccess-Control-Allow-Headers: *\r\nContent-Length: 0\r\n\r\n"
}

/// The body of the health probe's answer.
pub fn health_json() -> (r: &'static str)
    ensures
        r@ == "{\"status\":\"ok\",\"webEngine\":\"active\",\"core\":\"Rust Native Web Engine (Zero-Dependency)\"}"@,
{
    "{\"status\":\"ok\",\"webEngine\":\"active\",\"core\":\"Rust Native Web Engine (Zero-Dependency)\"}"
}

/// An HTTP response carrying `json` with status `code`; its Content-Length is the
/// UTF-8 byte length of the body.
pub open spec fn json_response_spec(code: u16, json: Seq<char>) -> Seq<char> {
    "HTTP/1.1 "@ + decimal_spec(code as nat)
        + " OK\r\nContent-Type: application/json; charset=utf-8\r\nAccess-Control-Allow-Origin: *\r\nContent-Length: "@
        + decimal_spec(vstd::utf8::encode_utf8(json).len()) + "\r\nConnection: close\r\n\r\n"@ + json
}

/// Builds the HTTP response that carries `json` with status `code`.
pub fn json_response(code: u16, json: &str) -> (r: String)
    ensures
        r@ == json_response_spec(code, json@),
{
    let n = json.as_bytes().len();
    let mut r = owned("HTTP/1.1 ");
    r.append(decimal_string(code as u64).as_str());
    r.append(
        " OK\r\nContent-Type: application/json; charset=utf-8\r\nAccess-Control-Allow-Origin: *\r\nContent-Length: ",
    );
    r.append(decimal_string(n as u64).as_str());
    r.append("\r\nConnection: close\r\n\r\n");
    r.append(json);
    r
}

/// The head of an HTTP response that serves `len` bytes of type `mime`.
pub open spec fn file_header_spec(mime: Seq<char>, len: nat) -> Seq<char> {
    "HTTP/1.1 200 OK\r\nContent-Type: "@ + mime
        + "\r\nAccess-Control-Allow-Origin: *\r\nContent-Length: "@ + decimal_spec(len)
        + "\r\nConnection: close\r\n\r\n"@
}

/// Builds the head of an HTTP response that serves `len` bytes of type `mime`.
pub fn file_response_header(mime: &str, len: usize) -> (r: String)
    ensures
        r@ == file_header_spec(mime@, len as nat),
{
    let mut r = owned("HTTP/1.1 200 OK\r\nContent-Type: ");
    r.append(mime);
    r.append("\r\nAccess-Control-Allow-Origin: *\r\nContent-Length: ");
    r.append(decimal_string(len as u64).as_str());
    r.append("\r\nConnection: close\r\n\r\n");
    r
}

/// The whole HTTP response that serves the built-in management page.
pub fn embedded_page_response() -> (r: String)
    ensures
        r@ == file_header_spec(
            "text/html; charset=utf-8"@,
            vstd::utf8::encode_utf8(crate::dashboard::DASHBOARD_HTML@).len(),
        ) + crate::dashboard::DASHBOARD_HTML@,
{
    let html = crate::dashboard::get_embedded_dashboard_html();
    let mut r = file_response_header("text/html; charset=utf-8", html.as_bytes().len());
    r.append(html);
    r
}

/// `s` without its leading `/` characters.
pub open spec fn without_leading_slashes(s: Seq<char>) -> Seq<char>
    decreases s.len(),
{
    if s.len() > 0 && s[0] == '/' {
        without_leading_slashes(s.drop_first())
    } else {
        s
    }
}

/// The file that a request path asks for, relative to a front-end directory: the path
/// without its leading `/`, and `index.html` for the root.
pub open spec fn static_rel_path_spec(req_path: Seq<char>) -> Seq<char> {
    let rel = without_leading_slashes(req_path);
    if rel.len() == 0 || rel == "index.html"@ {
        "index.html"@
    } else {
        rel
    }
}

/// The file that a request path asks for, relative to a front-end directory.
pub fn static_rel_path(req_path: &str) -> (r: String)
    ensures
        r@ == static_rel_path_spec(req_path@),
{
    let v = chars_of(req_path);
    let mut i: usize = 0;
    assert(v@.skip(0) =~= v@);
    while i < v.len() && v[i] == '/'
        invariant
            i <= v@.len(),
            without_leading_slashes(v@) == without_leading_slashes(v@.skip(i as int)),
        decreases v.len() - i,
    {
        assert(v@.skip(i as int).drop_first() =~= v@.skip(i + 1));
        i = i + 1;
    }
    let rel = sub_chars(&v, i, v.len());
    assert(rel@ =~= v@.skip(i as int));
    let rel_s = string_of(&rel);
    if rel.len() == 0 || crate::text::str_eq(rel_s.as_str(), "index.html") {
        owned("index.html")
    } else {
        rel_s
    }
}

/// Whether the front end's `index.html` may answer a path that names no file: every path
/// but those under `assets/`.
pub fn spa_fallback_allowed(rel_path: &str) -> (b: bool)
    ensures
        b == !has_prefix(rel_path@, "assets/"@),
{
    !str_starts_with(rel_path, "assets/")
}

/// The port the web server listens on: the given one when it parses as a port number,
/// else 3000.
pub fn web_port(port: Option<&str>) -> (p: u16)
    ensures
        p == match port {
            Some(s) => match parse_usize_spec(s@) {
                Some(n) => if n <= 65535 {
                    n
                } else {
                    3000
                },
                None => 3000,
            },
            None => 3000,
        },
{
    match port {
        Some(s) => match parse_usize(&chars_of(s)) {
            Some(n) => {
                if n <= 65535 {
                    n as u16
                } else {
                    3000
                }
            },
            None => 3000,
        },
        None => 3000,
    }
}

/// The state that a state change asks for: the given one, `active` when none is given.
pub fn requested_web_state(state: Option<&str>) -> (r: String)
    ensures
        r@ == match state {
            Some(s) => s@,
            None => "active"@,
        },
{
    match state {
        Some(s) => owned(s),
        None => owned("active"),
    }
}

/// The message that confirms a change of the web engine's state.
pub fn web_state_message(state: &str) -> (r: &'static str)
    ensures
        r@ == if state@ == "active"@ {
            "Web 網頁端管理引擎已啟動 (ACTIVE)"@
        } else {
            "Web 網頁端管理引擎已切換為待機模式 (STANDBY)"@
        },
{
    if crate::text::str_eq(state, "active") {
        "Web 網頁端管理引擎已啟動 (ACTIVE)"
    } else {
        "Web 網頁端管理引擎已切換為待機模式 (STANDBY)"
    }
}

/// The text of an update field when it holds more than white space.
pub open spec fn given_text(field: Option<&str>) -> Option<Seq<char>> {
    match field {
        Some(s) => if trim_spec(s@).len() > 0 {
            Some(s@)
        } else {
            None
        },
        None => None,
    }
}

/// Merges a configuration update into `cfg`: a given note directory is trimmed and
/// tilde expanded against `home`, a given key ID trimmed, a given Gist ID reduced to its
/// clean ID; fields that are absent or blank keep their value; the update time is `now`.
pub fn apply_config_update(
    cfg: &mut crate::AppUnifiedConfig,
    note_dir: Option<&str>,
    key_id: Option<&str>,
    gist_id: Option<&str>,
    home: &str,
    now: String,
)
    ensures
        match given_text(note_dir) {
            Some(d) => (final(cfg).note_dir matches Some(x) && x@ == crate::expand_tilde_spec(
                trim_spec(d),
                home@,
            )),
            None => final(cfg).note_dir == old(cfg).note_dir,
        },
        match given_text(key_id) {
            Some(k) => (final(cfg).key_id matches Some(x) && x@ == trim_spec(k)),
            None => final(cfg).key_id == old(cfg).key_id,
        },
        match given_text(gist_id) {
            Some(g) => (final(cfg).gist_id matches Some(x) && x@ == crate::clean_id_spec(g)),
            None => final(cfg).gist_id == old(cfg).gist_id,
        },
        final(cfg).last_updated matches Some(t) && t@ == now@,
        final(cfg).token_path == old(cfg).token_path,
        final(cfg).web_port == old(cfg).web_port,
        final(cfg).web_state == old(cfg).web_state,
        final(cfg).cached_commit_hash == old(cfg).cached_commit_hash,
        final(cfg).cached_remote_files == old(cfg).cached_remote_files,
{
    match note_dir {
        Some(nd) => {
            let t = crate::text::trim_str(nd);
            if !t.as_str().is_empty() {
                cfg.note_dir = Some(crate::GameConfig::expand_tilde(t.as_str(), home));
            }
        },
        None => {},
    }
    match key_id {
        Some(k) => {
            let t = crate::text::trim_str(k);
            if !t.as_str().is_empty() {
                cfg.key_id = Some(t);
            }
        },
        None => {},
    }
    match gist_id {
        Some(g) => {
            let t = crate::text::trim_str(g);
            if !t.as_str().is_empty() {
                cfg.gist_id = Some(crate::GameConfig::extract_clean_id(g));
            }
        },
        None => {},
    }
    cfg.last_updated = Some(now);
}

/// The token that an update asks to store: the trimmed token when it is not blank.
pub fn token_to_store(token: Option<&str>) -> (r: Option<String>)
    ensures
        match given_text(token) {
            Some(t) => (r matches Some(x) && x@ == trim_spec(t)),
            None => r is None,
        },
{
    match token {
        Some(t) => {
            let s = crate::text::trim_str(t);
            if s.as_str().is_empty() {
                None
            } else {
                Some(s)
            }
        },
        None => None,
    }
}

/// The text fields of a configuration update.
pub struct ConfigFields {
    pub note_dir: Option<String>,
    pub key_id: Option<String>,
    pub gist_id: Option<String>,
    pub token: Option<String>,
}

/// The text of an optional string.
pub open spec fn opt_text(o: Option<String>) -> Option<Seq<char>> {
    match o {
        Some(t) => Some(t@),
        None => None,
    }
}

/// The fields of a configuration update as plain values.
pub open spec fn fields_view(f: ConfigFields) -> (
    Option<Seq<char>>,
    Option<Seq<char>>,
    Option<Seq<char>>,
    Option<Seq<char>>,
) {
    (opt_text(f.note_dir), opt_text(f.key_id), opt_text(f.gist_id), opt_text(f.token))
}

/// What `serde_json` reads from a request body `text`: `None` when it is not JSON, else
/// the string values at `noteDir`, `keyId`, `gistId` and `token`, where there are such.
pub uninterp spec fn config_fields_spec(text: Seq<char>) -> Option<
    (Option<Seq<char>>, Option<Seq<char>>, Option<Seq<char>>, Option<Seq<char>>),
>;

/// What `serde_json` reads from a request body `text`: `None` when it is not JSON, else
/// the string value at `state`, where there is one.
pub uninterp spec fn state_field_spec(text: Seq<char>) -> Option<Option<Seq<char>>>;

/// Parses `text` with `serde_json::from_str::<Value>` and reads the four fields with
/// `Value::get` and `Value::as_str`.
/// Claims: the outcome is the named function of the text.
#[verifier::external_body]
fn json_config_fields(text: &str) -> (r: Option<ConfigFields>)
    ensures
        match r {
            Some(f) => config_fields_spec(text@) == Some(fields_view(f)),
            None => config_fields_spec(text@) is None,
        },
{
    match serde_json::from_str::<serde_json::Value>(text) {
        Ok(v) => Some(ConfigFields {
            note_dir: v.get("noteDir").and_then(|x| x.as_str()).map(|x| x.to_string()),
            key_id: v.get("keyId").and_then(|x| x.as_str()).map(|x| x.to_string()),
            gist_id: v.get("gistId").and_then(|x| x.as_str()).map(|x| x.to_string()),
            token: v.get("token").and_then(|x| x.as_str()).map(|x| x.to_string()),
        }),
        Err(_) => None,
    }
}

/// Parses `text` with `serde_json::from_str::<Value>` and reads `state` with `Value::get`
/// and `Value::as_str`.
/// Claims: the outcome is the named function of the text.
#[verifier::external_body]
fn json_state_field(text: &str) -> (r: Option<Option<String>>)
    ensures
        match r {
            Some(s) => state_field_spec(text@) == Some(opt_text(s)),
            None => state_field_spec(text@) is None,
        },
{
    match serde_json::from_str::<serde_json::Value>(text) {
        Ok(v) => Some(v.get("state").and_then(|x| x.as_str()).map(|x| x.to_string())),
        Err(_) => None,
    }
}

/// The fields of a configuration update body: `None` when the body is not UTF-8 text
/// holding JSON.
pub fn config_update_fields(body: &[u8]) -> (r: Option<ConfigFields>)
    ensures
        match r {
            Some(f) => vstd::utf8::valid_utf8(body@) && config_fields_spec(
                vstd::utf8::decode_utf8(body@),
            ) == Some(fields_view(f)),
            None => !vstd::utf8::valid_utf8(body@) || config_fields_spec(
                vstd::utf8::decode_utf8(body@),
            ) is None,
        },
{
    match String::from_utf8(vstd::slice::slice_to_vec(body)) {
        Ok(text) => json_config_fields(text.as_str()),
        Err(_) => None,
    }
}

/// The body of the answer to a configuration update that is not JSON.
pub open spec fn invalid_config_json() -> Seq<char> {
    "{\"success\":false,\"message\":\"無效的 JSON 格式\"}"@
}

/// Reads a configuration update: its fields, or, for a body that is not UTF-8 text holding
/// JSON, the whole 400 answer.
pub fn config_update_request(body: &[u8]) -> (r: Result<ConfigFields, String>)
    ensures
        match r {
            Ok(f) => vstd::utf8::valid_utf8(body@) && config_fields_spec(vstd::utf8::decode_utf8(body@))
                == Some(fields_view(f)),
            Err(a) => (!vstd::utf8::valid_utf8(body@) || config_fields_spec(
                vstd::utf8::decode_utf8(body@),
            ) is None) && a@ == json_response_spec(400, invalid_config_json()),
        },
{
    match config_update_fields(body) {
        Some(f) => Ok(f),
        None => Err(json_response(400, "{\"success\":false,\"message\":\"無效的 JSON 格式\"}")),
    }
}

/// Reads a state change: the state asked for (`active` when the JSON names none), or, for
/// a body that is not UTF-8 text holding JSON, the whole answer that reports `active`.
pub fn web_state_request(body: &[u8]) -> (r: Result<String, String>)
    ensures
        match r {
            Ok(s) => vstd::utf8::valid_utf8(body@) && (state_field_spec(vstd::utf8::decode_utf8(body@))
                matches Some(f) && s@ == match f {
                Some(t) => t,
                None => "active"@,
            }),
            Err(a) => (!vstd::utf8::valid_utf8(body@) || state_field_spec(
                vstd::utf8::decode_utf8(body@),
            ) is None) && a@ == json_response_spec(200, "{\"state\":\"active\"}"@),
        },
{
    let parsed = match String::from_utf8(vstd::slice::slice_to_vec(body)) {
        Ok(text) => json_state_field(text.as_str()),
        Err(_) => None,
    };
    match parsed {
        Some(field) => {
            let s = match &field {
                Some(t) => owned(t.as_str()),
                None => owned("active"),
            };
            Ok(s)
        },
        None => Err(json_response(200, "{\"state\":\"active\"}")),
    }
}

} // verus!
