use cyber_note::dashboard::{get_embedded_dashboard_html, DASHBOARD_HTML};
use cyber_note::web::{
    apply_config_update, content_length, declared_length_of, embedded_page_response,
    file_response_header, get_mime_type, health_json, json_response, parse_request_line,
    preflight_response, requested_web_state, route_request, spa_fallback_allowed,
    static_rel_path, token_to_store, web_port, web_state_message, Route,
};
use cyber_note::AppUnifiedConfig;

#[test]
fn mime_types_by_extension() {
    assert_eq!(get_mime_type("index.html"), "text/html; charset=utf-8");
    assert_eq!(get_mime_type("assets/app.js"), "application/javascript; charset=utf-8");
    assert_eq!(get_mime_type("m.mjs"), "application/javascript; charset=utf-8");
    assert_eq!(get_mime_type("s.css"), "text/css; charset=utf-8");
    assert_eq!(get_mime_type("d.json"), "application/json; charset=utf-8");
    assert_eq!(get_mime_type("i.svg"), "image/svg+xml");
    assert_eq!(get_mime_type("i.png"), "image/png");
    assert_eq!(get_mime_type("favicon.ico"), "image/x-icon");
    assert_eq!(get_mime_type("blob.bin"), "application/octet-stream");
}

#[test]
fn request_lines() {
    let q = parse_request_line("GET /api/health?x=1 HTTP/1.1\r\n").unwrap();
    assert_eq!(q.method, "GET");
    assert_eq!(q.path, "/api/health");
    let q = parse_request_line("POST /api/rust/config HTTP/1.1").unwrap();
    assert_eq!(q.path, "/api/rust/config");
    assert!(parse_request_line("GET").is_none());
    assert!(parse_request_line("   \r\n").is_none());
}

#[test]
fn content_length_headers() {
    assert_eq!(declared_length_of("Content-Length: 42\r\n"), Some(42));
    assert_eq!(declared_length_of("CONTENT-LENGTH:7"), Some(7));
    assert_eq!(declared_length_of("content-length: abc"), Some(0));
    assert_eq!(declared_length_of("Host: x"), None);
    let headers = vec![
        "Host: localhost".to_string(),
        "Content-Length: 10".to_string(),
        "content-length: 12".to_string(),
    ];
    assert_eq!(content_length(&headers), 12);
    assert_eq!(content_length(&Vec::new()), 0);
}

#[test]
fn routes() {
    assert_eq!(route_request("OPTIONS", "/anything"), Route::Preflight);
    assert_eq!(route_request("GET", "/api/health"), Route::Health);
    assert_eq!(route_request("GET", "/api/rust/status"), Route::Status);
    assert_eq!(route_request("POST", "/api/rust/config"), Route::ConfigUpdate);
    assert_eq!(route_request("GET", "/api/rust/config"), Route::Static);
    assert_eq!(route_request("GET", "/api/ledger"), Route::Ledger);
    assert_eq!(route_request("POST", "/api/web/state"), Route::WebState);
    assert_eq!(route_request("GET", "/"), Route::Static);
}

#[test]
fn responses() {
    assert_eq!(
        json_response(200, "{}"),
        "HTTP/1.1 200 OK\r\nContent-Type: application/json; charset=utf-8\r\nAccess-Control-Allow-Origin: *\r\nContent-Length: 2\r\nConnection: close\r\n\r\n{}"
    );
    let r = json_response(400, "\"é\"");
    assert!(r.starts_with("HTTP/1.1 400 OK\r\n"));
    assert!(r.contains("Content-Length: 4\r\n"));
    assert!(r.ends_with("\"é\""));
    assert_eq!(
        file_response_header("image/png", 5),
        "HTTP/1.1 200 OK\r\nContent-Type: image/png\r\nAccess-Control-Allow-Origin: *\r\nContent-Length: 5\r\nConnection: close\r\n\r\n"
    );
    assert!(preflight_response().ends_with("Content-Length: 0\r\n\r\n"));
    assert!(health_json().contains("\"status\":\"ok\""));
}

#[test]
fn embedded_page() {
    let html = get_embedded_dashboard_html();
    assert_eq!(html, DASHBOARD_HTML);
    assert!(html.starts_with("<!DOCTYPE html>"));
    let r = embedded_page_response();
    let head = file_response_header("text/html; charset=utf-8", html.len());
    assert_eq!(r, format!("{}{}", head, html));
}

#[test]
fn static_paths() {
    assert_eq!(static_rel_path("/"), "index.html");
    assert_eq!(static_rel_path("//index.html"), "index.html");
    assert_eq!(static_rel_path("/assets/app.js"), "assets/app.js");
    assert!(!spa_fallback_allowed("assets/app.js"));
    assert!(spa_fallback_allowed("settings"));
}

#[test]
fn ports_and_states() {
    assert_eq!(web_port(None), 3000);
    assert_eq!(web_port(Some("8080")), 8080);
    assert_eq!(web_port(Some("70000")), 3000);
    assert_eq!(web_port(Some("x")), 3000);
    assert_eq!(requested_web_state(None), "active");
    assert_eq!(requested_web_state(Some("standby")), "standby");
    assert_eq!(web_state_message("active"), "Web 網頁端管理引擎已啟動 (ACTIVE)");
    assert_eq!(web_state_message("standby"), "Web 網頁端管理引擎已切換為待機模式 (STANDBY)");
}

#[test]
fn config_update_merges_given_fields() {
    let mut c = AppUnifiedConfig::default();
    c.key_id = Some("old".to_string());
    c.web_port = Some(3000);
    apply_config_update(
        &mut c,
        Some(" ~/notes "),
        Some("  "),
        Some("https://gist.github.com/u/abc/"),
        "/home/u",
        "now".to_string(),
    );
    assert_eq!(c.note_dir, Some("/home/u/notes".to_string()));
    assert_eq!(c.key_id, Some("old".to_string()));
    assert_eq!(c.gist_id, Some("abc".to_string()));
    assert_eq!(c.last_updated, Some("now".to_string()));
    assert_eq!(c.web_port, Some(3000));
    assert_eq!(token_to_store(Some(" t0k \n")), Some("t0k".to_string()));
    assert_eq!(token_to_store(Some("  ")), None);
    assert_eq!(token_to_store(None), None);
}

use cyber_note::web::{config_update_fields, config_update_request, web_state_request};

#[test]
fn config_update_bodies() {
    let f = config_update_fields(br#"{"noteDir":"~/n","keyId":"K","token":5}"#).unwrap();
    assert_eq!(f.note_dir, Some("~/n".to_string()));
    assert_eq!(f.key_id, Some("K".to_string()));
    assert_eq!(f.gist_id, None);
    assert_eq!(f.token, None);
    assert!(config_update_fields(b"abc").is_none());
    assert!(config_update_fields(&[0xff, 0xfe]).is_none());
    match config_update_request(b"abc") {
        Err(a) => assert_eq!(
            a,
            "HTTP/1.1 400 OK\r\nContent-Type: application/json; charset=utf-8\r\nAccess-Control-Allow-Origin: *\r\nContent-Length: 51\r\nConnection: close\r\n\r\n{\"success\":false,\"message\":\"無效的 JSON 格式\"}"
        ),
        Ok(_) => panic!("a body that is not JSON is refused"),
    }
    assert!(config_update_request(b"{}").is_ok());
}

#[test]
fn web_state_bodies() {
    assert_eq!(web_state_request(br#"{"state":"standby"}"#), Ok("standby".to_string()));
    assert_eq!(web_state_request(b"{}"), Ok("active".to_string()));
    assert_eq!(web_state_request(b"x"), Err(json_response(200, "{\"state\":\"active\"}")));
}
