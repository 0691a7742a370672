use daktronics_allsport_5000::config::AppConfig;
use daktronics_allsport_5000::controllers::ActiveSport;
use daktronics_allsport_5000::fields::FieldMap;
use daktronics_allsport_5000::web::http::{public_status_path, ADMIN_PAGE};
use daktronics_allsport_5000::web::request::{parse_request_line, request_body, token_of};
use daktronics_allsport_5000::web::{
    authorized, carry_out, serve_request, Reply, dashboard_html, flatten, http_bad_request, http_no_content,
    http_not_found, http_ok, http_unauthorized, parse_form, route, route_request, JsonField,
    PollAction, PollEvent, RouteAction, RuntimeStatus,
};

fn reply(a: RouteAction) -> String {
    match a {
        RouteAction::Reply(s) => s,
        _ => panic!("expected a reply"),
    }
}

fn config_with_id(id: &str) -> AppConfig {
    let mut c = AppConfig::default();
    c.public_status_uuid = id.to_string();
    c
}

#[test]
fn fixed_responses() {
    assert_eq!(http_no_content(), "HTTP/1.1 204 No Content\r\nContent-Length: 0\r\n\r\n");
    assert_eq!(http_not_found(), "HTTP/1.1 404 Not Found\r\nContent-Length: 0\r\n\r\n");
    assert_eq!(http_bad_request(), "HTTP/1.1 400 Bad Request\r\nContent-Length: 0\r\n\r\n");
    assert_eq!(http_unauthorized(), "HTTP/1.1 401 Unauthorized\r\nContent-Length: 0\r\n\r\n");
}

#[test]
fn ok_response_counts_bytes() {
    assert_eq!(
        http_ok("text/plain", "hello"),
        "HTTP/1.1 200 OK\r\nContent-Type: text/plain\r\nContent-Length: 5\r\n\r\nhello"
    );
    assert_eq!(
        http_ok("text/plain", "é€"),
        "HTTP/1.1 200 OK\r\nContent-Type: text/plain\r\nContent-Length: 5\r\n\r\né€"
    );
    assert_eq!(
        http_ok("application/json", ""),
        "HTTP/1.1 200 OK\r\nContent-Type: application/json\r\nContent-Length: 0\r\n\r\n"
    );
}

#[test]
fn dashboard_links_the_status_document() {
    let page = dashboard_html("abc-123");
    assert!(page.starts_with("<!doctype html>"));
    assert!(page.ends_with("</body></html>"));
    assert_eq!(page.matches("/status/abc-123.json").count(), 2);
    assert!(page.contains(":root {\n"));
    assert!(!page.contains("{{"));
    assert_eq!(public_status_path("abc-123"), "/status/abc-123.json");
}

#[test]
fn dashboard_grows_by_the_id_twice() {
    let empty = dashboard_html("");
    for u in ["x", "abc-123", "é€", "00000000-0000-0000-0000-000000000001"] {
        let page = dashboard_html(u);
        assert_eq!(page.len(), empty.len() + 2 * u.len());
        assert_eq!(page.chars().count(), empty.chars().count() + 2 * u.chars().count());
        assert_eq!(
            page,
            dashboard_html("X").replace("/status/X.json", &format!("/status/{}.json", u))
        );
    }
}

#[test]
fn form_fields() {
    let form = parse_form("a=1&b=two+words&c&=x&a=3&d=e=f");
    assert_eq!(form.get("a").map(String::as_str), Some("3"));
    assert_eq!(form.get("b").map(String::as_str), Some("two words"));
    assert_eq!(form.get("c"), None);
    assert_eq!(form.get("").map(String::as_str), Some("x"));
    assert_eq!(form.get("d").map(String::as_str), Some("e=f"));
    assert_eq!(parse_form("").get(""), None);
}

#[test]
fn tokens_and_authorization() {
    assert_eq!(token_of("token=admin"), "admin");
    assert_eq!(token_of("x=1&token=admin"), "");
    assert_eq!(token_of("flag&token=admin&x=1"), "admin");
    assert_eq!(token_of(""), "");
    assert!(authorized("token=admin", "admin"));
    assert!(!authorized("token=Admin", "admin"));
    assert!(authorized("", ""));
    assert!(!authorized("user=admin", "admin"));
}

#[test]
fn request_lines_and_bodies() {
    let (m, t) = parse_request_line("POST /admin/sport?token=admin HTTP/1.1\r\nHost: x\r\n\r\nactive_sport=soccer");
    assert_eq!(m, "POST");
    assert_eq!(t, "/admin/sport?token=admin");
    let (m, t) = parse_request_line("\r\n");
    assert_eq!((m.as_str(), t.as_str()), ("GET", "/"));
    let (m, t) = parse_request_line("  PUT\t ");
    assert_eq!((m.as_str(), t.as_str()), ("PUT", "/"));
    assert_eq!(request_body("GET / HTTP/1.1\r\n\r\nbody\r\n\r\nmore"), "body");
    assert_eq!(request_body("GET / HTTP/1.1\r\nHost: x\r\n"), "");
    assert_eq!(request_body("a\r\n\r\n"), "");
}

#[test]
fn decoding_requests() {
    let cfg = config_with_id("x\u{fffd}y");
    assert!(matches!(
        route_request(b"GET /status/x\xffy.json HTTP/1.1\r\n\r\n", &cfg),
        Some(RouteAction::ServeStatus)
    ));
    assert!(matches!(
        route_request("GET /status/x\u{fffd}y.json HTTP/1.1".as_bytes(), &cfg),
        Some(RouteAction::ServeStatus)
    ));
    let cfg = config_with_id("é");
    assert!(matches!(
        route_request("GET /status/é.json HTTP/1.1".as_bytes(), &cfg),
        Some(RouteAction::ServeStatus)
    ));
}

#[test]
fn routing_public_pages() {
    let cfg = config_with_id("my-id");
    assert_eq!(
        reply(route("GET", "/", "", &cfg)),
        http_ok("text/html", &dashboard_html("my-id"))
    );
    assert!(matches!(route("GET", "/status/my-id.json", "", &cfg), RouteAction::ServeStatus));
    assert!(matches!(route("GET", "/status/my-id.json?x=1", "", &cfg), RouteAction::ServeStatus));
    assert_eq!(reply(route("GET", "/status/other.json", "", &cfg)), http_not_found());
    assert_eq!(reply(route("POST", "/", "", &cfg)), http_not_found());
    assert_eq!(reply(route("GET", "/nowhere", "", &cfg)), http_not_found());
}

#[test]
fn status_prefix_and_suffix_are_trimmed_repeatedly() {
    let cfg = config_with_id("x");
    assert!(matches!(
        route("GET", "/status//status/x.json.json", "", &cfg),
        RouteAction::ServeStatus
    ));
}

#[test]
fn routing_admin_pages() {
    let cfg = AppConfig::default();
    assert_eq!(reply(route("GET", "/admin", "", &cfg)), http_unauthorized());
    assert_eq!(reply(route("GET", "/admin?token=nope", "", &cfg)), http_unauthorized());
    assert_eq!(reply(route("POST", "/admin/rotate", "", &cfg)), http_unauthorized());
    assert_eq!(reply(route("GET", "/admin?token=admin", "", &cfg)), http_ok("text/html", ADMIN_PAGE));
    assert!(matches!(route("GET", "/admin/config?token=admin", "", &cfg), RouteAction::ServeAdminConfig));
    assert!(matches!(route("POST", "/admin/rotate?token=admin", "", &cfg), RouteAction::RotatePublicId));
    assert_eq!(reply(route("GET", "/admin/rotate?token=admin", "", &cfg)), http_not_found());
}

#[test]
fn routing_admin_forms() {
    let cfg = AppConfig::default();
    let req = "POST /admin/controller?token=admin HTTP/1.1\r\n\r\ncontroller_type=daktronics";
    assert!(matches!(route("POST", "/admin/controller?token=admin", req, &cfg), RouteAction::SaveConfig));
    let req = "POST /admin/controller?token=admin HTTP/1.1\r\n\r\ncontroller_type=other";
    assert_eq!(reply(route("POST", "/admin/controller?token=admin", req, &cfg)), http_bad_request());
    let req = "POST /admin/sport?token=admin HTTP/1.1\r\n\r\nactive_sport=water_polo";
    assert!(matches!(
        route("POST", "/admin/sport?token=admin", req, &cfg),
        RouteAction::SetSport(ActiveSport::WaterPolo)
    ));
    let req = "POST /admin/sport?token=admin HTTP/1.1\r\n\r\nactive_sport=curling";
    assert_eq!(reply(route("POST", "/admin/sport?token=admin", req, &cfg)), http_bad_request());
    let req = "POST /admin/sport?token=admin HTTP/1.1\r\n\r\n";
    assert_eq!(reply(route("POST", "/admin/sport?token=admin", req, &cfg)), http_bad_request());
}

#[test]
fn routing_raw_requests() {
    let cfg = config_with_id("abc");
    assert!(route_request(b"", &cfg).is_none());
    assert!(matches!(
        route_request(b"GET /status/abc.json HTTP/1.1\r\nHost: h\r\n\r\n", &cfg),
        Some(RouteAction::ServeStatus)
    ));
    assert_eq!(reply(route_request(b"DELETE / HTTP/1.1\r\n\r\n", &cfg).unwrap()), http_not_found());
}

fn sent(r: Reply) -> String {
    match r {
        Reply::Send(s) => s,
        _ => panic!("expected a plain reply"),
    }
}

fn saved(r: Reply) -> String {
    match r {
        Reply::SaveThenSend(s) => s,
        _ => panic!("expected a reply after saving"),
    }
}

#[test]
fn carrying_out_route_actions() {
    let status = RuntimeStatus::default();
    let mut cfg = AppConfig::default();
    assert_eq!(sent(carry_out(RouteAction::Reply("x".to_string()), &mut cfg, &status)), "x");
    assert_eq!(
        sent(carry_out(RouteAction::ServeStatus, &mut cfg, &status)),
        "HTTP/1.1 200 OK\r\nContent-Type: application/json\r\nContent-Length: 4\r\n\r\n[{}]"
    );
    assert!(matches!(carry_out(RouteAction::ServeAdminConfig, &mut cfg, &status), Reply::SendAdminConfig));
    assert_eq!(cfg.public_status_uuid, "00000000-0000-0000-0000-000000000001");
    assert_eq!(
        saved(carry_out(RouteAction::SetSport(ActiveSport::Soccer), &mut cfg, &status)),
        http_no_content()
    );
    assert_eq!(cfg.active_sport, ActiveSport::Soccer);
    assert_eq!(saved(carry_out(RouteAction::SaveConfig, &mut cfg, &status)), http_no_content());
    assert_eq!(saved(carry_out(RouteAction::RotatePublicId, &mut cfg, &status)), http_no_content());
    assert_eq!(cfg.public_status_uuid.len(), 36);
    assert_ne!(cfg.public_status_uuid, "00000000-0000-0000-0000-000000000001");
    assert_eq!(cfg.active_sport, ActiveSport::Soccer);
    let id = cfg.public_status_uuid.clone();
    let path = public_status_path(&id);
    assert!(matches!(route("GET", &path, "", &cfg), RouteAction::ServeStatus));
}

#[test]
fn serving_the_status_document() {
    let mut cfg = AppConfig::default();
    let mut status = RuntimeStatus::default();
    let req = b"GET /status/00000000-0000-0000-0000-000000000001.json HTTP/1.1\r\n\r\n";
    assert_eq!(
        sent(serve_request(req, &mut cfg, &status).unwrap()),
        "HTTP/1.1 200 OK\r\nContent-Type: application/json\r\nContent-Length: 4\r\n\r\n[{}]"
    );
    let mut payload = FieldMap::new();
    payload.insert("home_team".to_string(), "Hawks \"A\"".to_string());
    payload.insert("away_score".to_string(), "3".to_string());
    status.on_poll_event(PollEvent::Snapshot {
        payload,
        sport: ActiveSport::Basketball,
        public_id: "p".to_string(),
    });
    let text = sent(serve_request(req, &mut cfg, &status).unwrap());
    let body = text.split("\r\n\r\n").nth(1).unwrap();
    assert!(body.starts_with("[{\"away_score\":\"3\",\"controller\":\"daktronics\",\"home_team\":\"Hawks \\\"A\\\"\""));
    assert!(text.contains(&format!("Content-Length: {}\r\n", body.len())));
    assert!(serve_request(b"", &mut cfg, &status).is_none());
}

#[test]
fn serving_admin_changes() {
    let mut cfg = AppConfig::default();
    let status = RuntimeStatus::default();
    let req = b"POST /admin/sport?token=admin HTTP/1.1\r\n\r\nactive_sport=football";
    assert_eq!(saved(serve_request(req, &mut cfg, &status).unwrap()), http_no_content());
    assert_eq!(cfg.active_sport, ActiveSport::Football);
    let req = b"POST /admin/sport?token=wrong HTTP/1.1\r\n\r\nactive_sport=soccer";
    assert_eq!(sent(serve_request(req, &mut cfg, &status).unwrap()), http_unauthorized());
    assert_eq!(cfg.active_sport, ActiveSport::Football);
    let req = b"POST /admin/controller?token=admin HTTP/1.1\r\n\r\ncontroller_type=daktronics";
    assert_eq!(saved(serve_request(req, &mut cfg, &status).unwrap()), http_no_content());
    let req = b"POST /admin/controller?token=admin HTTP/1.1\r\n\r\ncontroller_type=x";
    assert_eq!(sent(serve_request(req, &mut cfg, &status).unwrap()), http_bad_request());
    let old_id = cfg.public_status_uuid.clone();
    let req = b"POST /admin/rotate?token=admin HTTP/1.1\r\n\r\n";
    assert_eq!(saved(serve_request(req, &mut cfg, &status).unwrap()), http_no_content());
    assert_ne!(cfg.public_status_uuid, old_id);
}

#[test]
fn flattening_snapshots() {
    let fields = vec![
        ("HomeScore".to_string(), JsonField::Other("12".to_string())),
        ("HomeTeamName".to_string(), JsonField::Text("Hawks".to_string())),
        ("Possession".to_string(), JsonField::Null),
        ("home_score".to_string(), JsonField::Other("13".to_string())),
    ];
    let flat = flatten(fields);
    assert_eq!(flat.get("home_score").map(String::as_str), Some("13"));
    assert_eq!(flat.get("home_team_name").map(String::as_str), Some("Hawks"));
    assert_eq!(flat.get("possession").map(String::as_str), Some(""));
    assert_eq!(flat.get("HomeScore"), None);
    assert_eq!(flat.entries().len(), 3);
}

#[test]
fn field_maps_keep_the_last_value() {
    let mut m = FieldMap::new();
    assert_eq!(m.get("k"), None);
    m.insert("k".to_string(), "1".to_string());
    m.insert("j".to_string(), "2".to_string());
    m.insert("k".to_string(), "3".to_string());
    assert_eq!(m.get("k").map(String::as_str), Some("3"));
    assert_eq!(m.get("j").map(String::as_str), Some("2"));
    assert_eq!(m.entries().len(), 2);
    let c = m.clone();
    assert_eq!(c.get("k").map(String::as_str), Some("3"));
}

#[test]
fn runtime_status_follows_the_poll_loop() {
    let mut st = RuntimeStatus::default();
    assert_eq!(st.parser_status, "starting");
    assert_eq!(st.controller_connection_state, "disconnected");
    assert!(st.last_update.is_none() && st.latest_payload.is_none());

    assert_eq!(st.on_poll_event(PollEvent::Connecting), PollAction::OpenPort);
    assert_eq!(st.controller_connection_state, "connecting");
    assert_eq!(
        st.on_poll_event(PollEvent::OpenFailed("no such device".to_string())),
        PollAction::PauseThenReconnect(2)
    );
    assert_eq!(st.controller_connection_state, "error: no such device");
    assert_eq!(st.parser_status, "disconnected");
    assert_eq!(
        st.on_poll_event(PollEvent::ParserFailed("bad".to_string())),
        PollAction::PauseThenReconnect(2)
    );
    assert_eq!(st.parser_status, "error: bad");
    assert_eq!(st.controller_connection_state, "error");
    assert_eq!(st.on_poll_event(PollEvent::Connected), PollAction::CheckConfig);
    assert_eq!(st.controller_connection_state, "connected");
    assert_eq!(st.parser_status, "running");
    assert_eq!(
        st.on_poll_event(PollEvent::ConfigChecked {
            running: ActiveSport::Soccer,
            configured: ActiveSport::Soccer
        }),
        PollAction::Read
    );
    assert_eq!(
        st.on_poll_event(PollEvent::ConfigChecked {
            running: ActiveSport::Soccer,
            configured: ActiveSport::Football
        }),
        PollAction::Reconnect
    );
    assert_eq!(st.on_poll_event(PollEvent::Unchanged), PollAction::CheckConfig);
    assert!(st.latest_payload.is_none());
    assert!(st.last_update.is_none());

    let mut payload = FieldMap::new();
    payload.insert("home_score".to_string(), "7".to_string());
    assert_eq!(
        st.on_poll_event(PollEvent::Snapshot {
            payload,
            sport: ActiveSport::Soccer,
            public_id: "pid".to_string()
        }),
        PollAction::CheckConfig
    );
    let p = st.latest_payload.clone().unwrap();
    assert_eq!(p.get("home_score").map(String::as_str), Some("7"));
    assert_eq!(p.get("sport").map(String::as_str), Some("soccer"));
    assert_eq!(p.get("controller").map(String::as_str), Some("daktronics"));
    assert_eq!(p.get("public_id").map(String::as_str), Some("pid"));
    let ts = p.get("updated_at").unwrap();
    assert!(!ts.is_empty() && ts.chars().all(|c| c.is_ascii_digit()));
    assert!(st.last_update.as_ref().unwrap().chars().all(|c| c.is_ascii_digit()));

    assert_eq!(
        st.on_poll_event(PollEvent::ReadFailed("timeout".to_string())),
        PollAction::Reconnect
    );
    assert_eq!(st.parser_status, "error: timeout");
    assert_eq!(st.controller_connection_state, "disconnected");
    assert!(st.latest_payload.is_some());
}
