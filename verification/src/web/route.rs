use vstd::prelude::*;

use crate::config::AppConfig;
use crate::controllers::ActiveSport;
use crate::fields::{json_list_of_map, pairs_map, FieldMap};
use crate::text::{
    chars_eq_str, chars_of, ends_with, find_char_from_bounds, ends_with_exec, split_once_char, split_once_char_exec,
    starts_with, starts_with_exec, string_of, trim_end_matches, trim_end_matches_exec,
    trim_start_matches, trim_start_matches_exec,
};
use crate::web::http::{
    bad_request_text, http_no_content, no_content_text, dashboard_html, dashboard_text, http_bad_request, http_not_found, http_ok,
    http_ok_text, http_unauthorized, not_found_text, status_path_text, unauthorized_text,
    ADMIN_PAGE,
};
use crate::web::public_id::{new_public_id, public_id_shape, public_id_text};
use crate::web::status::RuntimeStatus;
use crate::web::request::{
    authorized, body_text, request_text, form_pairs, parse_form, parse_request_line,
    parse_sport, query_token, request_body, request_line_parts, sport_named, utf8_lossy,
};

verus! {

/// What the gateway does with a request.
pub enum RouteAction {
    /// Send this response as it stands.
    Reply(String),
    /// Send `200 OK` with the JSON list that holds the latest scoreboard snapshot.
    ServeStatus,
    /// Send `200 OK` with the JSON document of the configuration and runtime status.
    ServeAdminConfig,
    /// Give the status document a fresh public id, save the configuration, send `204`.
    RotatePublicId,
    /// Save the configuration as it is, send `204`.
    SaveConfig,
    /// Switch to this sport, save the configuration, send `204`.
    SetSport(ActiveSport),
}

/// What the gateway does with a request, with each response given by its text.
pub enum RouteOutcome {
    Reply(Seq<char>),
    ServeStatus,
    ServeAdminConfig,
    RotatePublicId,
    SaveConfig,
    SetSport(ActiveSport),
}

impl View for RouteAction {
    type V = RouteOutcome;

    open spec fn view(&self) -> RouteOutcome {
        match self {
            RouteAction::Reply(s) => RouteOutcome::Reply(s@),
            RouteAction::ServeStatus => RouteOutcome::ServeStatus,
            RouteAction::ServeAdminConfig => RouteOutcome::ServeAdminConfig,
            RouteAction::RotatePublicId => RouteOutcome::RotatePublicId,
            RouteAction::SaveConfig => RouteOutcome::SaveConfig,
            RouteAction::SetSport(s) => RouteOutcome::SetSport(*s),
        }
    }
}

/// The path and the query string of a request target, split at its first `'?'`.
pub open spec fn target_parts(target: Seq<char>) -> (Seq<char>, Seq<char>) {
    match split_once_char(target, '?') {
        Some(pq) => pq,
        None => (target, Seq::empty()),
    }
}

/// The id that a status path names: the path without its leading `/status/` and its
/// trailing `.json` (each removed as often as it repeats).
pub open spec fn status_id(path: Seq<char>) -> Seq<char> {
    trim_end_matches(trim_start_matches(path, "/status/"@), ".json"@)
}

/// `path` asks for a status document.
pub open spec fn is_status_path(path: Seq<char>) -> bool {
    starts_with(path, "/status/"@) && ends_with(path, ".json"@)
}

/// How the gateway answers a request with this method, target and text, given the
/// public id of its status document and the admin password.
pub open spec fn route_outcome(
    method: Seq<char>,
    target: Seq<char>,
    req: Seq<char>,
    public_uuid: Seq<char>,
    admin_password: Seq<char>,
) -> RouteOutcome {
    let (path, query) = target_parts(target);
    let get = method == "GET"@;
    let post = method == "POST"@;
    if get && path == "/"@ {
        RouteOutcome::Reply(http_ok_text("text/html"@, dashboard_text(public_uuid)))
    } else if get && is_status_path(path) {
        if status_id(path) != public_uuid {
            RouteOutcome::Reply(not_found_text())
        } else {
            RouteOutcome::ServeStatus
        }
    } else if starts_with(path, "/admin"@) && query_token(query) != admin_password {
        RouteOutcome::Reply(unauthorized_text())
    } else if get && path == "/admin"@ {
        RouteOutcome::Reply(http_ok_text("text/html"@, ADMIN_PAGE@))
    } else if get && path == "/admin/config"@ {
        RouteOutcome::ServeAdminConfig
    } else if post && path == "/admin/rotate"@ {
        RouteOutcome::RotatePublicId
    } else if post && path == "/admin/controller"@ {
        let form = pairs_map(form_pairs(body_text(req)));
        if form.contains_key("controller_type"@) && form["controller_type"@] == "daktronics"@ {
            RouteOutcome::SaveConfig
        } else {
            RouteOutcome::Reply(bad_request_text())
        }
    } else if post && path == "/admin/sport"@ {
        let form = pairs_map(form_pairs(body_text(req)));
        if form.contains_key("active_sport"@) && sport_named(form["active_sport"@]) is Some {
            RouteOutcome::SetSport(sport_named(form["active_sport"@])->0)
        } else {
            RouteOutcome::Reply(bad_request_text())
        }
    } else {
        RouteOutcome::Reply(not_found_text())
    }
}

/// Decides how to answer a request with this method, target and text.
pub fn route(method: &str, target: &str, req: &str, config: &AppConfig) -> (r: RouteAction)
    ensures
        r@ == route_outcome(
            method@,
            target@,
            req@,
            config.public_status_uuid@,
            config.admin_password_hash@,
        ),
{
    let t = chars_of(target);
    let (path, query) = match split_once_char_exec(&t, '?') {
        Some(pq) => pq,
        None => (t, Vec::new()),
    };
    assert(query@ == target_parts(target@).1);
    let m = chars_of(method);
    let get = chars_eq_str(&m, "GET");
    let post = chars_eq_str(&m, "POST");
    if get && chars_eq_str(&path, "/") {
        let body = dashboard_html(config.public_status_uuid.as_str());
        return RouteAction::Reply(http_ok("text/html", body.as_str()));
    }
    let status_prefix = chars_of("/status/");
    let json_suffix = chars_of(".json");
    if get && starts_with_exec(&path, &status_prefix) && ends_with_exec(&path, &json_suffix) {
        let trimmed = trim_start_matches_exec(&path, &status_prefix);
        let id = trim_end_matches_exec(&trimmed, &json_suffix);
        if !chars_eq_str(&id, config.public_status_uuid.as_str()) {
            return RouteAction::Reply(http_not_found());
        }
        return RouteAction::ServeStatus;
    }
    let admin_prefix = chars_of("/admin");
    let query_text = string_of(&query, 0, query.len());
    assert(query@.subrange(0, query@.len() as int) == query@);
    if starts_with_exec(&path, &admin_prefix) && !authorized(
        query_text.as_str(),
        config.admin_password_hash.as_str(),
    ) {
        return RouteAction::Reply(http_unauthorized());
    }
    if get && chars_eq_str(&path, "/admin") {
        return RouteAction::Reply(http_ok("text/html", ADMIN_PAGE));
    }
    if get && chars_eq_str(&path, "/admin/config") {
        return RouteAction::ServeAdminConfig;
    }
    if post && chars_eq_str(&path, "/admin/rotate") {
        return RouteAction::RotatePublicId;
    }
    let body = request_body(req);
    if post && chars_eq_str(&path, "/admin/controller") {
        let form = parse_form(body.as_str());
        match form.get("controller_type") {
            Some(v) => {
                let vc = chars_of(v.as_str());
                if chars_eq_str(&vc, "daktronics") {
                    return RouteAction::SaveConfig;
                }
            },
            None => {},
        }
        return RouteAction::Reply(http_bad_request());
    }
    if post && chars_eq_str(&path, "/admin/sport") {
        let form = parse_form(body.as_str());
        match form.get("active_sport") {
            Some(v) => match parse_sport(v.as_str()) {
                Some(s) => {
                    return RouteAction::SetSport(s);
                },
                None => {},
            },
            None => {},
        }
        return RouteAction::Reply(http_bad_request());
    }
    RouteAction::Reply(http_not_found())
}

/// How the gateway answers the request held in `bytes`: nothing for an empty request,
/// else the answer to its text, method and target.
pub open spec fn request_outcome(
    bytes: Seq<u8>,
    public_uuid: Seq<char>,
    admin_password: Seq<char>,
) -> Option<RouteOutcome> {
    if bytes.len() == 0 {
        None
    } else {
        let req = utf8_lossy(bytes);
        let (method, target) = request_line_parts(req);
        Some(route_outcome(method, target, req, public_uuid, admin_password))
    }
}

/// Decides how to answer the request held in `bytes`.
pub fn route_request(bytes: &[u8], config: &AppConfig) -> (r: Option<RouteAction>)
    ensures
        match r {
            Some(a) => request_outcome(
                bytes@,
                config.public_status_uuid@,
                config.admin_password_hash@,
            ) == Some(a@),
            None => request_outcome(
                bytes@,
                config.public_status_uuid@,
                config.admin_password_hash@,
            ) is None,
        },
{
    if bytes.len() == 0 {
        return None;
    }
    let req = request_text(bytes);
    let (method, target) = parse_request_line(req.as_str());
    Some(route(method.as_str(), target.as_str(), req.as_str(), config))
}

/// What the gateway sends back once a routing decision is carried out.
pub enum Reply {
    /// Send this text.
    Send(String),
    /// Save the configuration (a failure to write it is passed over), then send this text.
    SaveThenSend(String),
    /// Send `200 OK` with the JSON document of the configuration and the runtime status.
    SendAdminConfig,
}

/// What the gateway sends back, with each text given by its characters.
pub enum ReplyOutcome {
    Send(Seq<char>),
    SaveThenSend(Seq<char>),
    SendAdminConfig,
}

impl View for Reply {
    type V = ReplyOutcome;

    open spec fn view(&self) -> ReplyOutcome {
        match self {
            Reply::Send(s) => ReplyOutcome::Send(s@),
            Reply::SaveThenSend(s) => ReplyOutcome::SaveThenSend(s@),
            Reply::SendAdminConfig => ReplyOutcome::SendAdminConfig,
        }
    }
}

/// The latest snapshot that the runtime status holds, or an empty one before the first.
pub open spec fn latest_payload_view(status: RuntimeStatus) -> Map<Seq<char>, Seq<char>> {
    match status.latest_payload {
        Some(p) => p@,
        None => Map::empty(),
    }
}

/// The status document: the JSON list that holds the snapshot `payload`, or `[]` where
/// writing it as JSON fails.
pub open spec fn status_document_text(payload: Map<Seq<char>, Seq<char>>) -> Seq<char> {
    match json_list_of_map(payload) {
        Some(s) => s,
        None => "[]"@,
    }
}

/// What the gateway sends back for a routing decision, given the latest snapshot.
pub open spec fn reply_of(o: RouteOutcome, payload: Map<Seq<char>, Seq<char>>) -> ReplyOutcome {
    match o {
        RouteOutcome::Reply(s) => ReplyOutcome::Send(s),
        RouteOutcome::ServeStatus => ReplyOutcome::Send(
            http_ok_text("application/json"@, status_document_text(payload)),
        ),
        RouteOutcome::ServeAdminConfig => ReplyOutcome::SendAdminConfig,
        RouteOutcome::RotatePublicId => ReplyOutcome::SaveThenSend(no_content_text()),
        RouteOutcome::SaveConfig => ReplyOutcome::SaveThenSend(no_content_text()),
        RouteOutcome::SetSport(_) => ReplyOutcome::SaveThenSend(no_content_text()),
    }
}

/// How a routing decision leaves the configuration: a fresh public id for a rotation,
/// the new sport for a change of sport, and otherwise as it was.
pub open spec fn config_effect(o: RouteOutcome, before: AppConfig, after: AppConfig) -> bool {
    match o {
        RouteOutcome::RotatePublicId => {
            &&& exists|n: u128| after.public_status_uuid@ == public_id_text(n as nat)
            &&& after == AppConfig { public_status_uuid: after.public_status_uuid, ..before }
        },
        RouteOutcome::SetSport(s) => after == AppConfig { active_sport: s, ..before },
        _ => after == before,
    }
}

/// Carries out a routing decision: changes the configuration as it says and gives the
/// reply, the status document built from the latest snapshot.
pub fn carry_out(action: RouteAction, config: &mut AppConfig, status: &RuntimeStatus) -> (r: Reply)
    ensures
        r@ == reply_of(action@, latest_payload_view(*status)),
        config_effect(action@, *old(config), *final(config)),
{
    match action {
        RouteAction::Reply(s) => Reply::Send(s),
        RouteAction::ServeStatus => {
            let json = match &status.latest_payload {
                Some(p) => p.json_list(),
                None => FieldMap::new().json_list(),
            };
            let body = match json {
                Ok(s) => s,
                Err(_) => "[]".to_string(),
            };
            Reply::Send(http_ok("application/json", body.as_str()))
        },
        RouteAction::ServeAdminConfig => Reply::SendAdminConfig,
        RouteAction::RotatePublicId => {
            config.public_status_uuid = new_public_id();
            Reply::SaveThenSend(http_no_content())
        },
        RouteAction::SaveConfig => Reply::SaveThenSend(http_no_content()),
        RouteAction::SetSport(s) => {
            config.active_sport = s;
            Reply::SaveThenSend(http_no_content())
        },
    }
}

/// Answers the request held in `bytes`: nothing for an empty request; else the reply to
/// its routing decision, with the configuration changed as that decision says.
pub fn serve_request(bytes: &[u8], config: &mut AppConfig, status: &RuntimeStatus) -> (r: Option<
    Reply,
>)
    ensures
        match request_outcome(
            bytes@,
            old(config).public_status_uuid@,
            old(config).admin_password_hash@,
        ) {
            None => r is None && *final(config) == *old(config),
            Some(o) => {
                &&& r matches Some(rep) && rep@ == reply_of(o, latest_payload_view(*status))
                &&& config_effect(o, *old(config), *final(config))
            },
        },
{
    match route_request(bytes, config) {
        None => None,
        Some(action) => Some(carry_out(action, config, status)),
    }
}

/// Every request for an admin path whose query string lacks the admin password as its
/// token is answered `401 Unauthorized`, whatever its method and body.
pub proof fn admin_requests_need_the_token(
    method: Seq<char>,
    target: Seq<char>,
    req: Seq<char>,
    public_uuid: Seq<char>,
    admin_password: Seq<char>,
)
    requires
        starts_with(target_parts(target).0, "/admin"@),
        query_token(target_parts(target).1) != admin_password,
    ensures
        route_outcome(method, target, req, public_uuid, admin_password) == RouteOutcome::Reply(
            unauthorized_text(),
        ),
{
    reveal_strlit("/admin");
    reveal_strlit("/");
    reveal_strlit("/status/");
    let path = target_parts(target).0;
    assert(path.take(6)[1] == 'a');
    assert(path != "/"@);
    if starts_with(path, "/status/"@) {
        assert(path.take(8)[1] == 's');
        assert(path.take(6)[1] == path[1]);
        assert(path.take(8)[1] == path[1]);
    }
}

/// A `GET` request for a status document is served exactly where it names the current
/// public id, and answered `404 Not Found` everywhere else.
pub proof fn status_served_only_at_the_public_id(
    target: Seq<char>,
    req: Seq<char>,
    public_uuid: Seq<char>,
    admin_password: Seq<char>,
)
    requires
        is_status_path(target_parts(target).0),
    ensures
        route_outcome("GET"@, target, req, public_uuid, admin_password) == if status_id(
            target_parts(target).0,
        ) == public_uuid {
            RouteOutcome::ServeStatus
        } else {
            RouteOutcome::Reply(not_found_text())
        },
{
    reveal_strlit("/");
    reveal_strlit("/status/");
    let path = target_parts(target).0;
    assert(path.take(8).len() == 8);
    assert(path != "/"@);
}

/// The status document of every public id is served at its published path.
pub proof fn published_status_path_is_served(n: nat, req: Seq<char>, admin_password: Seq<char>)
    ensures
        route_outcome(
            "GET"@,
            status_path_text(public_id_text(n)),
            req,
            public_id_text(n),
            admin_password,
        ) == RouteOutcome::ServeStatus,
{
    reveal_strlit("/");
    reveal_strlit("/status/");
    reveal_strlit(".json");
    public_id_shape(n);
    let id = public_id_text(n);
    let prefix = "/status/"@;
    let suffix = ".json"@;
    let t = status_path_text(id);
    assert(t.len() == 49);
    // No '?' in the target: the whole target is the path.
    assert forall|j: int| 0 <= j < t.len() implies t[j] != '?' by {
        if 8 <= j < 44 {
            assert(t[j] == id[j - 8]);
        }
    }
    find_char_from_bounds(t, '?', 0);
    assert(target_parts(t) == (t, Seq::<char>::empty()));
    // It is a status path.
    assert(t.take(8) =~= prefix);
    assert(t.skip(44) =~= suffix);
    assert(t != "/"@);
    // Trimming removes the prefix once and the suffix once.
    let rest = t.skip(8);
    assert(rest =~= id + suffix);
    assert(rest[0] == id[0]);
    assert(!starts_with(rest, prefix)) by {
        assert(rest.take(8)[0] == rest[0]);
    }
    reveal_with_fuel(trim_start_matches, 2);
    assert(trim_start_matches(t, prefix) == rest);
    assert(rest.take(36) =~= id);
    assert(!ends_with(id, suffix)) by {
        assert(id.skip(31)[4] == id[35]);
    }
    assert(rest.skip(36) =~= suffix);
    assert(ends_with(rest, suffix));
    assert(trim_end_matches(rest, suffix) == trim_end_matches(rest.take(36), suffix));
    assert(trim_end_matches(id, suffix) == id);
    assert(trim_end_matches(rest, suffix) == id);
}

/// An authorized `POST` to `/admin/sport` whose form names a sport switches to exactly that
/// sport: it is routed to `SetSport` of that sport, answered `204 No Content` after saving,
/// and the configured sport becomes that sport with nothing else changed.
pub proof fn sport_form_switches_to_the_named_sport(
    target: Seq<char>,
    req: Seq<char>,
    public_uuid: Seq<char>,
    admin_password: Seq<char>,
    sport: ActiveSport,
    payload: Map<Seq<char>, Seq<char>>,
    before: AppConfig,
    after: AppConfig,
)
    requires
        target_parts(target).0 == "/admin/sport"@,
        query_token(target_parts(target).1) == admin_password,
        pairs_map(form_pairs(body_text(req))).contains_key("active_sport"@),
        pairs_map(form_pairs(body_text(req)))["active_sport"@] == sport.name(),
    ensures
        route_outcome("POST"@, target, req, public_uuid, admin_password)
            == RouteOutcome::SetSport(sport),
        reply_of(route_outcome("POST"@, target, req, public_uuid, admin_password), payload)
            == ReplyOutcome::SaveThenSend(no_content_text()),
        config_effect(route_outcome("POST"@, target, req, public_uuid, admin_password), before, after)
            ==> (after == AppConfig { active_sport: sport, ..before }),
{
    reveal_strlit("/admin/sport");
    reveal_strlit("/");
    reveal_strlit("/status/");
    reveal_strlit("GET");
    reveal_strlit("POST");
    reveal_strlit("/admin");
    reveal_strlit("/admin/config");
    reveal_strlit("/admin/rotate");
    reveal_strlit("/admin/controller");
    let path = target_parts(target).0;
    assert(path.len() == 12);
    assert(path.take(6) =~= "/admin"@);
    assert("GET"@.len() == 3);
    assert("POST"@ != "GET"@);
    assert(path != "/admin/controller"@);
    assert(path != "/admin/rotate"@);
    crate::web::request::sport_name_round_trip(sport, sport.name());
}

} // verus!
