pub mod http;
pub mod public_id;
pub mod request;
pub mod route;
pub mod status;

pub use http::{dashboard_html, http_bad_request, http_no_content, http_not_found, http_ok, http_unauthorized};
pub use public_id::{new_public_id, now_ts};
pub use request::{authorized, parse_form, parse_sport};
pub use route::{carry_out, route, route_request, serve_request, Reply, RouteAction};
pub use status::{flatten, JsonField, PollAction, PollEvent, RuntimeStatus};
pub use crate::text::to_snake_case;
