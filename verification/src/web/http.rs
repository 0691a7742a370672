use vstd::prelude::*;
use vstd::utf8::{encode_scalar, encode_utf8};

use crate::text::{append_str, decimal, decimal_string};

verus! {

/// The dashboard page up to its link to the status document.
pub const DASHBOARD_HEAD: &'static str = r#"<!doctype html>
<html lang="en">
<head>
<meta charset="utf-8" />
<meta name="viewport" content="width=device-width, initial-scale=1" />
<title>Daktronics Gateway Dashboard</title>
<style>
:root {
  --bg: #081d4c;
  --panel: #142b5a;
  --panel-border: #3a5586;
  --tile: #041a46;
  --text: #eaf1ff;
  --muted: #8ab2f7;
}
* { box-sizing: border-box; }
body {
  margin: 0;
  font-family: Inter, system-ui, -apple-system, Segoe UI, Roboto, sans-serif;
  background: linear-gradient(180deg, #07205a, #081f50);
  color: var(--text);
  padding: 24px;
}
.shell { max-width: 1120px; margin: 0 auto; }
.header {
  border: 1px solid var(--panel-border);
  border-radius: 16px;
  background: rgba(24, 44, 90, 0.95);
  padding: 16px;
  display: flex;
  justify-content: space-between;
  align-items: center;
  gap: 12px;
}
.title h1 { margin: 0; font-size: 39px; line-height: 1.1; }
.title p { margin: 8px 0 0; color: var(--muted); font-size: 28px; }
.btns { display: flex; gap: 12px; flex-wrap: wrap; }
.btn {
  border: 1px solid #4c80cf;
  border-radius: 12px;
  color: #eef4ff;
  text-decoration: none;
  padding: 10px 16px;
  font-size: 22px;
  font-weight: 600;
  background: #1d4f95;
}
.board {
  margin-top: 20px;
  border: 1px solid var(--panel-border);
  border-radius: 16px;
  background: var(--panel);
  padding: 16px;
}
.score-grid {
  display: grid;
  grid-template-columns: 1fr 0.35fr 1fr;
  gap: 12px;
}
.card {
  background: var(--tile);
  border: 1px solid #395789;
  border-radius: 14px;
  padding: 16px;
  min-height: 170px;
}
.label { text-transform: uppercase; letter-spacing: 0.08em; color: #8ab2f7; font-size: 20px; }
.name { font-size: 54px; font-weight: 700; margin-top: 8px; }
.score { font-size: 80px; margin-top: 14px; line-height: 1; font-weight: 700; }
.middle { text-align: center; display: flex; flex-direction: column; justify-content: center; }
.middle .v { font-size: 56px; line-height: 1.1; font-weight: 700; }
.details {
  margin-top: 12px;
  display: grid;
  grid-template-columns: repeat(6, 1fr);
  gap: 10px;
  border: 1px solid #395789;
  border-radius: 14px;
  padding: 10px;
  background: rgba(7, 29, 74, 0.8);
}
.detail {
  border: 1px solid #395789;
  border-radius: 12px;
  background: #061c49;
  min-height: 100px;
  padding: 10px;
}
.detail .k { text-transform: uppercase; color: #8ab2f7; font-size: 18px; letter-spacing: 0.06em; }
.detail .v { font-size: 46px; margin-top: 6px; font-weight: 700; }
@media (max-width: 980px) {
  .title h1 { font-size: 30px; }
  .title p { font-size: 18px; }
  .score-grid { grid-template-columns: 1fr; }
  .details { grid-template-columns: repeat(2, 1fr); }
}
</style>
</head>
<body>
  <div class="shell">
    <div class="header">
      <div class="title">
        <h1>Daktronics Gateway Dashboard</h1>
        <p>Live scoreboard relay and control surface</p>
      </div>
      <div class="btns">
        <a class="btn" href=""#;

/// The dashboard page between its link to the status document and the script's
/// reference to it.
pub const DASHBOARD_MIDDLE: &'static str = r#"" target="_blank">View Status JSON</a>
        <a class="btn" href="/admin">Open Admin Panel</a>
      </div>
    </div>

    <div class="board">
      <div class="score-grid">
        <div class="card">
          <div class="label">Home</div>
          <div id="home_team" class="name">Home Team</div>
          <div id="home_score" class="score">--</div>
        </div>
        <div class="card middle">
          <div class="label">Period</div>
          <div id="period" class="v">--</div>
          <div class="label" style="margin-top:8px;">Clock</div>
          <div id="clock" class="v">--:--</div>
        </div>
        <div class="card">
          <div class="label">Away</div>
          <div id="away_team" class="name">Away Team</div>
          <div id="away_score" class="score">--</div>
        </div>
      </div>

      <div class="details">
        <div class="detail"><div class="k">Home Timeouts</div><div id="home_timeouts" class="v">--</div></div>
        <div class="detail"><div class="k">Away Timeouts</div><div id="away_timeouts" class="v">--</div></div>
        <div class="detail"><div class="k">Detail 1</div><div id="detail_1" class="v">--</div></div>
        <div class="detail"><div class="k">Detail 2</div><div id="detail_2" class="v">--</div></div>
        <div class="detail"><div class="k">Detail 3</div><div id="detail_3" class="v">--</div></div>
        <div class="detail"><div class="k">Detail 6</div><div id="detail_6" class="v">--</div></div>
      </div>
    </div>
  </div>

<script>
const STATUS_URL = '"#;

/// The dashboard page after the script's reference to the status document.
pub const DASHBOARD_TAIL: &'static str = r#"';
const choose = (row, keys, fallback='--') => {
  for (const k of keys) {
    const v = row[k];
    if (v !== undefined && v !== null && String(v).trim() !== '') return String(v);
  }
  return fallback;
};

async function refresh() {
  try {
    const res = await fetch(STATUS_URL, { cache: 'no-store' });
    if (!res.ok) return;
    const data = await res.json();
    const row = Array.isArray(data) ? (data[0] || {}) : {};

    document.getElementById('home_team').textContent = choose(row, ['home_team']);
    document.getElementById('away_team').textContent = choose(row, ['away_team']);
    document.getElementById('home_score').textContent = choose(row, ['home_score']);
    document.getElementById('away_score').textContent = choose(row, ['away_score']);
    document.getElementById('period').textContent = choose(row, ['period', 'quarter']);
    document.getElementById('clock').textContent = choose(row, ['clock', 'main_clock_time'], '--:--');
    document.getElementById('home_timeouts').textContent = choose(row, ['home_timeouts', 'home_time_outs_left_total']);
    document.getElementById('away_timeouts').textContent = choose(row, ['away_timeouts', 'guest_time_outs_left_total']);
    document.getElementById('detail_1').textContent = choose(row, ['possession', 'inning']);
    document.getElementById('detail_2').textContent = choose(row, ['balls', 'downs']);
    document.getElementById('detail_3').textContent = choose(row, ['strikes', 'yards_to_go']);
    document.getElementById('detail_6').textContent = choose(row, ['outs', 'fouls']);
  } catch (_) {}
}
setInterval(refresh, 1500);
refresh();
</script>
</body></html>"#;

/// The admin page.
pub const ADMIN_PAGE: &'static str = "<html><body><h2>Admin</h2><form method='post' action='/admin/controller?token=admin'><input name='controller_type' value='daktronics'/><button>Set Controller</button></form><form method='post' action='/admin/sport?token=admin'><input name='active_sport' value='basketball'/><button>Set Sport</button></form><form method='post' action='/admin/rotate?token=admin'><button>Rotate URL</button></form><a href='/admin/config?token=admin'>View config</a></body></html>";

/// The length in bytes of the UTF-8 encoding of `s`, as `str::len` reports it.
pub open spec fn byte_len(s: Seq<char>) -> nat {
    (encode_utf8(s).len() as usize) as nat
}

/// A `200 OK` response carrying `body` as `content_type`, with the body's length in bytes.
pub open spec fn http_ok_text(content_type: Seq<char>, body: Seq<char>) -> Seq<char> {
    "HTTP/1.1 200 OK\r\nContent-Type: "@ + content_type + "\r\nContent-Length: "@ + decimal(
        byte_len(body),
    ) + "\r\n\r\n"@ + body
}

/// The `200 OK` response for `body`.
pub fn http_ok(content_type: &str, body: &str) -> (r: String)
    ensures
        r@ == http_ok_text(content_type@, body@),
{
    let mut r = String::new();
    append_str(&mut r, "HTTP/1.1 200 OK\r\nContent-Type: ");
    append_str(&mut r, content_type);
    append_str(&mut r, "\r\nContent-Length: ");
    let n: usize = body.len();
    let digits = decimal_string(n as u128);
    append_str(&mut r, digits.as_str());
    append_str(&mut r, "\r\n\r\n");
    append_str(&mut r, body);
    r
}

/// The text of the `204 No Content` response.
pub open spec fn no_content_text() -> Seq<char> {
    "HTTP/1.1 204 No Content\r\nContent-Length: 0\r\n\r\n"@
}

/// The `204 No Content` response.
pub fn http_no_content() -> (r: String)
    ensures
        r@ == no_content_text(),
{
    "HTTP/1.1 204 No Content\r\nContent-Length: 0\r\n\r\n".to_string()
}

/// The text of the `404 Not Found` response.
pub open spec fn not_found_text() -> Seq<char> {
    "HTTP/1.1 404 Not Found\r\nContent-Length: 0\r\n\r\n"@
}

/// The `404 Not Found` response.
pub fn http_not_found() -> (r: String)
    ensures
        r@ == not_found_text(),
{
    "HTTP/1.1 404 Not Found\r\nContent-Length: 0\r\n\r\n".to_string()
}

/// The text of the `400 Bad Request` response.
pub open spec fn bad_request_text() -> Seq<char> {
    "HTTP/1.1 400 Bad Request\r\nContent-Length: 0\r\n\r\n"@
}

/// The `400 Bad Request` response.
pub fn http_bad_request() -> (r: String)
    ensures
        r@ == bad_request_text(),
{
    "HTTP/1.1 400 Bad Request\r\nContent-Length: 0\r\n\r\n".to_string()
}

/// The text of the `401 Unauthorized` response.
pub open spec fn unauthorized_text() -> Seq<char> {
    "HTTP/1.1 401 Unauthorized\r\nContent-Length: 0\r\n\r\n"@
}

/// The `401 Unauthorized` response.
pub fn http_unauthorized() -> (r: String)
    ensures
        r@ == unauthorized_text(),
{
    "HTTP/1.1 401 Unauthorized\r\nContent-Length: 0\r\n\r\n".to_string()
}

/// The dashboard page, which links to and polls the status document of `public_uuid`.
pub open spec fn dashboard_text(public_uuid: Seq<char>) -> Seq<char> {
    DASHBOARD_HEAD@ + status_path_text(public_uuid) + DASHBOARD_MIDDLE@ + status_path_text(
        public_uuid,
    ) + DASHBOARD_TAIL@
}

/// The dashboard page for `public_uuid`.
pub fn dashboard_html(public_uuid: &str) -> (r: String)
    ensures
        r@ == dashboard_text(public_uuid@),
{
    let path = public_status_path(public_uuid);
    let mut r = String::new();
    append_str(&mut r, DASHBOARD_HEAD);
    append_str(&mut r, path.as_str());
    append_str(&mut r, DASHBOARD_MIDDLE);
    append_str(&mut r, path.as_str());
    append_str(&mut r, DASHBOARD_TAIL);
    r
}

/// The path at which the status document of `public_uuid` is served.
pub open spec fn status_path_text(public_uuid: Seq<char>) -> Seq<char> {
    "/status/"@ + public_uuid + ".json"@
}

/// The path at which the status document of `public_uuid` is served.
pub fn public_status_path(public_uuid: &str) -> (r: String)
    ensures
        r@ == status_path_text(public_uuid@),
{
    let mut r = String::new();
    append_str(&mut r, "/status/");
    append_str(&mut r, public_uuid);
    append_str(&mut r, ".json");
    r
}

/// The fixed text of the dashboard page before the first place of its public id.
pub open spec fn dashboard_before_id() -> Seq<char> {
    DASHBOARD_HEAD@ + "/status/"@
}

/// The fixed text of the dashboard page between the two places of its public id.
pub open spec fn dashboard_between_ids() -> Seq<char> {
    ".json"@ + DASHBOARD_MIDDLE@ + "/status/"@
}

/// The fixed text of the dashboard page after the second place of its public id.
pub open spec fn dashboard_after_ids() -> Seq<char> {
    ".json"@ + DASHBOARD_TAIL@
}

/// The dashboard page depends on its public id only where the id stands, verbatim, twice:
/// it is a fixed text, the id, a fixed text, the id, and a fixed text; so it is longer
/// than the page for an empty id by twice the id's length.
pub proof fn dashboard_varies_only_in_its_ids(u: Seq<char>)
    ensures
        dashboard_text(u) == dashboard_before_id() + u + dashboard_between_ids() + u
            + dashboard_after_ids(),
        dashboard_text(u).len() == dashboard_text(Seq::empty()).len() + 2 * u.len(),
{
    assert(dashboard_text(u) =~= dashboard_before_id() + u + dashboard_between_ids() + u
        + dashboard_after_ids());
    let e = Seq::<char>::empty();
    assert(dashboard_text(e) =~= dashboard_before_id() + e + dashboard_between_ids() + e
        + dashboard_after_ids());
}

/// The UTF-8 encoding of two texts one after the other is their encodings one after the
/// other.
pub proof fn lemma_encode_utf8_concat(a: Seq<char>, b: Seq<char>)
    ensures
        encode_utf8(a + b) == encode_utf8(a) + encode_utf8(b),
    decreases a.len(),
{
    if a.len() == 0 {
        assert(a + b =~= b);
        assert(encode_utf8(a) =~= Seq::<u8>::empty());
        assert(encode_utf8(a) + encode_utf8(b) =~= encode_utf8(b));
    } else {
        assert((a + b)[0] == a[0]);
        assert((a + b).drop_first() =~= a.drop_first() + b);
        lemma_encode_utf8_concat(a.drop_first(), b);
        let head = encode_scalar(a[0] as u32);
        assert(encode_utf8(a + b) == head + encode_utf8(a.drop_first() + b));
        assert(encode_utf8(a) == head + encode_utf8(a.drop_first()));
        assert(head + (encode_utf8(a.drop_first()) + encode_utf8(b)) =~= (head + encode_utf8(
            a.drop_first(),
        )) + encode_utf8(b));
    }
}

/// The dashboard page for an id is, in bytes as in characters, the page for the empty id
/// plus the id twice over.
pub proof fn dashboard_length_grows_with_the_id(u: Seq<char>)
    ensures
        encode_utf8(dashboard_text(u)).len() == encode_utf8(dashboard_text(Seq::empty())).len()
            + 2 * encode_utf8(u).len(),
        dashboard_text(u).len() == dashboard_text(Seq::empty()).len() + 2 * u.len(),
{
    let e = Seq::<char>::empty();
    dashboard_varies_only_in_its_ids(u);
    dashboard_varies_only_in_its_ids(e);
    let p = dashboard_before_id();
    let q = dashboard_between_ids();
    let r = dashboard_after_ids();
    lemma_encode_utf8_concat(p + u + q + u, r);
    lemma_encode_utf8_concat(p + u + q, u);
    lemma_encode_utf8_concat(p + u, q);
    lemma_encode_utf8_concat(p, u);
    lemma_encode_utf8_concat(p + e + q + e, r);
    lemma_encode_utf8_concat(p + e + q, e);
    lemma_encode_utf8_concat(p + e, q);
    lemma_encode_utf8_concat(p, e);
    assert(encode_utf8(e) =~= Seq::<u8>::empty());
}

/// The dashboard page for `u` is the page for any other id `v` with `u` put in place of
/// `v` at the two places where `v` stands, and nothing else changed.
pub proof fn dashboard_for_another_id(u: Seq<char>, v: Seq<char>)
    ensures
        ({
            let page = dashboard_text(v);
            let first = dashboard_before_id().len() as int;
            let second = first + v.len() + dashboard_between_ids().len();
            dashboard_text(u) == page.subrange(0, first) + u + page.subrange(
                first + v.len(),
                second,
            ) + u + page.skip(second + v.len())
        }),
{
    dashboard_varies_only_in_its_ids(u);
    dashboard_varies_only_in_its_ids(v);
    let page = dashboard_text(v);
    let p = dashboard_before_id();
    let q = dashboard_between_ids();
    let r = dashboard_after_ids();
    let first = p.len() as int;
    let second = first + v.len() + q.len();
    assert(page.subrange(0, first) =~= p);
    assert(page.subrange(first + v.len(), second) =~= q);
    assert(page.skip(second + v.len()) =~= r);
}

} // verus!
