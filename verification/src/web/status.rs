use vstd::prelude::*;

use crate::controllers::ActiveSport;
use crate::fields::{lemma_pairs_map_tail_without_key, pairs_map, FieldMap};
use crate::text::{append_str, decimal, owned, snake_case, starts_with, to_snake_case};
use crate::web::public_id::now_ts;

verus! {

/// One field of a scoreboard snapshot as serialized to JSON: `null`, a string, or any other
/// JSON value together with its JSON text.
pub enum JsonField {
    Null,
    Text(String),
    Other(String),
}

/// The text a snapshot field is published as: nothing for `null`, a string as it is, any
/// other value as its JSON text.
pub open spec fn field_text(f: JsonField) -> Seq<char> {
    match f {
        JsonField::Null => Seq::empty(),
        JsonField::Text(s) => s@,
        JsonField::Other(s) => s@,
    }
}

/// The published pairs of a snapshot's fields: each key in snake case with its text.
pub open spec fn flat_pairs(fields: Seq<(String, JsonField)>) -> Seq<(Seq<char>, Seq<char>)> {
    fields.map_values(|p: (String, JsonField)| (snake_case(p.0@), field_text(p.1)))
}

/// The flat text map of a snapshot's fields; where two keys share a snake-case form, the
/// later field stands.
pub fn flatten(fields: Vec<(String, JsonField)>) -> (r: FieldMap)
    ensures
        r@ == pairs_map(flat_pairs(fields@)),
{
    let ghost target = flat_pairs(fields@);
    let mut out = FieldMap::new();
    assert(target.take(0) =~= Seq::<(Seq<char>, Seq<char>)>::empty());
    let mut i: usize = 0;
    while i < fields.len()
        invariant
            i <= fields@.len(),
            target == flat_pairs(fields@),
            out@ == pairs_map(target.take(i as int)),
        decreases fields@.len() - i,
    {
        let key = to_snake_case(fields[i].0.as_str());
        let value = match &fields[i].1 {
            JsonField::Null => String::new(),
            JsonField::Text(s) => s.clone(),
            JsonField::Other(s) => s.clone(),
        };
        assert(target.take(i + 1).drop_last() == target.take(i as int));
        assert(target.take(i + 1).last() == target[i as int]);
        out.insert(key, value);
        i = i + 1;
    }
    assert(target.take(i as int) == target);
    out
}

/// Where a later field has another snake-case key, the pair at index `i` sets its key.
proof fn lemma_last_pair_for_key(ps: Seq<(Seq<char>, Seq<char>)>, i: int)
    requires
        0 <= i < ps.len(),
        forall|j: int| i < j < ps.len() ==> ps[j].0 != ps[i].0,
    ensures
        pairs_map(ps).contains_key(ps[i].0),
        pairs_map(ps)[ps[i].0] == ps[i].1,
{
    lemma_pairs_map_tail_without_key(ps, i + 1, ps[i].0);
    assert(ps.take(i + 1).drop_last() == ps.take(i));
    assert(ps.take(i + 1).last() == ps[i]);
}

/// A flattened snapshot publishes each field, under its key in snake case, with the field's
/// own text: a string as it is, any other JSON value as its JSON text, and nothing only for
/// `null`; where two keys share a snake-case form, the later field's.
pub proof fn flatten_publishes_field_values(fields: Seq<(String, JsonField)>, i: int)
    requires
        0 <= i < fields.len(),
        forall|j: int|
            i < j < fields.len() ==> snake_case(#[trigger] fields[j].0@) != snake_case(fields[i].0@),
    ensures
        pairs_map(flat_pairs(fields)).contains_key(snake_case(fields[i].0@)),
        pairs_map(flat_pairs(fields))[snake_case(fields[i].0@)] == match fields[i].1 {
            JsonField::Null => Seq::<char>::empty(),
            JsonField::Text(s) => s@,
            JsonField::Other(s) => s@,
        },
{
    let ps = flat_pairs(fields);
    assert forall|j: int| i < j < ps.len() implies ps[j].0 != ps[i].0 by {
        assert(ps[j].0 == snake_case(fields[j].0@));
    }
    lemma_last_pair_for_key(ps, i);
}

/// What the gateway reports of its link to the controller and of its parser.
#[derive(Clone, Debug)]
pub struct RuntimeStatus {
    pub last_update: Option<String>,
    pub parser_status: String,
    pub controller_connection_state: String,
    pub latest_payload: Option<FieldMap>,
}

impl RuntimeStatus {
    /// Both states are among those reported, and a snapshot is only ever held together
    /// with the time of its update.
    pub open spec fn is_well_formed(self) -> bool {
        &&& connection_state_ok(self.controller_connection_state@)
        &&& parser_status_ok(self.parser_status@)
        &&& (self.latest_payload is Some ==> self.last_update is Some)
    }
}

impl Default for RuntimeStatus {
    fn default() -> (r: Self)
        ensures
            r.is_well_formed(),
            r.last_update is None,
            r.parser_status@ == "starting"@,
            r.controller_connection_state@ == "disconnected"@,
            r.latest_payload is None,
    {
        RuntimeStatus {
            last_update: None,
            parser_status: owned("starting"),
            controller_connection_state: owned("disconnected"),
            latest_payload: None,
        }
    }
}

/// A snapshot with the fields that say where it comes from: the sport, the controller,
/// the time of the update `secs` (in decimal) and the public id.
pub open spec fn annotated(
    payload: Map<Seq<char>, Seq<char>>,
    sport: ActiveSport,
    secs: u64,
    public_id: Seq<char>,
) -> Map<Seq<char>, Seq<char>> {
    payload.insert("sport"@, sport.name()).insert("controller"@, "daktronics"@).insert(
        "updated_at"@,
        decimal(secs as nat),
    ).insert("public_id"@, public_id)
}

/// Adds to a snapshot the fields that say where it comes from: the sport, the controller,
/// the time of the update (seconds since the Unix epoch, in decimal) and the public id.
pub fn annotate_payload(payload: &mut FieldMap, sport: ActiveSport, public_id: &str)
    ensures
        exists|secs: u64|
            #![trigger decimal(secs as nat)]
            final(payload)@ == annotated(old(payload)@, sport, secs, public_id@),
{
    payload.insert(owned("sport"), owned(sport.as_str()));
    payload.insert(owned("controller"), owned("daktronics"));
    let ts = now_ts();
    payload.insert(owned("updated_at"), ts);
    payload.insert(owned("public_id"), owned(public_id));
}

/// What happened in the loop that polls the controller.
pub enum PollEvent {
    /// A new attempt to reach the controller begins.
    Connecting,
    /// The serial port could not be opened; the error's text.
    OpenFailed(String),
    /// The parser for the sport could not be set up; the error's text.
    ParserFailed(String),
    /// The port is open and the parser ready.
    Connected,
    /// The configuration was read again: the sport being parsed and the configured one.
    ConfigChecked { running: ActiveSport, configured: ActiveSport },
    /// The controller sent a changed snapshot, already flattened, of this sport; the
    /// status document's public id at the start of the connection.
    Snapshot { payload: FieldMap, sport: ActiveSport, public_id: String },
    /// The controller sent nothing new.
    Unchanged,
    /// Reading from the controller failed; the error's text.
    ReadFailed(String),
}

/// What the polling loop does next.
#[derive(Debug, Clone, Copy, PartialEq, Eq, Structural)]
pub enum PollAction {
    /// Open the serial port and set up the parser for the configured sport.
    OpenPort,
    /// Wait this many seconds, then start a new connection.
    PauseThenReconnect(u64),
    /// Start a new connection at once.
    Reconnect,
    /// Read the configuration again.
    CheckConfig,
    /// Read the next snapshot from the controller.
    Read,
}

/// `"error: "` followed by `e`.
pub open spec fn error_text(e: Seq<char>) -> Seq<char> {
    "error: "@ + e
}

/// Every error text begins with `"error: "`.
pub proof fn error_text_starts_with_error(e: Seq<char>)
    ensures
        starts_with(error_text(e), "error: "@),
{
    assert(error_text(e).take("error: "@.len() as int) =~= "error: "@);
}

/// The states the controller link is reported in: `disconnected`, `connecting`,
/// `connected`, `error`, or an error text.
pub open spec fn connection_state_ok(s: Seq<char>) -> bool {
    ||| s == "disconnected"@
    ||| s == "connecting"@
    ||| s == "connected"@
    ||| s == "error"@
    ||| starts_with(s, "error: "@)
}

/// The states the parser is reported in: `starting`, `running`, `disconnected`, or an
/// error text.
pub open spec fn parser_status_ok(s: Seq<char>) -> bool {
    ||| s == "starting"@
    ||| s == "running"@
    ||| s == "disconnected"@
    ||| starts_with(s, "error: "@)
}

fn error_string(e: &str) -> (r: String)
    ensures
        r@ == error_text(e@),
{
    let mut r = owned("error: ");
    append_str(&mut r, e);
    r
}

impl RuntimeStatus {
    /// Records an event of the polling loop and decides the loop's next step.
    pub fn on_poll_event(&mut self, event: PollEvent) -> (next: PollAction)
        ensures
            old(self).is_well_formed() ==> final(self).is_well_formed(),
            match event {
                PollEvent::Connecting => {
                    &&& next == PollAction::OpenPort
                    &&& final(self).controller_connection_state@ == "connecting"@
                    &&& final(self).parser_status == old(self).parser_status
                    &&& final(self).last_update == old(self).last_update
                    &&& final(self).latest_payload == old(self).latest_payload
                },
                PollEvent::OpenFailed(e) => {
                    &&& next == PollAction::PauseThenReconnect(2)
                    &&& final(self).controller_connection_state@ == error_text(e@)
                    &&& final(self).parser_status@ == "disconnected"@
                    &&& final(self).last_update == old(self).last_update
                    &&& final(self).latest_payload == old(self).latest_payload
                },
                PollEvent::ParserFailed(e) => {
                    &&& next == PollAction::PauseThenReconnect(2)
                    &&& final(self).parser_status@ == error_text(e@)
                    &&& final(self).controller_connection_state@ == "error"@
                    &&& final(self).last_update == old(self).last_update
                    &&& final(self).latest_payload == old(self).latest_payload
                },
                PollEvent::Connected => {
                    &&& next == PollAction::CheckConfig
                    &&& final(self).controller_connection_state@ == "connected"@
                    &&& final(self).parser_status@ == "running"@
                    &&& final(self).last_update == old(self).last_update
                    &&& final(self).latest_payload == old(self).latest_payload
                },
                PollEvent::ConfigChecked { running, configured } => {
                    &&& next == (if running == configured {
                        PollAction::Read
                    } else {
                        PollAction::Reconnect
                    })
                    &&& *final(self) == *old(self)
                },
                PollEvent::Snapshot { payload, sport, public_id } => {
                    &&& next == PollAction::CheckConfig
                    &&& final(self).parser_status == old(self).parser_status
                    &&& final(self).controller_connection_state == old(
                        self,
                    ).controller_connection_state
                    &&& exists|secs: u64|
                        #![trigger decimal(secs as nat)]
                        final(self).last_update matches Some(t) && t@ == decimal(secs as nat)
                    &&& exists|secs: u64|
                        #![trigger decimal(secs as nat)]
                        final(self).latest_payload matches Some(p) && p@ == annotated(
                            payload@,
                            sport,
                            secs,
                            public_id@,
                        )
                },
                PollEvent::Unchanged => {
                    &&& next == PollAction::CheckConfig
                    &&& *final(self) == *old(self)
                },
                PollEvent::ReadFailed(e) => {
                    &&& next == PollAction::Reconnect
                    &&& final(self).parser_status@ == error_text(e@)
                    &&& final(self).controller_connection_state@ == "disconnected"@
                    &&& final(self).last_update == old(self).last_update
                    &&& final(self).latest_payload == old(self).latest_payload
                },
            },
    {
        match event {
            PollEvent::Connecting => {
                self.controller_connection_state = owned("connecting");
                PollAction::OpenPort
            },
            PollEvent::OpenFailed(e) => {
                proof {
                    error_text_starts_with_error(e@);
                }
                self.controller_connection_state = error_string(e.as_str());
                self.parser_status = owned("disconnected");
                PollAction::PauseThenReconnect(2)
            },
            PollEvent::ParserFailed(e) => {
                proof {
                    error_text_starts_with_error(e@);
                }
                self.parser_status = error_string(e.as_str());
                self.controller_connection_state = owned("error");
                PollAction::PauseThenReconnect(2)
            },
            PollEvent::Connected => {
                self.controller_connection_state = owned("connected");
                self.parser_status = owned("running");
                PollAction::CheckConfig
            },
            PollEvent::ConfigChecked { running, configured } => {
                if running == configured {
                    PollAction::Read
                } else {
                    PollAction::Reconnect
                }
            },
            PollEvent::Snapshot { payload, sport, public_id } => {
                let mut payload = payload;
                annotate_payload(&mut payload, sport, public_id.as_str());
                self.last_update = Some(now_ts());
                self.latest_payload = Some(payload);
                PollAction::CheckConfig
            },
            PollEvent::Unchanged => PollAction::CheckConfig,
            PollEvent::ReadFailed(e) => {
                proof {
                    error_text_starts_with_error(e@);
                }
                self.parser_status = error_string(e.as_str());
                self.controller_connection_state = owned("disconnected");
                PollAction::Reconnect
            },
        }
    }
}

} // verus!
