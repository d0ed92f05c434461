//! The typed status structure and the payload parser that produces it from a
//! status response's JSON bytes. The parser tolerates exactly the structural
//! variance the protocol exhibits in the wild: `description` may be a bare
//! string or an object carrying `text`, and `players.sample` may be absent.
//! Every other structural deviation is a classified parse failure.
use vstd::prelude::*;
use vstd::string::StringExecFns;

use crate::errors::{ParseError, PayloadFault};
use crate::json::{get_field, json_of, parse_json, spec_get, JsonValue};

verus! {

/// One entry of the player sample: an in-game name and an opaque identifier.
pub struct PlayerRef {
    pub name: String,
    pub id: String,
}

impl View for PlayerRef {
    type V = (Seq<char>, Seq<char>);

    open spec fn view(&self) -> (Seq<char>, Seq<char>) {
        (self.name@, self.id@)
    }
}

/// The host's banner text, kept in the shape the payload used: a bare string
/// or an object carrying `text`. Both resolve to the same text value.
pub enum Description {
    Plain(String),
    Object { text: String },
}

impl Description {
    /// The normalized text value, whichever shape carried it.
    pub open spec fn spec_text(&self) -> Seq<char> {
        match self {
            Description::Plain(s) => s@,
            Description::Object { text } => text@,
        }
    }

    pub open spec fn spec_is_object(&self) -> bool {
        self matches Description::Object { .. }
    }

    /// Normalizes either shape to its text value.
    pub fn text(&self) -> (r: &String)
        ensures
            r@ == self.spec_text(),
    {
        match self {
            Description::Plain(s) => s,
            Description::Object { text } => text,
        }
    }
}

/// Player-count information. An absent sample in the payload is an empty
/// sample here, never an error.
pub struct Players {
    pub max: u32,
    pub online: u32,
    pub sample: Vec<PlayerRef>,
}

/// The server software's version report.
pub struct VersionInfo {
    pub name: String,
    pub protocol: u32,
}

/// A parsed status response.
pub struct StatusResponse {
    pub description: Description,
    pub players: Players,
    pub version: VersionInfo,
}

/// The mathematical content of a [`StatusResponse`].
pub struct StatusView {
    pub description_is_object: bool,
    pub description_text: Seq<char>,
    pub max_players: u32,
    pub online_players: u32,
    pub sample: Seq<(Seq<char>, Seq<char>)>,
    pub version_name: Seq<char>,
    pub version_protocol: u32,
}

impl View for StatusResponse {
    type V = StatusView;

    open spec fn view(&self) -> StatusView {
        StatusView {
            description_is_object: self.description.spec_is_object(),
            description_text: self.description.spec_text(),
            max_players: self.players.max,
            online_players: self.players.online,
            sample: self.players.sample@.map(|i: int, p: PlayerRef| p@),
            version_name: self.version.name@,
            version_protocol: self.version.protocol,
        }
    }
}

/// The `description` field: a string, or an object with a `text` string; the
/// flag records which shape carried the text.
pub open spec fn spec_description(fields: Seq<(String, JsonValue)>) -> Result<
    (bool, Seq<char>),
    ParseError,
> {
    match spec_get(fields, "description"@) {
        None => Err(ParseError::InvalidPayload(PayloadFault::MissingDescription)),
        Some(JsonValue::Str(s)) => Ok((false, s@)),
        Some(JsonValue::Obj(dfields)) => match spec_get(dfields@, "text"@) {
            Some(JsonValue::Str(t)) => Ok((true, t@)),
            _ => Err(ParseError::InvalidPayload(PayloadFault::BadDescription)),
        },
        Some(_) => Err(ParseError::InvalidPayload(PayloadFault::BadDescription)),
    }
}

/// An integer field that must fit in a `u32`.
pub open spec fn spec_u32_field(fields: Seq<(String, JsonValue)>, key: Seq<char>) -> Option<u32> {
    match spec_get(fields, key) {
        Some(JsonValue::Int(v)) => if 0 <= v <= u32::MAX {
            Some(v as u32)
        } else {
            None
        },
        _ => None,
    }
}

/// One sample entry: an object with string `name` and `id`.
pub open spec fn spec_player(j: JsonValue) -> Option<(Seq<char>, Seq<char>)> {
    match j {
        JsonValue::Obj(f) => match (spec_get(f@, "name"@), spec_get(f@, "id"@)) {
            (Some(JsonValue::Str(n)), Some(JsonValue::Str(i))) => Some((n@, i@)),
            _ => None,
        },
        _ => None,
    }
}

/// A sample array is valid exactly when every element is a valid player.
pub open spec fn spec_sample_items(items: Seq<JsonValue>) -> Option<
    Seq<(Seq<char>, Seq<char>)>,
> {
    if forall|i: int| 0 <= i < items.len() ==> (#[trigger] spec_player(items[i])).is_some() {
        Some(items.map(|i: int, j: JsonValue| spec_player(j).unwrap()))
    } else {
        None
    }
}

/// The `sample` field of `players`: absent means empty, present must be an
/// array of valid players.
pub open spec fn spec_sample_field(pf: Seq<(String, JsonValue)>) -> Option<
    Seq<(Seq<char>, Seq<char>)>,
> {
    match spec_get(pf, "sample"@) {
        None => Some(Seq::empty()),
        Some(JsonValue::Arr(items)) => spec_sample_items(items@),
        Some(_) => None,
    }
}

/// The `players` field: an object with `max`, `online` and an optional sample.
pub open spec fn spec_players(fields: Seq<(String, JsonValue)>) -> Result<
    (u32, u32, Seq<(Seq<char>, Seq<char>)>),
    ParseError,
> {
    match spec_get(fields, "players"@) {
        None => Err(ParseError::InvalidPayload(PayloadFault::MissingPlayers)),
        Some(JsonValue::Obj(pf)) => match spec_u32_field(pf@, "max"@) {
            None => Err(ParseError::InvalidPayload(PayloadFault::BadMax)),
            Some(max) => match spec_u32_field(pf@, "online"@) {
                None => Err(ParseError::InvalidPayload(PayloadFault::BadOnline)),
                Some(online) => match spec_sample_field(pf@) {
                    None => Err(ParseError::InvalidPayload(PayloadFault::BadSample)),
                    Some(sample) => Ok((max, online, sample)),
                },
            },
        },
        Some(_) => Err(ParseError::InvalidPayload(PayloadFault::BadPlayers)),
    }
}

/// The `version` field: an object with a string `name` and a `u32` `protocol`.
pub open spec fn spec_version(fields: Seq<(String, JsonValue)>) -> Result<
    (Seq<char>, u32),
    ParseError,
> {
    match spec_get(fields, "version"@) {
        None => Err(ParseError::InvalidPayload(PayloadFault::MissingVersion)),
        Some(JsonValue::Obj(vf)) => match (spec_get(vf@, "name"@), spec_u32_field(
            vf@,
            "protocol"@,
        )) {
            (Some(JsonValue::Str(n)), Some(p)) => Ok((n@, p)),
            _ => Err(ParseError::InvalidPayload(PayloadFault::BadVersion)),
        },
        Some(_) => Err(ParseError::InvalidPayload(PayloadFault::BadVersion)),
    }
}

/// A whole status object.
pub open spec fn spec_parse_object(fields: Seq<(String, JsonValue)>) -> Result<
    StatusView,
    ParseError,
> {
    match spec_description(fields) {
        Err(e) => Err(e),
        Ok(d) => match spec_players(fields) {
            Err(e) => Err(e),
            Ok(p) => match spec_version(fields) {
                Err(e) => Err(e),
                Ok(v) => Ok(StatusView {
                    description_is_object: d.0,
                    description_text: d.1,
                    max_players: p.0,
                    online_players: p.1,
                    sample: p.2,
                    version_name: v.0,
                    version_protocol: v.1,
                }),
            },
        },
    }
}

/// What a status payload's bytes denote: the parsed status, or the first
/// fault found.
pub open spec fn spec_parse_status(doc: Option<JsonValue>) -> Result<StatusView, ParseError> {
    match doc {
        None => Err(ParseError::InvalidPayload(PayloadFault::NotJson)),
        Some(JsonValue::Obj(fields)) => spec_parse_object(fields@),
        Some(_) => Err(ParseError::InvalidPayload(PayloadFault::NotObject)),
    }
}

fn parse_description(fields: &Vec<(String, JsonValue)>) -> (r: Result<Description, ParseError>)
    ensures
        match r {
            Ok(d) => spec_description(fields@) == Ok::<(bool, Seq<char>), ParseError>(
                (d.spec_is_object(), d.spec_text()),
            ),
            Err(e) => spec_description(fields@) == Err::<(bool, Seq<char>), ParseError>(e),
        },
{
    let key = String::from_str("description");
    match get_field(fields, &key) {
        None => Err(ParseError::InvalidPayload(PayloadFault::MissingDescription)),
        Some(v) => match v {
            JsonValue::Str(s) => Ok(Description::Plain(s.clone())),
            JsonValue::Obj(dfields) => {
                let tkey = String::from_str("text");
                match get_field(dfields, &tkey) {
                    Some(t) => match t {
                        JsonValue::Str(text) => Ok(
                            Description::Object { text: text.clone() },
                        ),
                        _ => Err(ParseError::InvalidPayload(PayloadFault::BadDescription)),
                    },
                    None => Err(ParseError::InvalidPayload(PayloadFault::BadDescription)),
                }
            },
            _ => Err(ParseError::InvalidPayload(PayloadFault::BadDescription)),
        },
    }
}

fn get_u32_field(fields: &Vec<(String, JsonValue)>, key: &String) -> (r: Option<u32>)
    ensures
        r == spec_u32_field(fields@, key@),
{
    match get_field(fields, key) {
        Some(v) => match v {
            JsonValue::Int(n) => {
                let n: i64 = *n;
                if 0 <= n && n <= u32::MAX as i64 {
                    Some(n as u32)
                } else {
                    None
                }
            },
            _ => None,
        },
        None => None,
    }
}

fn parse_sample_items(items: &Vec<JsonValue>) -> (r: Option<Vec<PlayerRef>>)
    ensures
        match r {
            Some(ps) => spec_sample_items(items@) == Some(ps@.map(|i: int, p: PlayerRef| p@)),
            None => spec_sample_items(items@) == None::<Seq<(Seq<char>, Seq<char>)>>,
        },
{
    let namekey = String::from_str("name");
    let idkey = String::from_str("id");
    let mut out: Vec<PlayerRef> = Vec::new();
    let mut i: usize = 0;
    while i < items.len()
        invariant
            i <= items@.len(),
            out@.len() == i,
            namekey@ == "name"@,
            idkey@ == "id"@,
            forall|k: int| 0 <= k < i ==> (#[trigger] spec_player(items@[k])) == Some(out@[k]@),
        decreases items@.len() - i,
    {
        let item = &items[i];
        match item {
            JsonValue::Obj(f) => {
                let n = get_field(f, &namekey);
                let d = get_field(f, &idkey);
                match (n, d) {
                    (Some(JsonValue::Str(nm)), Some(JsonValue::Str(idv))) => {
                        out.push(PlayerRef { name: nm.clone(), id: idv.clone() });
                    },
                    _ => {
                        assert(spec_player(items@[i as int]) is None);
                        return None;
                    },
                }
            },
            _ => {
                assert(spec_player(items@[i as int]) is None);
                return None;
            },
        }
        i = i + 1;
    }
    proof {
        assert(items@.map(|i: int, j: JsonValue| spec_player(j).unwrap()) =~= out@.map(
            |i: int, p: PlayerRef| p@,
        ));
    }
    Some(out)
}

fn parse_players(fields: &Vec<(String, JsonValue)>) -> (r: Result<Players, ParseError>)
    ensures
        match r {
            Ok(p) => spec_players(fields@) == Ok::<(u32, u32, Seq<(Seq<char>, Seq<char>)>), ParseError>(
                (p.max, p.online, p.sample@.map(|i: int, q: PlayerRef| q@)),
            ),
            Err(e) => spec_players(fields@) == Err::<
                (u32, u32, Seq<(Seq<char>, Seq<char>)>),
                ParseError,
            >(e),
        },
{
    let pkey = String::from_str("players");
    match get_field(fields, &pkey) {
        None => Err(ParseError::InvalidPayload(PayloadFault::MissingPlayers)),
        Some(v) => match v {
            JsonValue::Obj(pf) => {
                let maxkey = String::from_str("max");
                let max = match get_u32_field(pf, &maxkey) {
                    Some(m) => m,
                    None => {
                        return Err(ParseError::InvalidPayload(PayloadFault::BadMax));
                    },
                };
                let onlinekey = String::from_str("online");
                let online = match get_u32_field(pf, &onlinekey) {
                    Some(m) => m,
                    None => {
                        return Err(ParseError::InvalidPayload(PayloadFault::BadOnline));
                    },
                };
                let skey = String::from_str("sample");
                let sample: Vec<PlayerRef> = match get_field(pf, &skey) {
                    None => {
                        let empty: Vec<PlayerRef> = Vec::new();
                        proof {
                            assert(empty@.map(|i: int, q: PlayerRef| q@) =~= Seq::<
                                (Seq<char>, Seq<char>),
                            >::empty());
                        }
                        empty
                    },
                    Some(sv) => match sv {
                        JsonValue::Arr(items) => match parse_sample_items(items) {
                            Some(ps) => ps,
                            None => {
                                return Err(ParseError::InvalidPayload(PayloadFault::BadSample));
                            },
                        },
                        _ => {
                            return Err(ParseError::InvalidPayload(PayloadFault::BadSample));
                        },
                    },
                };
                Ok(Players { max, online, sample })
            },
            _ => Err(ParseError::InvalidPayload(PayloadFault::BadPlayers)),
        },
    }
}

fn parse_version(fields: &Vec<(String, JsonValue)>) -> (r: Result<VersionInfo, ParseError>)
    ensures
        match r {
            Ok(v) => spec_version(fields@) == Ok::<(Seq<char>, u32), ParseError>(
                (v.name@, v.protocol),
            ),
            Err(e) => spec_version(fields@) == Err::<(Seq<char>, u32), ParseError>(e),
        },
{
    let vkey = String::from_str("version");
    match get_field(fields, &vkey) {
        None => Err(ParseError::InvalidPayload(PayloadFault::MissingVersion)),
        Some(v) => match v {
            JsonValue::Obj(vf) => {
                let namekey = String::from_str("name");
                let protokey = String::from_str("protocol");
                let proto = match get_u32_field(vf, &protokey) {
                    Some(p) => p,
                    None => {
                        return Err(ParseError::InvalidPayload(PayloadFault::BadVersion));
                    },
                };
                match get_field(vf, &namekey) {
                    Some(nv) => match nv {
                        JsonValue::Str(nm) => Ok(VersionInfo { name: nm.clone(), protocol: proto }),
                        _ => Err(ParseError::InvalidPayload(PayloadFault::BadVersion)),
                    },
                    None => Err(ParseError::InvalidPayload(PayloadFault::BadVersion)),
                }
            },
            _ => Err(ParseError::InvalidPayload(PayloadFault::BadVersion)),
        },
    }
}

/// Parses one status object, mirroring [`spec_parse_object`].
pub fn parse_status_object(fields: &Vec<(String, JsonValue)>) -> (r: Result<
    StatusResponse,
    ParseError,
>)
    ensures
        match r {
            Ok(st) => spec_parse_object(fields@) == Ok::<StatusView, ParseError>(st@),
            Err(e) => spec_parse_object(fields@) == Err::<StatusView, ParseError>(e),
        },
{
    let description = match parse_description(fields) {
        Ok(d) => d,
        Err(e) => {
            return Err(e);
        },
    };
    let players = match parse_players(fields) {
        Ok(p) => p,
        Err(e) => {
            return Err(e);
        },
    };
    let version = match parse_version(fields) {
        Ok(v) => v,
        Err(e) => {
            return Err(e);
        },
    };
    Ok(StatusResponse { description, players, version })
}

/// Parses a status payload's JSON bytes into the typed status structure, or
/// reports the first fault, exactly as [`spec_parse_status`] assigns them.
pub fn parse_status_payload(bytes: &[u8]) -> (r: Result<StatusResponse, ParseError>)
    ensures
        match r {
            Ok(st) => spec_parse_status(json_of(bytes@)) == Ok::<StatusView, ParseError>(st@),
            Err(e) => spec_parse_status(json_of(bytes@)) == Err::<StatusView, ParseError>(e),
        },
{
    match parse_json(bytes) {
        None => Err(ParseError::InvalidPayload(PayloadFault::NotJson)),
        Some(root) => match root {
            JsonValue::Obj(fields) => parse_status_object(&fields),
            _ => Err(ParseError::InvalidPayload(PayloadFault::NotObject)),
        },
    }
}

} // verus!
