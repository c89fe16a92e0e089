use vstd::prelude::*;
use vstd::utf8::encode_utf8;
use crate::text::{decimal, decimal_string};

verus! {

/// The fields of an inter-plugin request that the plugin reads; each is `None` where
/// the request has no such field or one of another type.
#[derive(Clone, Debug)]
pub struct IpcRequest {
    pub schema: Option<String>,
    pub version: Option<u64>,
    pub action: Option<String>,
    pub player: Option<String>,
}

/// The answer to an inter-plugin request.
#[derive(Debug)]
pub enum IpcResponse {
    /// The schema, its version and the actions it supports.
    Capabilities,
    /// The first quest the player tracks, with its progress; all `None` where the player
    /// is unknown, tracks nothing or tracks a quest the catalogue no longer has.
    ActiveQuest { quest_id: Option<String>, quest_name: Option<String>, quest_progress: Option<u64> },
}

pub open spec fn opt_view(o: Option<String>) -> Option<Seq<char>> {
    match o {
        Some(s) => Some(s@),
        None => None,
    }
}

/// The answer as plain values.
pub enum IpcAnswer {
    Capabilities,
    ActiveQuest { quest_id: Option<Seq<char>>, quest_name: Option<Seq<char>>, quest_progress: Option<u64> },
}

impl View for IpcResponse {
    type V = IpcAnswer;

    open spec fn view(&self) -> IpcAnswer {
        match self {
            IpcResponse::Capabilities => IpcAnswer::Capabilities,
            IpcResponse::ActiveQuest { quest_id, quest_name, quest_progress } => IpcAnswer::ActiveQuest {
                quest_id: opt_view(*quest_id),
                quest_name: opt_view(*quest_name),
                quest_progress: *quest_progress,
            },
        }
    }
}

pub open spec fn answer_view(r: Result<IpcResponse, String>) -> Result<IpcAnswer, Seq<char>> {
    match r {
        Ok(a) => Ok(a@),
        Err(e) => Err(e@),
    }
}

/// The schema name the plugin answers to.
pub open spec fn ipc_schema() -> Seq<char> {
    "calabazatales.ipc"@
}

/// The fields of a request as plain values: schema, version, action and player.
pub open spec fn request_fields(q: IpcRequest) -> (Option<Seq<char>>, Option<u64>, Option<Seq<char>>, Option<Seq<char>>) {
    (opt_view(q.schema), q.version, opt_view(q.action), opt_view(q.player))
}

/// What reading `message` as a JSON value and picking four of its fields gives: the
/// strings under the keys `k0`, `k2` and `k3` and the unsigned integer under `k1`, each
/// `None` where the value has no such field or one of another type; or the parser's
/// error message.
pub uninterp spec fn json_fields_of(message: Seq<u8>, k0: Seq<char>, k1: Seq<char>, k2: Seq<char>, k3: Seq<char>) -> Result<(Option<Seq<char>>, Option<u64>, Option<Seq<char>>, Option<Seq<char>>), Seq<char>>;

/// Reads four fields of a JSON message. Trusted: calls `serde_json::from_slice` into a
/// `serde_json::Value`, then `Value::get` with `Value::as_str` or `Value::as_u64` for
/// each key, and `Display` of `serde_json::Error`. The contract only ties the result to
/// the name `json_fields_of` of the bytes and the keys; the JSON grammar is not stated.
#[verifier::external_body]
fn json_fields(message: &[u8], k0: &str, k1: &str, k2: &str, k3: &str) -> (r: Result<(Option<String>, Option<u64>, Option<String>, Option<String>), String>)
    ensures
        match r {
            Ok(f) => json_fields_of(message@, k0@, k1@, k2@, k3@) == Ok::<_, Seq<char>>(
                (opt_view(f.0), f.1, opt_view(f.2), opt_view(f.3)),
            ),
            Err(e) => json_fields_of(message@, k0@, k1@, k2@, k3@) == Err::<(Option<Seq<char>>, Option<u64>, Option<Seq<char>>, Option<Seq<char>>), Seq<char>>(e@),
        },
{
    let v: serde_json::Value = match serde_json::from_slice(message) {
        Ok(v) => v,
        Err(e) => return Err(e.to_string()),
    };
    Ok((
        v.get(k0).and_then(serde_json::Value::as_str).map(String::from),
        v.get(k1).and_then(serde_json::Value::as_u64),
        v.get(k2).and_then(serde_json::Value::as_str).map(String::from),
        v.get(k3).and_then(serde_json::Value::as_str).map(String::from),
    ))
}

/// The fields of the request in `message`: the strings `schema`, `action` and `player`
/// and the unsigned integer `version`; or the parser's error message.
pub open spec fn ipc_request_of(message: Seq<u8>) -> Result<(Option<Seq<char>>, Option<u64>, Option<Seq<char>>, Option<Seq<char>>), Seq<char>> {
    json_fields_of(message, "schema"@, "version"@, "action"@, "player"@)
}

/// Parses an inter-plugin request from its JSON message.
pub fn parse_ipc_request(message: &[u8]) -> (r: Result<IpcRequest, String>)
    ensures
        match r {
            Ok(q) => ipc_request_of(message@) == Ok::<_, Seq<char>>(request_fields(q)),
            Err(e) => ipc_request_of(message@) == Err::<(Option<Seq<char>>, Option<u64>, Option<Seq<char>>, Option<Seq<char>>), Seq<char>>(e@),
        },
{
    match json_fields(message, "schema", "version", "action", "player") {
        Ok(f) => Ok(IpcRequest { schema: f.0, version: f.1, action: f.2, player: f.3 }),
        Err(e) => Err(e),
    }
}

/// A hexadecimal digit (`0`..`9`, `a`..`f`) for `d < 16`.
pub open spec fn hex_digit(d: u32) -> char {
    if d < 10 {
        (('0' as u32) + d) as char
    } else {
        (('a' as u32) + d - 10) as char
    }
}

/// How a character is written inside a JSON string: quote and backslash behind a
/// backslash, the control characters with a short escape as `\b`, `\t`, `\n`, `\f`,
/// `\r`, the other control characters (below U+0020) as `\u00` and two hex digits,
/// every other character as itself.
pub open spec fn json_escape(c: char) -> Seq<char> {
    if c == '"' {
        seq!['\\', '"']
    } else if c == '\\' {
        seq!['\\', '\\']
    } else if c == '\u{8}' {
        seq!['\\', 'b']
    } else if c == '\t' {
        seq!['\\', 't']
    } else if c == '\n' {
        seq!['\\', 'n']
    } else if c == '\u{c}' {
        seq!['\\', 'f']
    } else if c == '\r' {
        seq!['\\', 'r']
    } else if (c as u32) < 0x20 {
        seq!['\\', 'u', '0', '0', hex_digit((c as u32) / 16), hex_digit((c as u32) % 16)]
    } else {
        seq![c]
    }
}

/// The characters of `s`, each written as inside a JSON string.
pub open spec fn json_escaped(s: Seq<char>) -> Seq<char>
    decreases s.len(),
{
    if s.len() == 0 {
        Seq::empty()
    } else {
        json_escaped(s.drop_last()) + json_escape(s.last())
    }
}

/// The JSON text of the string `s`: its escaped characters between double quotes.
pub open spec fn json_string_text(s: Seq<char>) -> Seq<char> {
    seq!['"'] + json_escaped(s) + seq!['"']
}

/// Writes `s` as a JSON string. Trusted: calls `serde_json::to_string` on the string
/// slice, which writes into a `Vec` and so never fails, escaping as `json_escape`
/// says (serde_json's escape table for the bytes below 0x80).
#[verifier::external_body]
fn json_string(s: &str) -> (r: String)
    ensures
        r@ == json_string_text(s@),
{
    serde_json::to_string(s).unwrap_or_default()
}

/// An optional string as JSON: the string, or `null`.
pub open spec fn json_opt_text(o: Option<Seq<char>>) -> Seq<char> {
    match o {
        Some(s) => json_string_text(s),
        None => "null"@,
    }
}

/// An optional number as JSON: its decimal digits, or `null`.
pub open spec fn json_opt_number(o: Option<u64>) -> Seq<char> {
    match o {
        Some(n) => decimal(n as nat),
        None => "null"@,
    }
}

/// The JSON object that answers a request, compact, with its keys in sorted order.
pub open spec fn ipc_json_text(a: IpcAnswer) -> Seq<char> {
    match a {
        IpcAnswer::Capabilities => "{\"actions\":[\"capabilities\",\"active_quest\"],\"schema\":\"calabazatales.ipc\",\"version\":1}"@,
        IpcAnswer::ActiveQuest { quest_id, quest_name, quest_progress } => "{\"quest_id\":"@
            + json_opt_text(quest_id) + ",\"quest_name\":"@ + json_opt_text(quest_name)
            + ",\"quest_progress\":"@ + json_opt_number(quest_progress)
            + ",\"schema\":\"calabazatales.ipc\",\"version\":1}"@,
    }
}

fn append_opt_text(t: &mut String, o: &Option<String>)
    ensures
        final(t)@ == old(t)@ + json_opt_text(opt_view(*o)),
{
    match o {
        Some(s) => {
            let j = json_string(s.as_str());
            t.append(j.as_str());
        },
        None => t.append("null"),
    }
}

/// The bytes (UTF-8) of the JSON answer to a request.
pub fn encode_ipc_response(r: &IpcResponse) -> (b: Vec<u8>)
    ensures
        b@ == encode_utf8(ipc_json_text(r@)),
{
    let t = match r {
        IpcResponse::Capabilities => String::from_str(
            "{\"actions\":[\"capabilities\",\"active_quest\"],\"schema\":\"calabazatales.ipc\",\"version\":1}",
        ),
        IpcResponse::ActiveQuest { quest_id, quest_name, quest_progress } => {
            let mut t = String::from_str("{\"quest_id\":");
            append_opt_text(&mut t, quest_id);
            t.append(",\"quest_name\":");
            append_opt_text(&mut t, quest_name);
            t.append(",\"quest_progress\":");
            match quest_progress {
                Some(n) => {
                    let d = decimal_string(*n);
                    t.append(d.as_str());
                },
                None => t.append("null"),
            }
            t.append(",\"schema\":\"calabazatales.ipc\",\"version\":1}");
            t
        },
    };
    t.as_str().as_bytes_vec()
}

} // verus!
