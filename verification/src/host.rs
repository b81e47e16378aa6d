//! The transform of the host output, for a window that runs inside a niri
//! session: the answers of `niri msg --json` are read as JSON documents, and
//! the window, its workspace, that workspace's output and the output's
//! transform are picked from them in turn.

use vstd::prelude::*;
use crate::text::str_eq;

verus! {

/// A JSON document, with what the host queries read of it.
#[derive(Debug)]
pub enum Json {
    Null,
    Bool(bool),
    /// A number, with its value where it is an integer that fits in `i64`.
    Number(Option<i64>),
    Str(String),
    Array(Vec<Json>),
    /// The members of an object, each key once.
    Object(Vec<(String, Json)>),
}

#[verifier::external_type_specification]
#[verifier::external_body]
pub struct ExJsonValue(serde_json::Value);

/// The document that `serde_json` reads from the bytes `b`, where they hold
/// one.
pub uninterp spec fn json_of(b: Seq<u8>) -> Option<Json>;

/// Reads the bytes `b` as a JSON document with `serde_json::from_slice`
/// into a `serde_json::Value`, carried over member by member into a `Json`.
/// The result is `json_of(b@)`: `serde_json`'s reading is named, not
/// stated; that it depends on the bytes alone is what is claimed.
#[verifier::external_body]
fn parse_json(b: &[u8]) -> (r: Option<Json>)
    ensures
        r == json_of(b@),
{
    serde_json::from_slice::<serde_json::Value>(b).ok().map(|v| json_from_value(&v))
}

/// Carries a `serde_json::Value` over into a `Json`, variant by variant; a
/// number keeps what `serde_json::Number::as_i64` gives of it.
#[verifier::external_body]
fn json_from_value(v: &serde_json::Value) -> Json {
    match v {
        serde_json::Value::Null => Json::Null,
        serde_json::Value::Bool(b) => Json::Bool(*b),
        serde_json::Value::Number(n) => Json::Number(n.as_i64()),
        serde_json::Value::String(s) => Json::Str(s.clone()),
        serde_json::Value::Array(a) => Json::Array(a.iter().map(json_from_value).collect()),
        serde_json::Value::Object(m) => Json::Object(m.iter().map(|(k, x)| (k.clone(), json_from_value(x))).collect()),
    }
}

/// The document that an answer holds: none where the query could not be
/// run (`output` is `None`) or its output is no JSON document.
pub fn json_answer(output: Option<&[u8]>) -> (r: Option<Json>)
    ensures
        r == (match output {
            Some(b) => json_of(b@),
            None => None,
        }),
{
    match output {
        Some(b) => parse_json(b),
        None => None,
    }
}

/// The value of the first member named `key` among `members`.
pub open spec fn member(members: Seq<(String, Json)>, key: Seq<char>) -> Option<Json>
    decreases members.len(),
{
    if members.len() == 0 {
        None
    } else if members[0].0@ == key {
        Some(members[0].1)
    } else {
        member(members.drop_first(), key)
    }
}

/// The value named `key` of an object; none for anything else.
pub open spec fn spec_field(j: Json, key: Seq<char>) -> Option<Json> {
    match j {
        Json::Object(m) => member(m@, key),
        _ => None,
    }
}

/// The value named `key` of an object, `null` where there is none (as
/// indexing a JSON value by a key gives it).
pub open spec fn spec_at(j: Json, key: Seq<char>) -> Json {
    match spec_field(j, key) {
        Some(v) => v,
        None => Json::Null,
    }
}

/// The integer of a number that fits in `i64`.
pub open spec fn spec_as_i64(j: Json) -> Option<i64> {
    match j {
        Json::Number(n) => n,
        _ => None,
    }
}

/// The text of a string.
pub open spec fn spec_as_str(j: Json) -> Option<Seq<char>> {
    match j {
        Json::Str(s) => Some(s@),
        _ => None,
    }
}

/// The document a reference points at, if any.
pub open spec fn deref_json(r: Option<&Json>) -> Option<Json> {
    match r {
        Some(j) => Some(*j),
        None => None,
    }
}

/// The value named `key` of an object.
pub fn field<'a>(j: &'a Json, key: &str) -> (r: Option<&'a Json>)
    ensures
        deref_json(r) == spec_field(*j, key@),
{
    match j {
        Json::Object(m) => {
            let mut i: usize = 0;
            assert(m@.skip(0) =~= m@);
            while i < m.len()
                invariant
                    i <= m.len(),
                    spec_field(*j, key@) == member(m@, key@),
                    member(m@, key@) == member(m@.skip(i as int), key@),
                decreases m.len() - i,
            {
                assert(m@.skip(i as int).drop_first() =~= m@.skip(i + 1));
                assert(m@.skip(i as int)[0] == m@[i as int]);
                if str_eq(m[i].0.as_str(), key) {
                    assert(m@.skip(i as int)[0].0@ == key@);
                    assert(member(m@.skip(i as int), key@) == Some(m@[i as int].1));
                    return Some(&m[i].1);
                }
                i = i + 1;
            }
            None
        },
        _ => None,
    }
}

/// The integer of a number that fits in `i64`.
pub fn as_i64(j: &Json) -> (r: Option<i64>)
    ensures
        r == spec_as_i64(*j),
{
    match j {
        Json::Number(n) => *n,
        _ => None,
    }
}

/// The first document of `docs` of which `p` holds.
pub open spec fn first_where(docs: Seq<Json>, p: spec_fn(Json) -> bool) -> Option<Json>
    decreases docs.len(),
{
    if docs.len() == 0 {
        None
    } else if p(docs[0]) {
        Some(docs[0])
    } else {
        first_where(docs.drop_first(), p)
    }
}

/// Whether window `w` of `niri msg --json windows` is this compositor's
/// own: its process is `pid`, or its title reads "Smithay".
pub open spec fn is_own_window(w: Json, pid: i64) -> bool {
    spec_as_i64(spec_at(w, "pid"@)) == Some(pid) || spec_as_str(spec_at(w, "title"@)) == Some("Smithay"@)
}

/// Whether workspace `ws` of `niri msg --json workspaces` has the id `id`.
pub open spec fn has_id(ws: Json, id: i64) -> bool {
    spec_as_i64(spec_at(ws, "id"@)) == Some(id)
}

/// The workspace of this compositor's window, from the list of windows.
pub open spec fn spec_host_workspace(pid: i64, windows: Option<Json>) -> Option<i64> {
    match windows {
        Some(Json::Array(v)) => match first_where(v@, |w: Json| is_own_window(w, pid)) {
            Some(w) => spec_as_i64(spec_at(w, "workspace_id"@)),
            None => None,
        },
        _ => None,
    }
}

/// The output of workspace `id`, from the list of workspaces.
pub open spec fn spec_workspace_output(id: i64, workspaces: Option<Json>) -> Option<Seq<char>> {
    match workspaces {
        Some(Json::Array(v)) => match first_where(v@, |ws: Json| has_id(ws, id)) {
            Some(ws) => spec_as_str(spec_at(ws, "output"@)),
            None => None,
        },
        _ => None,
    }
}

/// The logical transform of output `name`, from the map of outputs.
pub open spec fn spec_output_transform(name: Seq<char>, outputs: Option<Json>) -> Option<Seq<char>> {
    match outputs {
        Some(o) => match spec_field(o, name) {
            Some(out) => match spec_field(out, "logical"@) {
                Some(l) => match spec_field(l, "transform"@) {
                    Some(t) => spec_as_str(t),
                    None => None,
                },
                None => None,
            },
            None => None,
        },
        None => None,
    }
}

/// Whether the window must show its content flipped by 180 degrees: where
/// `HIER_HOST_TRANSFORM` is set (`env`), unless it reads "180" or
/// "Flipped180"; otherwise unless the host output of this compositor's
/// window is found and its transform reads "180".
pub open spec fn spec_host_transform_flipped(
    env: Option<Seq<char>>,
    pid: i64,
    windows: Option<Json>,
    workspaces: Option<Json>,
    outputs: Option<Json>,
) -> bool {
    match env {
        Some(v) => !(v == "180"@ || v == "Flipped180"@),
        None => match spec_host_workspace(pid, windows) {
            None => true,
            Some(id) => match spec_workspace_output(id, workspaces) {
                None => true,
                Some(name) => spec_output_transform(name, outputs) != Some("180"@),
            },
        },
    }
}

/// The text a string reference holds, if any.
pub open spec fn str_view(s: Option<&str>) -> Option<Seq<char>> {
    match s {
        Some(t) => Some(t@),
        None => None,
    }
}

/// Whether window `w` is this compositor's own.
fn own_window(w: &Json, pid: i64) -> (r: bool)
    ensures
        r == is_own_window(*w, pid),
{
    let by_pid = match field(w, "pid") {
        Some(p) => match as_i64(p) {
            Some(x) => x == pid,
            None => false,
        },
        None => false,
    };
    if by_pid {
        return true;
    }
    match field(w, "title") {
        Some(Json::Str(t)) => str_eq(t.as_str(), "Smithay"),
        _ => false,
    }
}

/// Whether workspace `ws` has the id `id`.
fn with_id(ws: &Json, id: i64) -> (r: bool)
    ensures
        r == has_id(*ws, id),
{
    match field(ws, "id") {
        Some(p) => match as_i64(p) {
            Some(x) => x == id,
            None => false,
        },
        None => false,
    }
}

/// The workspace of this compositor's window (process `pid`), from the
/// answer of `niri msg --json windows`: that of the first window of the
/// list whose process is `pid` or whose title reads "Smithay".
pub fn host_workspace(pid: i64, windows: &Option<Json>) -> (r: Option<i64>)
    ensures
        r == spec_host_workspace(pid, *windows),
{
    match windows {
        Some(Json::Array(v)) => {
            let ghost p = |w: Json| is_own_window(w, pid);
            let mut i: usize = 0;
            assert(v@.skip(0) =~= v@);
            while i < v.len()
                invariant
                    i <= v.len(),
                    p == (|w: Json| is_own_window(w, pid)),
                    spec_host_workspace(pid, *windows) == match first_where(v@, p) {
                        Some(w) => spec_as_i64(spec_at(w, "workspace_id"@)),
                        None => None,
                    },
                    first_where(v@, p) == first_where(v@.skip(i as int), p),
                decreases v.len() - i,
            {
                assert(v@.skip(i as int).drop_first() =~= v@.skip(i + 1));
                assert(v@.skip(i as int)[0] == v@[i as int]);
                if own_window(&v[i], pid) {
                    return match field(&v[i], "workspace_id") {
                        Some(x) => as_i64(x),
                        None => None,
                    };
                }
                i = i + 1;
            }
            None
        },
        _ => None,
    }
}

/// The output of workspace `id`, from the answer of `niri msg --json
/// workspaces`: that of the first workspace of the list with this id.
pub fn workspace_output(id: i64, workspaces: &Option<Json>) -> (r: Option<String>)
    ensures
        match r {
            Some(s) => spec_workspace_output(id, *workspaces) == Some(s@),
            None => spec_workspace_output(id, *workspaces) is None,
        },
{
    match workspaces {
        Some(Json::Array(v)) => {
            let ghost p = |ws: Json| has_id(ws, id);
            let mut i: usize = 0;
            assert(v@.skip(0) =~= v@);
            while i < v.len()
                invariant
                    i <= v.len(),
                    p == (|ws: Json| has_id(ws, id)),
                    spec_workspace_output(id, *workspaces) == match first_where(v@, p) {
                        Some(ws) => spec_as_str(spec_at(ws, "output"@)),
                        None => None,
                    },
                    first_where(v@, p) == first_where(v@.skip(i as int), p),
                decreases v.len() - i,
            {
                assert(v@.skip(i as int).drop_first() =~= v@.skip(i + 1));
                assert(v@.skip(i as int)[0] == v@[i as int]);
                if with_id(&v[i], id) {
                    return match field(&v[i], "output") {
                        Some(Json::Str(s)) => Some(s.clone()),
                        _ => None,
                    };
                }
                i = i + 1;
            }
            None
        },
        _ => None,
    }
}

/// Whether output `name` of the answer of `niri msg --json outputs` is to
/// be shown flipped: unless its logical transform reads "180".
pub fn output_transform_flipped(name: &str, outputs: &Option<Json>) -> (r: bool)
    ensures
        r == (spec_output_transform(name@, *outputs) != Some("180"@)),
{
    let transform = match outputs {
        Some(o) => match field(o, name) {
            Some(out) => match field(out, "logical") {
                Some(l) => field(l, "transform"),
                None => None,
            },
            None => None,
        },
        None => None,
    };
    match transform {
        Some(Json::Str(t)) => !str_eq(t.as_str(), "180"),
        _ => true,
    }
}

/// Whether the window must show its content flipped by 180 degrees, from
/// `HIER_HOST_TRANSFORM` (`env`), this compositor's process `pid` and the
/// answers of `niri msg --json` to `windows`, `workspaces` and `outputs`.
/// An answer that is not needed is not read.
pub fn host_transform_flipped(
    env: Option<&str>,
    pid: i64,
    windows: Option<Json>,
    workspaces: Option<Json>,
    outputs: Option<Json>,
) -> (flipped: bool)
    ensures
        flipped == spec_host_transform_flipped(str_view(env), pid, windows, workspaces, outputs),
{
    match env {
        Some(v) => !(str_eq(v, "180") || str_eq(v, "Flipped180")),
        None => match host_workspace(pid, &windows) {
            None => true,
            Some(id) => match workspace_output(id, &workspaces) {
                None => true,
                Some(name) => output_transform_flipped(name.as_str(), &outputs),
            },
        },
    }
}

} // verus!
