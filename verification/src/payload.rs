//! The JSON text of an event, as it goes to the Lambda function.
//!
//! The event is one JSON object with the members `httpMethod`, `headers`,
//! `path`, `queryStringParameters`, `isBase64Encoded`, `body` and
//! `requestContext`, which holds `elb.targetGroupArn`. Strings are written
//! by `serde_json`.

use crate::codec::AlbEvent;
use crate::string_map::{pair_texts, StringMap};
use vstd::prelude::*;
use vstd::string::StringExecFns;

verus! {

/// What `serde_json` writes for the string `s` as a JSON value: the text in
/// double quotes, with escapes where JSON asks for them.
pub uninterp spec fn json_string_text(s: Seq<char>) -> Seq<char>;

/// Formats a `serde_json::Value` that holds the string `s`, as its
/// `Display` implementation writes it (compact). The result depends on the
/// text alone; it is known here only by its name, `json_string_text`.
#[verifier::external_body]
fn json_string(s: &str) -> (text: String)
    ensures
        text@ == json_string_text(s@),
{
    serde_json::Value::String(s.to_owned()).to_string()
}

/// One member of an object whose values are strings: `"name":"value"`.
pub open spec fn json_member(entry: (Seq<char>, Seq<char>)) -> Seq<char> {
    json_string_text(entry.0) + ":"@ + json_string_text(entry.1)
}

/// The members of an object, with commas between them.
pub open spec fn json_members(entries: Seq<(Seq<char>, Seq<char>)>) -> Seq<char>
    decreases entries.len(),
{
    if entries.len() == 0 {
        Seq::empty()
    } else if entries.len() == 1 {
        json_member(entries[0])
    } else {
        json_members(entries.drop_last()) + ","@ + json_member(entries.last())
    }
}

/// An object whose values are strings.
pub open spec fn json_object(entries: Seq<(Seq<char>, Seq<char>)>) -> Seq<char> {
    "{"@ + json_members(entries) + "}"@
}

/// `true` or `false`.
pub open spec fn json_bool(b: bool) -> Seq<char> {
    if b {
        "true"@
    } else {
        "false"@
    }
}

/// The JSON text of an event.
pub open spec fn event_json(event: AlbEvent) -> Seq<char> {
    "{\"httpMethod\":"@ + json_string_text(event.http_method@) + ",\"headers\":"@ + json_object(
        event.headers.entries(),
    ) + ",\"path\":"@ + json_string_text(event.path@) + ",\"queryStringParameters\":"@
        + json_object(event.query_string_parameters.entries()) + ",\"isBase64Encoded\":"@
        + json_bool(event.is_base64_encoded) + ",\"body\":"@ + json_string_text(event.body@)
        + ",\"requestContext\":{\"elb\":{\"targetGroupArn\":"@ + json_string_text(
        event.target_group_arn@,
    ) + "}}}"@
}

/// Appends the object for a mapping to `out`.
fn write_object(out: &mut String, map: &StringMap)
    ensures
        final(out)@ == old(out)@ + json_object(map.entries()),
{
    let ghost start = out@;
    let pairs = map.pairs();
    let ghost entries = map.entries();
    out.append("{");
    let mut i: usize = 0;
    proof {
        assert(entries.take(0).len() == 0);
        assert(out@ == start + "{"@ + json_members(entries.take(0)));
    }
    while i < pairs.len()
        invariant
            i <= pairs@.len(),
            entries == pair_texts(pairs@),
            out@ == start + "{"@ + json_members(entries.take(i as int)),
        decreases pairs@.len() - i,
    {
        let ghost before = out@;
        let ghost done = json_members(entries.take(i as int));
        if i > 0 {
            out.append(",");
        }
        let name = json_string(pairs[i].0.as_str());
        let value = json_string(pairs[i].1.as_str());
        out.append(name.as_str());
        out.append(":");
        out.append(value.as_str());
        proof {
            let next = entries.take(i + 1);
            let member = json_member(entries[i as int]);
            assert(next.drop_last() == entries.take(i as int));
            assert(next.last() == entries[i as int]);
            assert(entries[i as int] == (pairs@[i as int].0@, pairs@[i as int].1@));
            if i == 0 {
                assert(next[0] == entries[0]);
                assert(json_members(next) == member);
                assert(done == Seq::<char>::empty());
                assert(out@ == start + "{"@ + member);
            } else {
                assert(json_members(next) == done + ","@ + member);
                assert(out@ == start + "{"@ + (done + ","@ + member));
            }
        }
        i = i + 1;
    }
    proof {
        assert(entries.take(entries.len() as int) == entries);
    }
    out.append("}");
    proof {
        assert(out@ == start + ("{"@ + json_members(entries) + "}"@));
    }
}

impl AlbEvent {
    /// Writes the event as JSON.
    pub fn to_json(&self) -> (text: String)
        ensures
            text@ == event_json(*self),
    {
        let mut out = String::new();
        out.append("{\"httpMethod\":");
        out.append(json_string(self.http_method.as_str()).as_str());
        out.append(",\"headers\":");
        write_object(&mut out, &self.headers);
        out.append(",\"path\":");
        out.append(json_string(self.path.as_str()).as_str());
        out.append(",\"queryStringParameters\":");
        write_object(&mut out, &self.query_string_parameters);
        out.append(",\"isBase64Encoded\":");
        if self.is_base64_encoded {
            out.append("true");
        } else {
            out.append("false");
        }
        out.append(",\"body\":");
        out.append(json_string(self.body.as_str()).as_str());
        out.append(",\"requestContext\":{\"elb\":{\"targetGroupArn\":");
        out.append(json_string(self.target_group_arn.as_str()).as_str());
        out.append("}}}");
        proof {
            assert(out@ =~= event_json(*self));
        }
        out
    }
}

} // verus!
