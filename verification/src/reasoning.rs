//! Normalising the reasoning payload of a response into the one canonical
//! shape, a compact JSON object with a single `reasoning` key.

use vstd::prelude::*;
use vstd::string::*;
use crate::chars::string_of_chars;
use crate::json::{append_json_str, append_str, json_string_spec};

verus! {

/// The reasoning value a response carried, classified by JSON shape. An
/// object or other JSON value is carried as its compact serialisation.
pub enum ReasoningPayload {
    /// The value was a JSON string.
    Text(String),
    /// The value was a JSON object; `has_reasoning_key` says whether the
    /// object itself holds a `reasoning` member.
    Object { has_reasoning_key: bool, compact: String },
    /// Any other JSON value: number, array, boolean or null.
    OtherJson { compact: String },
}

/// A text wrapped as the canonical object `{"reasoning": <text>}`.
pub open spec fn wrap_reasoning_spec(s: Seq<char>) -> Seq<char> {
    "{\"reasoning\":"@ + json_string_spec(s) + "}"@
}

/// The canonical output for a payload: a string is wrapped; an object that
/// already holds a `reasoning` key passes through unchanged; anything else
/// is serialised to a string and wrapped.
pub open spec fn normalized_reasoning_spec(p: ReasoningPayload) -> Seq<char> {
    match p {
        ReasoningPayload::Text(s) => wrap_reasoning_spec(s@),
        ReasoningPayload::Object { has_reasoning_key, compact } => if has_reasoning_key {
            compact@
        } else {
            wrap_reasoning_spec(compact@)
        },
        ReasoningPayload::OtherJson { compact } => wrap_reasoning_spec(compact@),
    }
}

/// Wraps a text as the compact JSON line `{"reasoning": <text>}`.
fn wrap_reasoning(s: &str) -> (r: String)
    ensures
        r@ == wrap_reasoning_spec(s@),
{
    let mut out: Vec<char> = Vec::new();
    append_str(&mut out, "{\"reasoning\":");
    append_json_str(&mut out, s);
    append_str(&mut out, "}");
    let r = string_of_chars(&out);
    proof {
        assert(r@ =~= wrap_reasoning_spec(s@));
    }
    r
}

/// Normalises the reasoning payload to one compact single-line JSON value.
pub fn normalize_reasoning(p: &ReasoningPayload) -> (r: String)
    ensures
        r@ == normalized_reasoning_spec(*p),
{
    match p {
        ReasoningPayload::Text(s) => wrap_reasoning(s.as_str()),
        ReasoningPayload::Object { has_reasoning_key, compact } => {
            if *has_reasoning_key {
                compact.clone()
            } else {
                wrap_reasoning(compact.as_str())
            }
        },
        ReasoningPayload::OtherJson { compact } => wrap_reasoning(compact.as_str()),
    }
}

} // verus!
