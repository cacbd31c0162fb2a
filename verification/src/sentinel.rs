//! Recognising the fixed "cannot answer" refusal format and deciding which
//! side effects an output is allowed to cause.

use vstd::prelude::*;
use vstd::string::*;
use crate::chars::{chars_of, chars_start_ci, ci_match_at, trim_spec, trim_str};

verus! {

/// The refusal prefix, compared case-insensitively.
pub open spec fn sentinel_prefix() -> Seq<char> {
    "(not able to answer):"@
}

/// The trimmed text is at least 22 characters long and starts,
/// case-insensitively, with the refusal prefix.
pub open spec fn is_sentinel_spec(s: Seq<char>) -> bool {
    trim_spec(s).len() >= 22 && ci_match_at(trim_spec(s), sentinel_prefix(), 0)
}

/// Whether `s` is a "cannot answer" refusal: trimmed, at least 22 characters,
/// and starting case-insensitively with `(not able to answer):`.
pub fn is_not_able_response(s: &str) -> (r: bool)
    ensures
        r == is_sentinel_spec(s@),
{
    let t = trim_str(s);
    let tv = chars_of(t.as_str());
    if tv.len() < 22 {
        return false;
    }
    chars_start_ci(&tv, "(not able to answer):")
}

/// What may happen to an output: a refusal is only printed, anything else is
/// copied to the clipboard and appended to the history.
#[derive(PartialEq, Eq, Structural, Clone, Copy, Debug)]
pub enum OutputDisposition {
    PrintOnly,
    CopyAndRecord,
}

/// The disposition the dispatcher owes to an output text.
pub open spec fn disposition_spec(s: Seq<char>) -> OutputDisposition {
    if is_sentinel_spec(s) {
        OutputDisposition::PrintOnly
    } else {
        OutputDisposition::CopyAndRecord
    }
}

pub fn classify_output(out: &str) -> (d: OutputDisposition)
    ensures
        d == disposition_spec(out@),
{
    if is_not_able_response(out) {
        OutputDisposition::PrintOnly
    } else {
        OutputDisposition::CopyAndRecord
    }
}

/// A sentinel output is never recorded or copied, and every other output is
/// recorded and copied: the disposition is `PrintOnly` exactly on sentinels.
pub proof fn lemma_sentinel_side_effects(s: Seq<char>)
    ensures
        (disposition_spec(s) == OutputDisposition::PrintOnly) <==> is_sentinel_spec(s),
        (disposition_spec(s) == OutputDisposition::CopyAndRecord) <==> !is_sentinel_spec(s),
{
}

} // verus!
