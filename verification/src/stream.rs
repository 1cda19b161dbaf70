//! Handling of the incremental response's payloads: the sentinel test that
//! ends a stream, the extraction of a delta fragment from one data segment,
//! and the extraction of the fallback response's content. Malformed payloads
//! are classified as skippable, never as errors.

use vstd::prelude::*;
use vstd::string::StrSliceExecFns;

use crate::errors::AgentError;

verus! {

/// Whitespace as trimmed from the edges of a data segment: the Unicode
/// White_Space set, the same characters `str::trim` removes.
pub open spec fn is_ws(c: char) -> bool {
    let n = c as u32;
    ||| n == 0x9
    ||| n == 0xA
    ||| n == 0xB
    ||| n == 0xC
    ||| n == 0xD
    ||| n == 0x20
    ||| n == 0x85
    ||| n == 0xA0
    ||| n == 0x1680
    ||| (0x2000 <= n && n <= 0x200A)
    ||| n == 0x2028
    ||| n == 0x2029
    ||| n == 0x202F
    ||| n == 0x205F
    ||| n == 0x3000
}

/// `s` without its leading and trailing whitespace.
pub open spec fn trim_model(s: Seq<char>) -> Seq<char>
    decreases s.len(),
{
    if s.len() == 0 {
        s
    } else if is_ws(s[0]) {
        trim_model(s.drop_first())
    } else if is_ws(s.last()) {
        trim_model(s.drop_last())
    } else {
        s
    }
}

/// Whether `c` is whitespace that segment trimming removes.
fn is_ws_char(c: char) -> (r: bool)
    ensures
        r == is_ws(c),
{
    let n = c as u32;
    n == 0x9 || n == 0xA || n == 0xB || n == 0xC || n == 0xD || n == 0x20 || n == 0x85
        || n == 0xA0 || n == 0x1680 || (0x2000 <= n && n <= 0x200A) || n == 0x2028 || n == 0x2029
        || n == 0x202F || n == 0x205F || n == 0x3000
}

/// Removes leading and trailing whitespace from a data segment.
pub fn trim_segment(s: &str) -> (r: &str)
    ensures
        r@ == trim_model(s@),
{
    let len = s.unicode_len();
    let mut start: usize = 0;
    while start < len && is_ws_char(s.get_char(start))
        invariant
            len == s@.len(),
            start <= len,
            forall|k: int| 0 <= k < start ==> is_ws(s@[k]),
        decreases len - start,
    {
        start = start + 1;
    }
    let mut end: usize = len;
    while end > start && is_ws_char(s.get_char(end - 1))
        invariant
            len == s@.len(),
            start <= end <= len,
            start == len || !is_ws(s@[start as int]),
            forall|k: int| 0 <= k < start ==> is_ws(s@[k]),
            forall|k: int| end <= k < len ==> is_ws(s@[k]),
        decreases end,
    {
        end = end - 1;
    }
    let r = s.substring_char(start, end);
    proof {
        lemma_trim_range(s@, start as int, end as int);
    }
    r
}

/// A sequence of nothing but whitespace trims to the empty sequence.
proof fn lemma_trim_all_ws(s: Seq<char>)
    requires
        forall|k: int| 0 <= k < s.len() ==> is_ws(s[k]),
    ensures
        trim_model(s).len() == 0,
    decreases s.len(),
{
    if s.len() > 0 {
        let t = s.drop_first();
        assert forall|k: int| 0 <= k < t.len() implies is_ws(t[k]) by {
            assert(t[k] == s[k + 1]);
        }
        lemma_trim_all_ws(t);
    }
}

/// Two-pointer characterization of trimming: when everything before `i` and
/// everything from `j` on is whitespace, and the inner edges are not, the
/// trimmed sequence is exactly the middle.
proof fn lemma_trim_range(s: Seq<char>, i: int, j: int)
    requires
        0 <= i <= j <= s.len(),
        forall|k: int| 0 <= k < i ==> is_ws(s[k]),
        forall|k: int| j <= k < s.len() ==> is_ws(s[k]),
        i < j ==> !is_ws(s[i]) && !is_ws(s[j - 1]),
    ensures
        trim_model(s) == s.subrange(i, j),
    decreases s.len(),
{
    if i == j {
        assert forall|k: int| 0 <= k < s.len() implies is_ws(s[k]) by {
            if k < i {
            } else {
                assert(k >= j);
            }
        }
        lemma_trim_all_ws(s);
        assert(trim_model(s) =~= s.subrange(i, j));
    } else if is_ws(s[0]) {
        assert(i >= 1) by {
            if i == 0 {
                assert(!is_ws(s[0]));
            }
        }
        let t = s.drop_first();
        assert forall|k: int| 0 <= k < i - 1 implies is_ws(t[k]) by {
            assert(t[k] == s[k + 1]);
        }
        assert forall|k: int| j - 1 <= k < t.len() implies is_ws(t[k]) by {
            assert(t[k] == s[k + 1]);
        }
        assert(t[i - 1] == s[i]);
        assert(t[j - 2] == s[j - 1]);
        lemma_trim_range(t, i - 1, j - 1);
        assert(t.subrange(i - 1, j - 1) =~= s.subrange(i, j));
    } else if is_ws(s.last()) {
        assert(j <= s.len() - 1) by {
            if j == s.len() {
                assert(!is_ws(s[j - 1]));
            }
        }
        let t = s.drop_last();
        assert forall|k: int| j <= k < t.len() implies is_ws(t[k]) by {
            assert(t[k] == s[k]);
        }
        assert forall|k: int| 0 <= k < i implies is_ws(t[k]) by {
            assert(t[k] == s[k]);
        }
        assert(t[i] == s[i]);
        assert(t[j - 1] == s[j - 1]);
        lemma_trim_range(t, i, j);
        assert(t.subrange(i, j) =~= s.subrange(i, j));
    } else {
        assert(i == 0) by {
            if i > 0 {
                assert(is_ws(s[0]));
            }
        }
        assert(j == s.len()) by {
            if j < s.len() {
                assert(is_ws(s[s.len() - 1]));
            }
        }
        assert(s.subrange(0, s.len() as int) =~= s);
    }
}

/// The sentinel: a data segment that, after trimming, equals this marks the
/// end of the stream.
pub open spec fn done_marker() -> Seq<char> {
    "[DONE]"@
}

/// The `choices[0].delta.content` string of a structured delta payload, when
/// the payload parses as such an object and carries one; a function of the
/// text alone.
pub uninterp spec fn delta_content_of(s: Seq<char>) -> Option<Seq<char>>;

/// Relies on serde_json::from_str::<Value>, Value::get and Value::as_str: the
/// `choices[0].delta.content` string of a delta payload, or None when the
/// text is not JSON or lacks that field.
#[verifier::external_body]
fn parse_delta_content(data: &str) -> (r: Option<String>)
    ensures
        r is Some <==> delta_content_of(data@) is Some,
        r matches Some(p) ==> Some(p@) == delta_content_of(data@),
{
    let v: serde_json::Value = match serde_json::from_str(data) {
        Ok(v) => v,
        Err(_) => return None,
    };
    let piece = v.get("choices")?.get(0)?.get("delta")?.get("content")?.as_str()?;
    Some(piece.to_owned())
}

/// The decode of a synchronous completion response body; a function of the
/// text alone. None: the text is not a JSON object of the response's shape
/// (no `choices` array, or a first choice without a string role and content).
/// Some(None): the shape is right but the `choices` array is empty.
/// Some(Some(c)): the first choice's message content is `c`.
pub uninterp spec fn completion_decode_of(s: Seq<char>) -> Option<Option<Seq<char>>>;

/// Relies on serde_json::from_str::<Value>, Value::get, Value::as_array and
/// Value::as_str: decodes a completion response body, distinguishing a body
/// of the wrong shape (outer None) from one whose `choices` array is empty
/// (inner None).
#[verifier::external_body]
fn parse_completion(body: &str) -> (r: Option<Option<String>>)
    ensures
        r is Some <==> completion_decode_of(body@) is Some,
        r matches Some(inner) ==> ({
            let decoded = completion_decode_of(body@).unwrap();
            &&& inner is Some <==> decoded is Some
            &&& inner matches Some(p) ==> Some(p@) == decoded
        }),
{
    let v: serde_json::Value = serde_json::from_str(body).ok()?;
    let choices = v.get("choices")?.as_array()?;
    let first = match choices.first() {
        None => return Some(None),
        Some(c) => c,
    };
    let msg = first.get("message")?;
    msg.get("role")?.as_str()?;
    let content = msg.get("content")?.as_str()?;
    Some(Some(content.to_owned()))
}

/// What one data segment means for the stream.
#[derive(Debug)]
pub enum SegmentAction {
    /// The sentinel arrived: the stream is complete.
    Finish,
    /// A parsed delta fragment, to be emitted and accumulated.
    Append(String),
    /// A malformed or content-free payload: skipped, the stream continues.
    Skip,
}

/// The model of a segment's meaning.
pub enum SegmentActionModel {
    Finish,
    Append(Seq<char>),
    Skip,
}

impl View for SegmentAction {
    type V = SegmentActionModel;

    open spec fn view(&self) -> SegmentActionModel {
        match self {
            SegmentAction::Finish => SegmentActionModel::Finish,
            SegmentAction::Append(p) => SegmentActionModel::Append(p@),
            SegmentAction::Skip => SegmentActionModel::Skip,
        }
    }
}

/// The meaning of one raw data segment: the sentinel after trimming finishes
/// the stream; otherwise the parsed delta content is appended; otherwise the
/// segment is skipped.
pub open spec fn classify_model(s: Seq<char>) -> SegmentActionModel {
    if trim_model(s) == done_marker() {
        SegmentActionModel::Finish
    } else {
        match delta_content_of(trim_model(s)) {
            Some(p) => SegmentActionModel::Append(p),
            None => SegmentActionModel::Skip,
        }
    }
}

/// Classifies one data segment of the incremental response.
pub fn classify_segment(data: &str) -> (r: SegmentAction)
    ensures
        r@ == classify_model(data@),
{
    let t = trim_segment(data);
    let t_owned = t.to_owned();
    let done = "[DONE]".to_owned();
    if t_owned == done {
        SegmentAction::Finish
    } else {
        match parse_delta_content(t) {
            Some(p) => SegmentAction::Append(p),
            None => SegmentAction::Skip,
        }
    }
}

/// The result a decodable fallback response body carries: the first choice's
/// content, or the empty string when the `choices` array is empty.
pub open spec fn fallback_reply(b: Seq<char>) -> Seq<char> {
    match completion_decode_of(b) {
        Some(Some(c)) => c,
        _ => Seq::<char>::empty(),
    }
}

/// The exchange result carried by a fallback response body: the first
/// choice's content, the empty string when the body decodes to an empty
/// `choices` array, and a fatal failure when the body cannot be decoded.
pub fn fallback_text(body: &str) -> (r: Result<String, AgentError>)
    ensures
        r matches Ok(s) ==> completion_decode_of(body@) is Some && s@ == fallback_reply(body@),
        r is Err <==> completion_decode_of(body@) is None,
        r matches Err(e) ==> e == AgentError::TransportFailure,
{
    match parse_completion(body) {
        Some(Some(s)) => Ok(s),
        Some(None) => Ok(String::new()),
        None => Err(AgentError::TransportFailure),
    }
}

} // verus!
