use vstd::prelude::*;
use crate::json::{jbool, jget, jget_str, JsonValue, JsonView};
use crate::text::{
    ascii_lower, chars_of, copy_str, eq_ignore_ascii_case, eq_ignore_case, string_from,
    string_from_range, trim, trim_string,
};

verus! {

/// Status words that mark a structured result as failed.
pub open spec fn is_failed_status(status: Seq<char>) -> bool {
    let l = ascii_lower(status);
    ||| l == "failed"@
    ||| l == "failure"@
    ||| l == "error"@
    ||| l == "unsupported"@
    ||| l == "cancelled"@
    ||| l == "canceled"@
}

/// The first of the members message, error, code and status that is a string
/// with something besides whitespace, trimmed.
pub open spec fn first_reason_member(v: JsonView) -> Option<Seq<char>> {
    let pick = |k: Seq<char>|
        match jget_str(v, k) {
            Some(t) if trim(t).len() > 0 => Some(trim(t)),
            _ => None,
        };
    if pick("message"@) is Some {
        pick("message"@)
    } else if pick("error"@) is Some {
        pick("error"@)
    } else if pick("code"@) is Some {
        pick("code"@)
    } else {
        pick("status"@)
    }
}

/// Why a structured (object) result reports a failure, if it does: its status
/// names a failure, or it has an `ok` member that is not `true`.
pub open spec fn structured_failure(v: JsonView) -> Option<Seq<char>> {
    match v {
        JsonView::Object(_) => {
            let has_ok = jget(v, "ok"@) is Some;
            let ok = match jbool(jget(v, "ok"@)) {
                Some(b) => b,
                None => true,
            };
            let status = match jget_str(v, "status"@) {
                Some(t) => t,
                None => Seq::empty(),
            };
            if !is_failed_status(status) && (!has_ok || ok) {
                None
            } else if first_reason_member(v) is Some {
                first_reason_member(v)
            } else {
                Some("QaTest structured result failed."@)
            }
        },
        _ => None,
    }
}

/// Why a text result reports a failure: it starts with `failed:` (any ASCII
/// case), is `false`, or is a JSON object (`embedded` is what that text
/// parses to) that reports one.
pub open spec fn text_failure(text: Seq<char>, embedded: Option<JsonView>) -> Option<Seq<char>> {
    let t = trim(text);
    if t.len() == 0 {
        None
    } else if t.len() >= 7 && eq_ignore_ascii_case(t.take(7), "failed:"@) {
        let reason = trim(t.skip(7));
        if reason.len() == 0 {
            Some("QaTest method returned failed."@)
        } else {
            Some(reason)
        }
    } else if eq_ignore_ascii_case(t, "false"@) {
        Some("QaTest method returned False."@)
    } else if t[0] != '{' {
        None
    } else {
        match embedded {
            Some(e) => structured_failure(e),
            None => None,
        }
    }
}

/// A text result that trims to `false`, in any ASCII case, is a failure
/// with the reason "QaTest method returned False.", whatever else came with
/// it; so is a reported success whose result is such a text.
pub proof fn lemma_false_text_is_a_failure(text: Seq<char>, embedded: Option<JsonView>)
    requires
        eq_ignore_ascii_case(trim(text), "false"@),
    ensures
        text_failure(text, embedded) == Some("QaTest method returned False."@),
        business_failure(JsonView::Str(text), embedded) == Some("QaTest method returned False."@),
{
    reveal_strlit("false");
    let t = trim(text);
    assert(ascii_lower(t).len() == ascii_lower("false"@).len());
    assert(t.len() == 5);
}

/// A text result that, trimmed, starts with `failed:` in any ASCII case is a
/// failure; its reason is what follows, trimmed, or "QaTest method returned
/// failed." when nothing follows.
pub proof fn lemma_failed_prefix_is_a_failure(text: Seq<char>, embedded: Option<JsonView>)
    requires
        trim(text).len() >= 7,
        eq_ignore_ascii_case(trim(text).subrange(0, 7), "failed:"@),
    ensures
        text_failure(text, embedded) == Some(
            if trim(trim(text).subrange(7, trim(text).len() as int)).len() == 0 {
                "QaTest method returned failed."@
            } else {
                trim(trim(text).subrange(7, trim(text).len() as int))
            },
        ),
{
    let t = trim(text);
    assert(t.take(7) == t.subrange(0, 7));
    assert(t.skip(7) == t.subrange(7, t.len() as int));
}

/// Why a result that the client reported as a
/// success is a failure after all, if it is one.
pub open spec fn business_failure(result: JsonView, embedded: Option<JsonView>) -> Option<Seq<char>> {
    match result {
        JsonView::Str(t) => text_failure(t, embedded),
        JsonView::Object(_) => structured_failure(result),
        _ => None,
    }
}

fn reason_member(v: &JsonValue, key: &str) -> (r: Option<String>)
    ensures
        match r {
            Some(s) => jget_str(v@, key@) is Some && trim(jget_str(v@, key@)->0).len() > 0 && s@ == trim(
                jget_str(v@, key@)->0,
            ),
            None => !(jget_str(v@, key@) is Some && trim(jget_str(v@, key@)->0).len() > 0),
        },
{
    match v.get_str(key) {
        Some(t) => {
            let trimmed = trim_string(t);
            if trimmed.as_str().is_empty() {
                None
            } else {
                Some(trimmed)
            }
        },
        None => None,
    }
}

/// Why a structured result reports a failure, if it does.
pub fn structured_failure_reason(v: &JsonValue) -> (r: Option<String>)
    ensures
        opt_view(r) == structured_failure(v@),
{
    match v {
        JsonValue::Object(_) => {},
        _ => return None,
    }
    let has_ok = v.get("ok").is_some();
    let ok = match v.get_bool("ok") {
        Some(b) => b,
        None => true,
    };
    let status = match v.get_str("status") {
        Some(t) => copy_str(t),
        None => String::new(),
    };
    let lowered = crate::text::to_ascii_lowercase(status.as_str());
    let l = lowered.as_str();
    let failed_status = crate::text::str_eq(l, "failed") || crate::text::str_eq(l, "failure")
        || crate::text::str_eq(l, "error") || crate::text::str_eq(l, "unsupported")
        || crate::text::str_eq(l, "cancelled") || crate::text::str_eq(l, "canceled");
    if !failed_status && (!has_ok || ok) {
        return None;
    }
    if let Some(t) = reason_member(v, "message") {
        return Some(t);
    }
    if let Some(t) = reason_member(v, "error") {
        return Some(t);
    }
    if let Some(t) = reason_member(v, "code") {
        return Some(t);
    }
    if let Some(t) = reason_member(v, "status") {
        return Some(t);
    }
    Some(copy_str("QaTest structured result failed."))
}

pub open spec fn opt_view(o: Option<String>) -> Option<Seq<char>> {
    match o {
        Some(s) => Some(s@),
        None => None,
    }
}

pub open spec fn opt_json_owned(o: Option<&JsonValue>) -> Option<JsonView> {
    match o {
        Some(v) => Some(v@),
        None => None,
    }
}

/// `business_failure_reason_from_text`; `embedded` is the JSON value that the
/// trimmed text parses to, where it parses.
pub fn text_failure_reason(text: &str, embedded: Option<&JsonValue>) -> (r: Option<String>)
    ensures
        opt_view(r) == text_failure(text@, opt_json_owned(embedded)),
        eq_ignore_ascii_case(trim(text@), "false"@) ==> opt_view(r) == Some("QaTest method returned False."@),
{
    proof {
        if eq_ignore_ascii_case(trim(text@), "false"@) {
            lemma_false_text_is_a_failure(text@, opt_json_owned(embedded));
        }
    }
    let trimmed = trim_string(text);
    let v = chars_of(trimmed.as_str());
    if v.len() == 0 {
        return None;
    }
    if v.len() >= 7 {
        let head = string_from_range(&v, 0, 7);
        if eq_ignore_case(head.as_str(), "failed:") {
            let rest = string_from(&v, 7);
            let reason = trim_string(rest.as_str());
            assert(v@.take(7) == v@.subrange(0, 7));
            assert(v@.skip(7) == v@.subrange(7, v@.len() as int));
            if reason.as_str().is_empty() {
                return Some(copy_str("QaTest method returned failed."));
            }
            return Some(reason);
        }
        assert(v@.take(7) == v@.subrange(0, 7));
    }
    if eq_ignore_case(trimmed.as_str(), "false") {
        return Some(copy_str("QaTest method returned False."));
    }
    if v[0] != '{' {
        return None;
    }
    match embedded {
        Some(e) => structured_failure_reason(e),
        None => None,
    }
}

/// Why a result reported as a success is a failure after all, if it is.
pub fn business_failure_reason(result: &JsonValue, embedded: Option<&JsonValue>) -> (r: Option<String>)
    ensures
        opt_view(r) == business_failure(result@, opt_json_owned(embedded)),
{
    match result {
        JsonValue::String(t) => text_failure_reason(t.as_str(), embedded),
        JsonValue::Object(_) => structured_failure_reason(result),
        _ => None,
    }
}

} // verus!
