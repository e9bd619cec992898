use vstd::prelude::*;
use vstd::string::{StrSliceExecFns, StringSliceAdditionalSpecFns};
use vstd::utf8::encode_utf8;
use crate::text::{
    chars_of, concat3, copy_str, find_char, index_of, push_char, split_char, split_pieces, str_eq,
    string_from, string_from_range, string_views, trim, trim_string,
};

verus! {

/// The name of the cookie that carries the web console token.
pub const WEB_AUTH_COOKIE: &'static str = "qa_web_console_token";

/// The lower-case hexadecimal digit of `n` (below 16).
pub open spec fn hex_digit_lower(n: u8) -> char {
    if n < 10 {
        (n + 0x30) as char
    } else {
        (n - 10 + 0x61) as char
    }
}

/// Two lower-case hexadecimal digits per byte.
pub open spec fn hex_lower(bs: Seq<u8>) -> Seq<char>
    decreases bs.len(),
{
    if bs.len() == 0 {
        Seq::empty()
    } else {
        hex_lower(bs.drop_last()) + seq![hex_digit_lower(bs.last() / 16), hex_digit_lower(bs.last() % 16)]
    }
}

fn hex_char(n: u8) -> (c: char)
    requires
        n < 16,
    ensures
        c == hex_digit_lower(n),
{
    if n < 10 {
        ((n + 0x30) as u8) as char
    } else {
        ((n - 10 + 0x61) as u8) as char
    }
}

pub fn hex_encode(bytes: &[u8]) -> (r: String)
    ensures
        r@ == hex_lower(bytes@),
{
    let mut r = String::new();
    let mut i: usize = 0;
    while i < bytes.len()
        invariant
            i <= bytes@.len(),
            r@ == hex_lower(bytes@.subrange(0, i as int)),
        decreases bytes@.len() - i,
    {
        let b = bytes[i];
        let ghost pre = bytes@.subrange(0, i + 1);
        assert(pre.drop_last() == bytes@.subrange(0, i as int));
        assert(pre.last() == b);
        assert(b >> 4u8 == b / 16) by (bit_vector);
        assert(b & 0x0fu8 == b % 16) by (bit_vector);
        push_char(&mut r, hex_char(b >> 4));
        push_char(&mut r, hex_char(b & 0x0f));
        i = i + 1;
    }
    assert(bytes@.subrange(0, bytes@.len() as int) == bytes@);
    r
}

/// Compares two byte strings in time that depends on their length only: true
/// exactly when they are equal.
pub fn constant_time_eq(left: &[u8], right: &[u8]) -> (r: bool)
    ensures
        r == (left@ == right@),
{
    if left.len() != right.len() {
        return false;
    }
    let mut diff: u8 = 0;
    let mut index: usize = 0;
    while index < left.len()
        invariant
            index <= left@.len(),
            left@.len() == right@.len(),
            (diff == 0) == (forall|j: int| 0 <= j < index ==> left@[j] == right@[j]),
        decreases left@.len() - index,
    {
        let a = left[index];
        let b = right[index];
        assert(((diff | (a ^ b)) == 0) == (diff == 0 && a == b)) by (bit_vector);
        diff = diff | (a ^ b);
        index = index + 1;
    }
    if diff == 0 {
        assert(left@ == right@);
    }
    diff == 0
}

/// The value of cookie `name` among `;`-separated cookie pairs: the first pair,
/// trimmed, whose part before its first `=` is `name`.
pub open spec fn cookie_in_parts(parts: Seq<Seq<char>>, name: Seq<char>) -> Option<Seq<char>>
    decreases parts.len(),
{
    if parts.len() == 0 {
        None
    } else {
        let t = trim(parts[0]);
        match index_of(t, '=') {
            Some(k) if t.subrange(0, k) == name => Some(t.subrange(k + 1, t.len() as int)),
            _ => cookie_in_parts(parts.drop_first(), name),
        }
    }
}

/// The value of cookie `name` in the `Cookie` headers, in order; a header whose
/// value is not text (`None`) is passed over.
pub open spec fn cookie_in_headers(headers: Seq<Option<Seq<char>>>, name: Seq<char>) -> Option<Seq<char>>
    decreases headers.len(),
{
    if headers.len() == 0 {
        None
    } else {
        match headers[0] {
            Some(h) => match cookie_in_parts(split_char(h, ';'), name) {
                Some(v) => Some(v),
                None => cookie_in_headers(headers.drop_first(), name),
            },
            None => cookie_in_headers(headers.drop_first(), name),
        }
    }
}

pub open spec fn header_views(h: Seq<Option<String>>) -> Seq<Option<Seq<char>>> {
    Seq::new(
        h.len(),
        |i: int|
            match h[i] {
                Some(s) => Some(s@),
                None => None,
            },
    )
}

fn cookie_in_header(header: &str, name: &str) -> (r: Option<String>)
    ensures
        crate::paths::opt_view(r) == cookie_in_parts(split_char(header@, ';'), name@),
{
    let parts = split_pieces(header, ';');
    let ghost p = split_char(header@, ';');
    let mut i: usize = 0;
    assert(p.subrange(0, p.len() as int) == p);
    while i < parts.len()
        invariant
            i <= parts@.len(),
            string_views(parts@) == p,
            p == split_char(header@, ';'),
            cookie_in_parts(p, name@) == cookie_in_parts(p.subrange(i as int, p.len() as int), name@),
        decreases parts@.len() - i,
    {
        let ghost q = p.subrange(i as int, p.len() as int);
        assert(q[0] == parts@[i as int]@);
        assert(q.drop_first() == p.subrange(i + 1, p.len() as int));
        let t = trim_string(parts[i].as_str());
        let v = chars_of(t.as_str());
        proof {
            crate::text::lemma_index_of(v@, '=');
        }
        if let Some(k) = find_char(&v, '=') {
            assert(k < v@.len());
            let cookie_name = string_from_range(&v, 0, k);
            if str_eq(cookie_name.as_str(), name) {
                return Some(string_from(&v, k + 1));
            }
        }
        i = i + 1;
    }
    None
}

/// The value of cookie `name` in the request's `Cookie` headers.
pub fn cookie_value(headers: &Vec<Option<String>>, name: &str) -> (r: Option<String>)
    ensures
        crate::paths::opt_view(r) == cookie_in_headers(header_views(headers@), name@),
{
    let ghost hv = header_views(headers@);
    let mut i: usize = 0;
    assert(hv.subrange(0, hv.len() as int) == hv);
    while i < headers.len()
        invariant
            i <= headers@.len(),
            hv == header_views(headers@),
            cookie_in_headers(hv, name@) == cookie_in_headers(hv.subrange(i as int, hv.len() as int), name@),
        decreases headers@.len() - i,
    {
        let ghost q = hv.subrange(i as int, hv.len() as int);
        assert(q[0] == hv[i as int]);
        assert(q.drop_first() == hv.subrange(i + 1, hv.len() as int));
        if let Some(h) = &headers[i] {
            let found = cookie_in_header(h.as_str(), name);
            if found.is_some() {
                return found;
            }
        }
        i = i + 1;
    }
    None
}

/// Whether a web socket comes from the browser console: its role is `web` and
/// its controller type (by default `web`) is not `mcp`.
pub open spec fn spec_is_browser_web_socket(role: Option<Seq<char>>, controller_type: Option<Seq<char>>) -> bool {
    let r = match role {
        Some(v) => v,
        None => Seq::empty(),
    };
    let t = match controller_type {
        Some(v) => v,
        None => "web"@,
    };
    r == "web"@ && t != "mcp"@
}

pub fn is_browser_web_socket(role: Option<&str>, controller_type: Option<&str>) -> (r: bool)
    ensures
        r == spec_is_browser_web_socket(
            match role {
                Some(v) => Some(v@),
                None => None,
            },
            match controller_type {
                Some(v) => Some(v@),
                None => None,
            },
        ),
{
    let role_is_web = match role {
        Some(v) => str_eq(v, "web"),
        None => false,
    };
    let is_mcp = match controller_type {
        Some(v) => str_eq(v, "mcp"),
        None => false,
    };
    proof {
        reveal_strlit("web");
        reveal_strlit("mcp");
        assert("web"@ != "mcp"@) by {
            assert("web"@[0] != "mcp"@[0]);
        }
        assert(Seq::<char>::empty() != "web"@) by {
            assert("web"@.len() == 3);
        }
    }
    role_is_web && !is_mcp
}

/// Whether a request may use the web console: always where no token is
/// configured, else when its token cookie holds the token's hex form.
pub open spec fn spec_is_web_console_authorized(expected_token: Option<Seq<char>>, cookie: Option<Seq<char>>) -> bool {
    match expected_token {
        None => true,
        Some(t) => match cookie {
            None => false,
            Some(c) => encode_utf8(c) == encode_utf8(hex_lower(encode_utf8(t))),
        },
    }
}

pub fn is_web_console_authorized(expected_token: Option<&str>, cookie_headers: &Vec<Option<String>>) -> (r: bool)
    ensures
        r == spec_is_web_console_authorized(
            match expected_token {
                Some(t) => Some(t@),
                None => None,
            },
            cookie_in_headers(header_views(cookie_headers@), WEB_AUTH_COOKIE@),
        ),
{
    let expected = match expected_token {
        None => return true,
        Some(t) => t,
    };
    let cookie = match cookie_value(cookie_headers, WEB_AUTH_COOKIE) {
        None => return false,
        Some(c) => c,
    };
    let token_bytes = expected.as_bytes_vec();
    let hex = hex_encode(token_bytes.as_slice());
    let cookie_bytes = cookie.as_str().as_bytes_vec();
    let hex_bytes = hex.as_str().as_bytes_vec();
    constant_time_eq(cookie_bytes.as_slice(), hex_bytes.as_slice())
}

/// What a login or an auth check answers: whether a token is required and
/// whether the caller is authenticated.
pub open spec fn auth_view(token_required: bool, authenticated: bool) -> crate::json::JsonView {
    crate::json::JsonView::Object(
        seq![
            ("authenticated"@, crate::json::JsonView::Bool(authenticated)),
            ("tokenRequired"@, crate::json::JsonView::Bool(token_required)),
        ],
    )
}

pub fn auth_status(token_required: bool, authenticated: bool) -> (r: crate::json::JsonValue)
    ensures
        r@ == auth_view(token_required, authenticated),
{
    let entries = vec![
        (copy_str("authenticated"), crate::json::JsonValue::Bool(authenticated)),
        (copy_str("tokenRequired"), crate::json::JsonValue::Bool(token_required)),
    ];
    proof {
        crate::json::lemma_entry_views_new(entries@);
        assert(crate::json::json_entry_views(entries@) =~= auth_view(token_required, authenticated)->Object_0);
    }
    crate::json::JsonValue::Object(entries)
}

/// The cookie a successful login sets: the token's hex form.
pub open spec fn login_cookie(token: Seq<char>) -> Seq<char> {
    WEB_AUTH_COOKIE@ + "="@ + hex_lower(encode_utf8(token)) + "; HttpOnly; SameSite=Lax; Path=/"@
}

/// The cookie a logout sets: the token cookie, emptied and expired.
pub const LOGOUT_COOKIE: &'static str = "qa_web_console_token=; HttpOnly; SameSite=Lax; Path=/; Max-Age=0";

/// An accepted login: the answer and, when a token is configured, the cookie
/// to set.
#[derive(Debug)]
pub struct LoginAnswer {
    pub body: crate::json::JsonValue,
    pub set_cookie: Option<String>,
}

/// A login: accepted at once where no token is configured; else the body
/// (`None` when it is not JSON: refused with 400) must give the token (its
/// `token` in text form), which is compared in constant time; a wrong one is
/// refused with 401.
pub open spec fn spec_web_login(expected: Option<Seq<char>>, body: Option<crate::json::JsonView>) -> Result<(crate::json::JsonView, Option<Seq<char>>), (crate::server::state::StatusCode, Seq<char>)> {
    match expected {
        None => Ok((auth_view(false, true), None)),
        Some(t) => match body {
            None => Err((crate::server::state::StatusCode::BadRequest, "Invalid JSON body."@)),
            Some(b) => {
                let given = match crate::json_text::value_text(crate::json::jget(b, "token"@)) {
                    Some(g) => g,
                    None => Seq::empty(),
                };
                if encode_utf8(given) == encode_utf8(t) {
                    Ok((auth_view(true, true), Some(login_cookie(t))))
                } else {
                    Err((crate::server::state::StatusCode::Unauthorized, "Invalid web console token."@))
                }
            },
        },
    }
}

pub fn web_login(expected_token: Option<&str>, body: Option<&crate::json::JsonValue>) -> (r: Result<LoginAnswer, crate::server::state::RequestError>)
    ensures
        match spec_web_login(
            match expected_token {
                Some(t) => Some(t@),
                None => None,
            },
            crate::json::opt_json_view(body),
        ) {
            Ok((b, c)) => r matches Ok(a) && a.body@ == b && crate::paths::opt_view(a.set_cookie) == c,
            Err((status, message)) => r matches Err(e) && e.status == status && e.message@ == message,
        },
{
    let expected = match expected_token {
        None => return Ok(LoginAnswer { body: auth_status(false, true), set_cookie: None }),
        Some(t) => t,
    };
    let b = match body {
        None => return Err(
            crate::server::state::RequestError {
                message: copy_str("Invalid JSON body."),
                status: crate::server::state::StatusCode::BadRequest,
            },
        ),
        Some(b) => b,
    };
    let given = match crate::json_text::value_to_opt_string(b.get("token")) {
        Some(g) => g,
        None => String::new(),
    };
    let given_bytes = given.as_str().as_bytes_vec();
    let expected_bytes = expected.as_bytes_vec();
    if !constant_time_eq(given_bytes.as_slice(), expected_bytes.as_slice()) {
        return Err(
            crate::server::state::RequestError {
                message: copy_str("Invalid web console token."),
                status: crate::server::state::StatusCode::Unauthorized,
            },
        );
    }
    let hex = hex_encode(expected_bytes.as_slice());
    let a = concat3(WEB_AUTH_COOKIE, "=", hex.as_str());
    let cookie = concat3(a.as_str(), "; HttpOnly; SameSite=Lax; Path=/", "");
    proof {
        reveal_strlit("");
        assert(cookie@ =~= login_cookie(expected@));
    }
    Ok(LoginAnswer { body: auth_status(true, true), set_cookie: Some(cookie) })
}

} // verus!
