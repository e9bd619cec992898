use vstd::prelude::*;

verus! {

// A URL travels through the library as its serialization (`Url::as_str`).
// Each function below parses that text again with `url::Url::parse`, makes one
// call of the `url` crate, and hands back the new serialization.

/// What `url::Url::parse` makes of a text, as a serialization; none when the
/// text is not a URL.
pub uninterp spec fn spec_url_parse(input: Seq<char>) -> Option<Seq<char>>;

/// `url::Url::parse`, the result written back as text.
#[verifier::external_body]
pub(crate) fn url_parse(input: &str) -> (r: Option<String>)
    ensures
        crate::paths::opt_view(r) == spec_url_parse(input@),
{
    match url::Url::parse(input) {
        Ok(u) => Some(String::from(u)),
        Err(_) => None,
    }
}

/// What `url::Url::join` gives for a base URL and a relative reference; none
/// when the base is not a URL or the join fails.
pub uninterp spec fn spec_url_join(base: Seq<char>, input: Seq<char>) -> Option<Seq<char>>;

/// `url::Url::join` on the parsed base.
#[verifier::external_body]
pub(crate) fn url_join(base: &str, input: &str) -> (r: Option<String>)
    ensures
        crate::paths::opt_view(r) == spec_url_join(base@, input@),
{
    match url::Url::parse(base) {
        Ok(b) => b.join(input).ok().map(String::from),
        Err(_) => None,
    }
}

/// `url::Url::scheme` of a URL (empty when the text is not a URL).
pub uninterp spec fn spec_url_scheme(url: Seq<char>) -> Seq<char>;

/// `url::Url::scheme`.
#[verifier::external_body]
pub(crate) fn url_scheme(url: &str) -> (r: String)
    ensures
        r@ == spec_url_scheme(url@),
{
    match url::Url::parse(url) {
        Ok(u) => u.scheme().to_string(),
        Err(_) => String::new(),
    }
}

/// The URL after `url::Url::set_scheme`; none when the text is not a URL or
/// the crate refuses the change.
pub uninterp spec fn spec_url_with_scheme(url: Seq<char>, scheme: Seq<char>) -> Option<Seq<char>>;

/// `url::Url::set_scheme`.
#[verifier::external_body]
pub(crate) fn url_with_scheme(url: &str, scheme: &str) -> (r: Option<String>)
    ensures
        crate::paths::opt_view(r) == spec_url_with_scheme(url@, scheme@),
{
    match url::Url::parse(url) {
        Ok(mut u) => u.set_scheme(scheme).ok().map(|_| String::from(u)),
        Err(_) => None,
    }
}

/// The URL after `url::Url::set_fragment(None)` (the text itself when it is
/// not a URL).
pub uninterp spec fn spec_url_without_fragment(url: Seq<char>) -> Seq<char>;

/// `url::Url::set_fragment(None)`.
#[verifier::external_body]
pub(crate) fn url_without_fragment(url: &str) -> (r: String)
    ensures
        r@ == spec_url_without_fragment(url@),
{
    match url::Url::parse(url) {
        Ok(mut u) => {
            u.set_fragment(None);
            String::from(u)
        },
        Err(_) => url.to_string(),
    }
}

/// The URL after `url::Url::set_query(None)` (the text itself when it is not
/// a URL).
pub uninterp spec fn spec_url_without_query(url: Seq<char>) -> Seq<char>;

/// `url::Url::set_query(None)`.
#[verifier::external_body]
pub(crate) fn url_without_query(url: &str) -> (r: String)
    ensures
        r@ == spec_url_without_query(url@),
{
    match url::Url::parse(url) {
        Ok(mut u) => {
            u.set_query(None);
            String::from(u)
        },
        Err(_) => url.to_string(),
    }
}

/// The URL after `url::Url::set_path` (the text itself when it is not a URL).
pub uninterp spec fn spec_url_with_path(url: Seq<char>, path: Seq<char>) -> Seq<char>;

/// `url::Url::set_path`.
#[verifier::external_body]
pub(crate) fn url_with_path(url: &str, path: &str) -> (r: String)
    ensures
        r@ == spec_url_with_path(url@, path@),
{
    match url::Url::parse(url) {
        Ok(mut u) => {
            u.set_path(path);
            String::from(u)
        },
        Err(_) => url.to_string(),
    }
}

/// The URL whose query is the form-encoding of these pairs, in order
/// (`query_pairs_mut().clear().extend_pairs(..)`); the text itself when it is
/// not a URL.
pub uninterp spec fn spec_url_with_query_pairs(url: Seq<char>, pairs: Seq<(Seq<char>, Seq<char>)>) -> Seq<char>;

pub open spec fn pair_views(pairs: Seq<(String, String)>) -> Seq<(Seq<char>, Seq<char>)> {
    pairs.map_values(|p: (String, String)| (p.0@, p.1@))
}

/// `url::form_urlencoded::Serializer::clear` then `extend_pairs` on the URL's
/// query.
#[verifier::external_body]
pub(crate) fn url_with_query_pairs(url: &str, pairs: &Vec<(String, String)>) -> (r: String)
    ensures
        r@ == spec_url_with_query_pairs(url@, pair_views(pairs@)),
{
    match url::Url::parse(url) {
        Ok(mut u) => {
            u.query_pairs_mut().clear().extend_pairs(pairs.iter().map(|p| (p.0.as_str(), p.1.as_str())));
            String::from(u)
        },
        Err(_) => url.to_string(),
    }
}

/// The last segment of the URL's path (`path_segments().next_back()`); none
/// for a URL that cannot be a base, or a text that is not a URL.
pub uninterp spec fn spec_url_last_segment(url: Seq<char>) -> Option<Seq<char>>;

/// `url::Url::path_segments`, its last item.
#[verifier::external_body]
pub(crate) fn url_last_segment(url: &str) -> (r: Option<String>)
    ensures
        crate::paths::opt_view(r) == spec_url_last_segment(url@),
{
    match url::Url::parse(url) {
        Ok(u) => u.path_segments().and_then(|mut s| s.next_back()).map(|s| s.to_string()),
        Err(_) => None,
    }
}

} // verus!
