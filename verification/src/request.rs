//! Outbound request construction: URL validation and the choice of the
//! `X-Auth-Token` header value. An explicitly supplied token wins; otherwise
//! an `auth_token` query parameter of the URL is used; otherwise the request
//! goes out unauthenticated. A chosen token must be a valid header value.

use vstd::prelude::*;

use crate::errors::DownloadError;

verus! {

/// Whether `url::Url::parse` accepts the text. Parsing is a function of the
/// text alone.
pub uninterp spec fn url_well_formed(s: Seq<char>) -> bool;

/// The percent-decoded query key/value pairs of a well-formed URL, in order.
/// They are a function of the URL text alone.
pub uninterp spec fn url_query_pairs(s: Seq<char>) -> Seq<(Seq<char>, Seq<char>)>;

/// Relies on url::Url::parse: it accepts or rejects the text, depending on
/// nothing else.
#[verifier::external_body]
fn url_parse_ok(s: &str) -> (r: bool)
    ensures
        r == url_well_formed(s@),
{
    url::Url::parse(s).is_ok()
}

/// Relies on url::Url::query_pairs: the percent-decoded key/value pairs of
/// the URL's query string, in order of appearance.
#[verifier::external_body]
fn query_pairs_of(s: &str) -> (r: Vec<(String, String)>)
    requires
        url_well_formed(s@),
    ensures
        r.deep_view() == url_query_pairs(s@),
{
    match url::Url::parse(s) {
        Ok(u) => u.query_pairs().map(|(k, v)| (k.into_owned(), v.into_owned())).collect(),
        Err(_) => Vec::new(),
    }
}

/// A character acceptable in an HTTP header value: horizontal tab or any
/// character that is not a control character (codepoints below 32 other than
/// tab, and delete).
pub open spec fn spec_header_char_ok(c: char) -> bool {
    c == '\t' || (c as u32 >= 32 && c as u32 != 127)
}

/// A string acceptable as an HTTP header value.
pub open spec fn spec_header_value_ok(s: Seq<char>) -> bool {
    forall|i: int| 0 <= i < s.len() ==> spec_header_char_ok(s[i])
}

/// Relies on reqwest::header::HeaderValue::from_str (http's `HeaderValue`):
/// it accepts exactly the strings whose bytes are 32..=255 except delete,
/// or horizontal tab — on UTF-8 text, exactly the strings whose characters
/// satisfy [`spec_header_char_ok`].
#[verifier::external_body]
fn header_value_ok(s: &str) -> (r: bool)
    ensures
        r == spec_header_value_ok(s@),
{
    reqwest::header::HeaderValue::from_str(s).is_ok()
}

/// The value of the first `auth_token` query parameter, if any.
pub open spec fn spec_find_auth_token(pairs: Seq<(Seq<char>, Seq<char>)>) -> Option<Seq<char>>
    decreases pairs.len(),
{
    if pairs.len() == 0 {
        None
    } else if pairs[0].0 == "auth_token"@ {
        Some(pairs[0].1)
    } else {
        spec_find_auth_token(pairs.drop_first())
    }
}

/// The token the request will carry: an explicitly supplied one, or the
/// URL's first `auth_token` query parameter.
pub open spec fn spec_effective_token(explicit: Option<Seq<char>>, url: Seq<char>) -> Option<
    Seq<char>,
> {
    match explicit {
        Some(t) => Some(t),
        None => spec_find_auth_token(url_query_pairs(url)),
    }
}

/// An explicitly supplied authentication token takes precedence over any
/// `auth_token` query parameter of the URL.
pub proof fn lemma_explicit_token_precedence(t: Seq<char>, url: Seq<char>)
    ensures
        spec_effective_token(Some(t), url) == Some(t),
{
}

/// The request as it will go out: the URL unchanged, and the value of the
/// `X-Auth-Token` header, if one is to be sent. The same pair is reused for
/// every request (HEAD and GET) of one download.
#[derive(Debug)]
pub struct BuiltRequest {
    /// The URL to request, exactly as the caller gave it.
    pub url: String,
    /// The value for the `X-Auth-Token` header; `None` sends no such header.
    pub auth_header: Option<String>,
}

/// Value of the first `auth_token` query parameter among `pairs`, if any.
fn find_auth_token(pairs: &Vec<(String, String)>) -> (r: Option<String>)
    ensures
        match r {
            Some(t) => spec_find_auth_token(pairs.deep_view()) == Some(t@),
            None => spec_find_auth_token(pairs.deep_view()) is None,
        },
{
    let key: String = "auth_token".to_owned();
    let n = pairs.len();
    let mut idx: usize = 0;
    proof {
        assert(pairs.deep_view().skip(0) =~= pairs.deep_view());
    }
    loop
        invariant
            idx <= n,
            n == pairs.len(),
            pairs.deep_view().len() == n,
            key@ == "auth_token"@,
            spec_find_auth_token(pairs.deep_view()) == spec_find_auth_token(
                pairs.deep_view().skip(idx as int),
            ),
        decreases n - idx,
    {
        if idx == n {
            return None;
        }
        proof {
            assert(pairs.deep_view()[idx as int] == (pairs@[idx as int].0@, pairs@[idx as int].1@));
            assert(pairs.deep_view().skip(idx as int)[0] == pairs.deep_view()[idx as int]);
            assert(pairs.deep_view().skip(idx as int).drop_first() =~= pairs.deep_view().skip(
                idx as int + 1,
            ));
        }
        if pairs[idx].0 == key {
            return Some(pairs[idx].1.clone());
        }
        idx = idx + 1;
    }
}

/// Build the outbound request for one download.
///
/// A malformed URL is rejected before anything else. The effective token is
/// the explicitly supplied one if present, else the URL's first `auth_token`
/// query parameter; if the effective token is not a valid header value the
/// request is rejected, and if there is none the request goes out without an
/// auth header.
pub fn build_request(url: &str, auth_token: Option<String>) -> (r: Result<
    BuiltRequest,
    DownloadError,
>)
    ensures
        !url_well_formed(url@) ==> r == Err::<BuiltRequest, DownloadError>(
            DownloadError::InvalidUrl,
        ),
        url_well_formed(url@) ==> match spec_effective_token(auth_token.deep_view(), url@) {
            None => match r {
                Ok(b) => b.url@ == url@ && b.auth_header is None,
                Err(_) => false,
            },
            Some(t) => if spec_header_value_ok(t) {
                match r {
                    Ok(b) => b.url@ == url@ && match b.auth_header {
                        Some(h) => h@ == t,
                        None => false,
                    },
                    Err(_) => false,
                }
            } else {
                r == Err::<BuiltRequest, DownloadError>(DownloadError::InvalidToken)
            },
        },
{
    if !url_parse_ok(url) {
        return Err(DownloadError::InvalidUrl);
    }
    let token: Option<String> = match auth_token {
        Some(t) => Some(t),
        None => {
            let pairs = query_pairs_of(url);
            find_auth_token(&pairs)
        },
    };
    match token {
        None => Ok(BuiltRequest { url: url.to_owned(), auth_header: None }),
        Some(t) => {
            if header_value_ok(t.as_str()) {
                Ok(BuiltRequest { url: url.to_owned(), auth_header: Some(t) })
            } else {
                Err(DownloadError::InvalidToken)
            }
        },
    }
}

} // verus!
