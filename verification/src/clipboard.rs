//! Reading an image address off the clipboard: one web URL, nothing else.
use vstd::prelude::*;
use crate::text::{trim, has_ws, trim_str, any_whitespace, string_of, str_is};

verus! {

/// What the URL parser makes of a text: its scheme, its host if it has
/// one, and its serialization.
#[derive(Debug)]
pub struct UrlParts {
    pub scheme: String,
    pub host: Option<String>,
    pub serialized: String,
}

/// The parse of `text` as an absolute URL, by scheme, host and
/// serialization, or `None` when it is not one.
pub uninterp spec fn url_parse(text: Seq<char>) -> Option<(Seq<char>, Option<Seq<char>>, Seq<char>)>;

pub open spec fn parts_view(p: UrlParts) -> (Seq<char>, Option<Seq<char>>, Seq<char>) {
    (p.scheme@, match p.host {
        Some(h) => Some(h@),
        None => None,
    }, p.serialized@)
}

/// `url::Url::parse`, with the parsed URL's `scheme`, `host_str` and its
/// serialization (`String::from`); the result is a function of the text.
#[verifier::external_body]
fn parse_url(text: &str) -> (r: Option<UrlParts>)
    ensures
        match r {
            Some(p) => url_parse(text@) == Some(parts_view(p)),
            None => url_parse(text@) is None,
        },
{
    match url::Url::parse(text) {
        Ok(u) => Some(UrlParts {
            scheme: u.scheme().to_string(),
            host: match u.host_str() {
                Some(h) => Some(h.to_string()),
                None => None,
            },
            serialized: u.into(),
        }),
        Err(_) => None,
    }
}

/// The image address a parsed text gives: an http or https URL with a
/// host, as its serialization.
pub open spec fn spec_url_from_parts(p: Option<(Seq<char>, Option<Seq<char>>, Seq<char>)>) -> Option<Seq<char>> {
    match p {
        Some((scheme, host, ser)) => if (scheme == "http"@ || scheme == "https"@) && host is Some {
            Some(ser)
        } else {
            None
        },
        None => None,
    }
}

/// The image address the clipboard's text names: after trimming, a single
/// http or https URL with a host. Text with white space inside names
/// none.
pub open spec fn spec_clipboard_image_url(text: Seq<char>) -> Option<Seq<char>> {
    let t = trim(text);
    if has_ws(t) {
        None
    } else {
        spec_url_from_parts(url_parse(t))
    }
}

/// The address a parsed URL gives, if it is a web address.
pub fn url_from_parts(parts: Option<UrlParts>) -> (r: Option<String>)
    ensures
        match r {
            Some(s) => spec_url_from_parts(match parts {
                Some(p) => Some(parts_view(p)),
                None => None,
            }) == Some(s@),
            None => spec_url_from_parts(match parts {
                Some(p) => Some(parts_view(p)),
                None => None,
            }) is None,
        },
{
    match parts {
        Some(p) => {
            let web = str_is(p.scheme.as_str(), "http") || str_is(p.scheme.as_str(), "https");
            if web && p.host.is_some() {
                Some(p.serialized)
            } else {
                None
            }
        },
        None => None,
    }
}

/// The image address on the clipboard, if its text is one.
pub fn clipboard_image_url(text: &str) -> (r: Option<String>)
    ensures
        match r {
            Some(s) => spec_clipboard_image_url(text@) == Some(s@),
            None => spec_clipboard_image_url(text@) is None,
        },
{
    let t = trim_str(text);
    if any_whitespace(t.as_slice()) {
        return None;
    }
    let s = string_of(t.as_slice());
    let parts = parse_url(s.as_str());
    url_from_parts(parts)
}

/// The clipboard names an image only as one web address: the trimmed
/// text, free of white space, parses as an http or https URL with a host,
/// and the address is that URL's serialization. Text with white space
/// inside, text that is no URL, and a URL of any other scheme or without
/// a host name none.
pub proof fn lemma_clipboard_names_one_web_address(text: Seq<char>)
    ensures
        ({
            let t = trim(text);
            &&& spec_clipboard_image_url(text) matches Some(u) ==> !has_ws(t) && (url_parse(t) matches Some(
                p,
            ) && (p.0 == "http"@ || p.0 == "https"@) && p.1 is Some && p.2 == u)
            &&& has_ws(t) ==> spec_clipboard_image_url(text) is None
            &&& url_parse(t) is None ==> spec_clipboard_image_url(text) is None
            &&& (url_parse(t) matches Some(p) && ((p.0 != "http"@ && p.0 != "https"@) || p.1 is None))
                ==> spec_clipboard_image_url(text) is None
        }),
{
}

} // verus!
