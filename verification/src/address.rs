//! Addresses of requests.

use vstd::prelude::*;
use crate::text::opt_text;

verus! {

/// What `url::Url::parse` makes of a text: the serialization, the scheme and
/// the host of the URL, or the text of the error.
pub uninterp spec fn parsed_url(text: Seq<char>) -> Result<
    (Seq<char>, Seq<char>, Option<Seq<char>>),
    Seq<char>,
>;

/// What `url::Url::join` makes of a base, given by its serialization, and a
/// reference: the serialization, the scheme and the host of the URL, or the
/// text of the error.
pub uninterp spec fn joined_url(base: Seq<char>, reference: Seq<char>) -> Result<
    (Seq<char>, Seq<char>, Option<Seq<char>>),
    Seq<char>,
>;

/// The parts of a URL, or an error, by their texts.
pub open spec fn parts_model(parts: Result<(String, String, Option<String>), String>) -> Result<
    (Seq<char>, Seq<char>, Option<Seq<char>>),
    Seq<char>,
> {
    match parts {
        Ok(p) => Ok((p.0@, p.1@, opt_text(p.2))),
        Err(e) => Err(e@),
    }
}

/// Calls `url::Url::parse` and reads the URL with `as_str`, `scheme` and
/// `host_str`. The result depends on the text alone; it has a name, and nothing
/// more is claimed of it.
#[verifier::external_body]
fn url_parse(text: &str) -> (parts: Result<(String, String, Option<String>), String>)
    ensures
        parts_model(parts) == parsed_url(text@),
{
    match url::Url::parse(text) {
        Ok(u) => Ok((u.as_str().to_owned(), u.scheme().to_owned(), u.host_str().map(str::to_owned))),
        Err(e) => Err(e.to_string()),
    }
}

/// Calls `url::Url::join` on the URL that the base writes and reads the result
/// with `as_str`, `scheme` and `host_str`. The result depends on the two texts
/// alone; it has a name, and nothing more is claimed of it.
#[verifier::external_body]
fn url_join(base: &str, reference: &str) -> (parts: Result<
    (String, String, Option<String>),
    String,
>)
    ensures
        parts_model(parts) == joined_url(base@, reference@),
{
    match url::Url::parse(base).and_then(|b| b.join(reference)) {
        Ok(u) => Ok((u.as_str().to_owned(), u.scheme().to_owned(), u.host_str().map(str::to_owned))),
        Err(e) => Err(e.to_string()),
    }
}

/// The address of a request: its text, its scheme and its host.
#[derive(Debug)]
pub struct WebUrl {
    pub href: String,
    pub scheme: String,
    pub host: Option<String>,
}

/// An address by its texts.
pub struct UrlModel {
    pub href: Seq<char>,
    pub scheme: Seq<char>,
    pub host: Option<Seq<char>>,
}

impl View for WebUrl {
    type V = UrlModel;

    open spec fn view(&self) -> UrlModel {
        UrlModel { href: self.href@, scheme: self.scheme@, host: opt_text(self.host) }
    }
}

/// The addresses of a list, by their texts.
pub open spec fn url_models(urls: Seq<WebUrl>) -> Seq<UrlModel> {
    urls.map_values(|u: WebUrl| u@)
}

/// The address with the given parts.
pub open spec fn url_of_parts(
    parts: Result<(Seq<char>, Seq<char>, Option<Seq<char>>), Seq<char>>,
) -> Result<UrlModel, Seq<char>> {
    match parts {
        Ok(p) => Ok(UrlModel { href: p.0, scheme: p.1, host: p.2 }),
        Err(e) => Err(e),
    }
}

/// An address or the text of an error, by their texts.
pub open spec fn url_result(url: Result<WebUrl, String>) -> Result<UrlModel, Seq<char>> {
    match url {
        Ok(u) => Ok(u@),
        Err(e) => Err(e@),
    }
}

impl WebUrl {
    /// Reads an absolute address.
    pub fn parse(text: &str) -> (url: Result<WebUrl, String>)
        ensures
            url_result(url) == url_of_parts(parsed_url(text@)),
    {
        match url_parse(text) {
            Ok((href, scheme, host)) => Ok(WebUrl { href, scheme, host }),
            Err(e) => Err(e),
        }
    }

    /// Resolves a reference against this address.
    pub fn join(&self, reference: &str) -> (url: Result<WebUrl, String>)
        ensures
            url_result(url) == url_of_parts(joined_url(self@.href, reference@)),
    {
        match url_join(self.href.as_str(), reference) {
            Ok((href, scheme, host)) => Ok(WebUrl { href, scheme, host }),
            Err(e) => Err(e),
        }
    }
}

impl Clone for WebUrl {
    fn clone(&self) -> (copy: WebUrl)
        ensures
            copy@ == self@,
    {
        let host = match &self.host {
            Some(h) => Some(h.clone()),
            None => None,
        };
        WebUrl { href: self.href.clone(), scheme: self.scheme.clone(), host }
    }
}

/// An address has the parts that it was read with, and an error its text.
pub proof fn law_addresses_keep_their_parts(
    parts: Result<(Seq<char>, Seq<char>, Option<Seq<char>>), Seq<char>>,
)
    ensures
        url_of_parts(parts) is Ok <==> parts is Ok,
        url_of_parts(parts) matches Ok(url) ==> (url.href, url.scheme, url.host) == parts->Ok_0,
        url_of_parts(parts) matches Err(e) ==> e == parts->Err_0,
{
}

} // verus!
