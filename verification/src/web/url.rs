//! Addresses on the web, read through the `url` crate.
use crate::data;
use crate::data::Duplicate;
use vstd::prelude::*;

verus! {

/// The parts of an address that matter here.
#[derive(Debug)]
pub struct UrlParts {
    pub whole: String,
    pub scheme: String,
    pub username: String,
    pub has_password: bool,
    pub host: Option<String>,
    pub is_domain: bool,
    pub port: Option<u16>,
    pub path: String,
    pub has_query: bool,
    pub has_fragment: bool,
}

#[verifier::ext_equal]
pub struct UrlPartsView {
    pub whole: Seq<char>,
    pub scheme: Seq<char>,
    pub username: Seq<char>,
    pub has_password: bool,
    pub host: Option<Seq<char>>,
    pub is_domain: bool,
    pub port: Option<u16>,
    pub path: Seq<char>,
    pub has_query: bool,
    pub has_fragment: bool,
}

impl View for UrlParts {
    type V = UrlPartsView;

    open spec fn view(&self) -> UrlPartsView {
        UrlPartsView {
            whole: self.whole@,
            scheme: self.scheme@,
            username: self.username@,
            has_password: self.has_password,
            host: data::option_view(self.host),
            is_domain: self.is_domain,
            port: self.port,
            path: self.path@,
            has_query: self.has_query,
            has_fragment: self.has_fragment,
        }
    }
}

impl Duplicate for UrlParts {
    fn duplicate(&self) -> (r: Self) {
        UrlParts {
            whole: self.whole.clone(),
            scheme: self.scheme.clone(),
            username: self.username.clone(),
            has_password: self.has_password,
            host: match &self.host {
                Some(host) => Some(host.clone()),
                None => None,
            },
            is_domain: self.is_domain,
            port: self.port,
            path: self.path.clone(),
            has_query: self.has_query,
            has_fragment: self.has_fragment,
        }
    }
}

/// The parts that a text has as an address, or why it is none.
pub uninterp spec fn url_parts(text: Seq<char>) -> Result<UrlPartsView, Seq<char>>;

/// Reads an address through `url::Url::parse`, and takes the parts from the accessors of the parsed
/// value; the port is the one that is written or else the default of the scheme. The parts, and the
/// reason where the text is no address, are a function of the text alone.
#[verifier::external_body]
pub(crate) fn read_url(text: &str) -> (r: Result<UrlParts, String>)
    ensures
        crate::error::result_view(r) == url_parts(text@),
{
    let url = url::Url::parse(text).map_err(|error| error.to_string())?;
    Ok(UrlParts {
        whole: url.as_str().to_owned(),
        scheme: url.scheme().to_owned(),
        username: url.username().to_owned(),
        has_password: url.password().is_some(),
        host: url.host_str().map(str::to_owned),
        is_domain: url.domain().is_some(),
        port: url.port_or_known_default(),
        path: url.path().to_owned(),
        has_query: url.query().is_some(),
        has_fragment: url.fragment().is_some(),
    })
}

/// The address that another one leads to from a base, or why there is none.
pub uninterp spec fn url_joined(base: Seq<char>, reference: Seq<char>) -> Result<
    Seq<char>,
    Seq<char>,
>;

/// Resolves an address against a base through `url::Url::join`. The result, and the reason where
/// there is none, are a function of the two texts alone.
#[verifier::external_body]
pub(crate) fn join_url(base: &str, reference: &str) -> (r: Result<String, String>)
    ensures
        crate::error::result_view(r) == url_joined(base@, reference@),
{
    let joined = url::Url::parse(base).and_then(|base| base.join(reference));
    joined.map(|url| url.as_str().to_owned()).map_err(|error| error.to_string())
}

} // verus!
