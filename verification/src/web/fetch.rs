//! How a page is fetched: which addresses are asked, which answers lead on, and how much is read.
use crate::data;
use crate::text;
use crate::web::address::{safe_resolution, Address};
use crate::web::page::{failure, FetchError};
use crate::web::url;
use crate::web::url::{UrlParts, UrlPartsView};
use vstd::prelude::*;

verus! {

/// How large a page may be.
pub const MAX_RESPONSE_SIZE: usize = 5_242_880;

/// How often a page may lead to another.
pub const MAX_REDIRECTS: usize = 5;

/// Which addresses may be asked.
#[derive(Clone, Copy, Debug, PartialEq, Eq, Structural)]
pub enum NetworkPolicy {
    PublicOnly,
    Any,
}

/// Which client asks: one with the stored settings, or a plain one.
#[derive(Clone, Copy, Debug, PartialEq, Eq, Structural)]
pub enum FetchClient {
    Managed,
    Direct,
}

/// How pages are fetched.
#[derive(Clone, Copy, Debug, PartialEq, Eq, Structural)]
pub struct WebFetch {
    pub network: NetworkPolicy,
    pub client: FetchClient,
}

impl WebFetch {
    /// Pages are fetched from public addresses by a plain client.
    pub fn built_in() -> (r: Self)
        ensures
            r == (WebFetch { network: NetworkPolicy::PublicOnly, client: FetchClient::Direct }),
    {
        WebFetch { network: NetworkPolicy::PublicOnly, client: FetchClient::Direct }
    }

    /// Pages are fetched from public addresses by a client with the stored settings.
    pub fn managed() -> (r: Self)
        ensures
            r == (WebFetch { network: NetworkPolicy::PublicOnly, client: FetchClient::Managed }),
    {
        WebFetch { network: NetworkPolicy::PublicOnly, client: FetchClient::Managed }
    }
}

impl Default for WebFetch {
    fn default() -> (r: Self)
        ensures
            r == (WebFetch { network: NetworkPolicy::PublicOnly, client: FetchClient::Direct }),
    {
        WebFetch::built_in()
    }
}

/// An address that pages are fetched from, or why not.
pub open spec fn checked(parsed: Result<UrlPartsView, Seq<char>>) -> Result<
    UrlPartsView,
    Seq<char>,
> {
    match parsed {
        Err(reason) => Err("invalid URL: "@ + reason),
        Ok(parts) => if parts.scheme != "http"@ && parts.scheme != "https"@ {
            Err("URL must use http or https"@)
        } else if parts.username.len() > 0 || parts.has_password {
            Err("URL credentials are not allowed"@)
        } else if parts.host is None {
            Err("URL is missing a host"@)
        } else {
            Ok(parts)
        },
    }
}

/// An address that pages are fetched from, or why not.
pub fn check_url(parsed: Result<UrlParts, String>) -> (r: Result<UrlParts, FetchError>)
    ensures
        crate::error::result_view(r) == checked(crate::error::result_view(parsed)),
{
    match parsed {
        Err(reason) => Err(FetchError(text::concat("invalid URL: ", reason.as_str()))),
        Ok(parts) => {
            if !text::same(parts.scheme.as_str(), "http") && !text::same(
                parts.scheme.as_str(),
                "https",
            ) {
                return Err(failure("URL must use http or https"));
            }
            if !parts.username.as_str().is_empty() || parts.has_password {
                return Err(failure("URL credentials are not allowed"));
            }
            if parts.host.is_none() {
                return Err(failure("URL is missing a host"));
            }
            Ok(parts)
        },
    }
}

/// The address that a text is, if pages are fetched from it.
pub fn parse_url(value: &str) -> (r: Result<UrlParts, FetchError>)
    ensures
        crate::error::result_view(r) == checked(url::url_parts(value@)),
{
    check_url(url::read_url(value))
}

/// The host and the port that are asked.
pub fn endpoint(parts: &UrlParts) -> (r: Result<(String, u16), FetchError>)
    ensures
        match r {
            Ok((host, port)) => parts@.host == Some(host@) && parts@.port == Some(port),
            Err(e) => if parts@.host is None {
                e@ == "URL is missing a host"@
            } else {
                parts@.port is None && e@ == "URL has no usable port"@
            },
        },
{
    match &parts.host {
        None => Err(failure("URL is missing a host")),
        Some(host) => match parts.port {
            None => Err(failure("URL has no usable port")),
            Some(port) => Ok((host.clone(), port)),
        },
    }
}

/// Whether the addresses that a host was resolved to may be asked, or why not.
pub fn check_addresses(policy: NetworkPolicy, addresses: &Vec<Address>, domain: bool) -> (r: Result<
    (),
    FetchError,
>)
    ensures
        match r {
            Ok(()) => addresses@.len() > 0 && (policy == NetworkPolicy::PublicOnly ==> forall|i: int|
                0 <= i < addresses@.len() ==> (#[trigger] addresses@[i]).public() || (domain
                    && addresses@[i].benchmark())),
            Err(e) => if addresses@.len() == 0 {
                e@ == "DNS lookup returned no addresses"@
            } else {
                e@ == "URL resolves to a non-public address"@ && policy == NetworkPolicy::PublicOnly
                    && exists|i: int|
                    0 <= i < addresses@.len() && !((#[trigger] addresses@[i]).public() || (domain
                        && addresses@[i].benchmark()))
            },
        },
{
    if addresses.len() == 0 {
        return Err(failure("DNS lookup returned no addresses"));
    }
    if policy == NetworkPolicy::PublicOnly {
        let mut i: usize = 0;
        while i < addresses.len()
            invariant
                i <= addresses@.len(),
                addresses@.len() > 0,
                policy == NetworkPolicy::PublicOnly,
                forall|k: int|
                    0 <= k < i ==> (#[trigger] addresses@[k]).public() || (domain
                        && addresses@[k].benchmark()),
            decreases addresses@.len() - i,
        {
            if !safe_resolution(addresses[i], domain) {
                assert(!(addresses@[i as int].public() || (domain
                    && addresses@[i as int].benchmark())));
                return Err(failure("URL resolves to a non-public address"));
            }
            i += 1;
        }
    }
    Ok(())
}

/// The beginning of an answer: its status, the status in words, and where it leads.
#[derive(Debug)]
pub struct ResponseHead {
    pub status: u16,
    pub status_text: String,
    pub location: Option<String>,
}

/// What an answer asks for.
#[derive(Debug)]
pub enum ResponseStep {
    Follow(String),
    Read,
}

#[verifier::ext_equal]
pub enum ResponseStepView {
    Follow(Seq<char>),
    Read,
}

impl View for ResponseStep {
    type V = ResponseStepView;

    open spec fn view(&self) -> ResponseStepView {
        match self {
            ResponseStep::Follow(location) => ResponseStepView::Follow(location@),
            ResponseStep::Read => ResponseStepView::Read,
        }
    }
}

/// What an answer asks for after some redirects: it leads on, or it is read, or it is a failure.
pub open spec fn response_step(
    redirects: nat,
    status: u16,
    status_text: Seq<char>,
    location: Option<Seq<char>>,
) -> Result<ResponseStepView, Seq<char>> {
    if 300 <= status <= 399 {
        if redirects >= MAX_REDIRECTS {
            Err("too many redirects"@)
        } else {
            match location {
                Some(location) => Ok(ResponseStepView::Follow(location)),
                None => Err("redirect is missing Location"@),
            }
        }
    } else if 200 <= status <= 299 {
        Ok(ResponseStepView::Read)
    } else {
        Err("HTTP "@ + status_text)
    }
}

/// What an answer asks for after some redirects.
pub fn on_response(redirects: usize, head: &ResponseHead) -> (r: Result<ResponseStep, FetchError>)
    ensures
        crate::error::result_view(r) == response_step(
            redirects as nat,
            head.status,
            head.status_text@,
            data::option_view(head.location),
        ),
{
    if 300 <= head.status && head.status <= 399 {
        if redirects >= MAX_REDIRECTS {
            return Err(failure("too many redirects"));
        }
        return match &head.location {
            Some(location) => Ok(ResponseStep::Follow(location.clone())),
            None => Err(failure("redirect is missing Location")),
        };
    }
    if 200 <= head.status && head.status <= 299 {
        return Ok(ResponseStep::Read);
    }
    Err(FetchError(text::concat("HTTP ", head.status_text.as_str())))
}

/// The address that a redirect leads to, if pages are fetched from it.
pub open spec fn redirect_target(base: Seq<char>, location: Seq<char>) -> Result<
    UrlPartsView,
    Seq<char>,
> {
    match url::url_joined(base, location) {
        Err(reason) => Err("invalid redirect: "@ + reason),
        Ok(joined) => checked(url::url_parts(joined)),
    }
}

/// The address that a redirect leads to, if pages are fetched from it.
pub fn follow(base: &UrlParts, location: &str) -> (r: Result<UrlParts, FetchError>)
    ensures
        crate::error::result_view(r) == redirect_target(base@.whole, location@),
{
    match url::join_url(base.whole.as_str(), location) {
        Err(reason) => Err(FetchError(text::concat("invalid redirect: ", reason.as_str()))),
        Ok(joined) => parse_url(joined.as_str()),
    }
}

/// Whether the length that an answer announces is accepted.
pub fn check_length(announced: Option<&str>) -> (r: Result<(), FetchError>)
    ensures
        ({
            let too_long = match announced {
                Some(length) => match text::unsigned_of(length@, usize::MAX as nat) {
                    Some(n) => n > MAX_RESPONSE_SIZE,
                    None => false,
                },
                None => false,
            };
            match r {
                Ok(()) => !too_long,
                Err(e) => too_long && e@ == "response exceeds 5 MiB"@,
            }
        }),
{
    if let Some(length) = announced {
        if let Some(n) = text::parse_usize(length) {
            if n > MAX_RESPONSE_SIZE {
                return Err(failure("response exceeds 5 MiB"));
            }
        }
    }
    Ok(())
}

/// Adds a piece to what was read of a page, unless the page grows too large.
pub fn add_chunk(body: &mut Vec<u8>, chunk: &Vec<u8>) -> (r: Result<(), FetchError>)
    requires
        old(body)@.len() <= MAX_RESPONSE_SIZE,
    ensures
        final(body)@.len() <= MAX_RESPONSE_SIZE,
        match r {
            Ok(()) => old(body)@.len() + chunk@.len() <= MAX_RESPONSE_SIZE && final(body)@ == old(
                body,
            )@ + chunk@,
            Err(e) => old(body)@.len() + chunk@.len() > MAX_RESPONSE_SIZE && final(body)@ == old(
                body,
            )@ && e@ == "response exceeds 5 MiB"@,
        },
{
    if chunk.len() > MAX_RESPONSE_SIZE - body.len() {
        return Err(failure("response exceeds 5 MiB"));
    }
    let ghost before = body@;
    let mut i: usize = 0;
    assert(before + chunk@.take(0) =~= before);
    while i < chunk.len()
        invariant
            i <= chunk@.len(),
            body@ == before + chunk@.take(i as int),
        decreases chunk@.len() - i,
    {
        body.push(chunk[i]);
        i += 1;
        assert(chunk@.take(i as int) =~= chunk@.take(i - 1).push(chunk@[i - 1]));
        assert((before + chunk@.take(i - 1)).push(chunk@[i - 1]) =~= before + chunk@.take(
            i as int,
        ));
    }
    assert(chunk@.take(i as int) =~= chunk@);
    Ok(())
}

/// A redirect is followed at most five times, and never to an address that could not be asked for in
/// the first place.
pub proof fn law_redirects_are_checked(
    redirects: nat,
    status: u16,
    status_text: Seq<char>,
    location: Option<Seq<char>>,
    base: Seq<char>,
)
    ensures
        response_step(redirects, status, status_text, location) matches Ok(
            ResponseStepView::Follow(to),
        ) ==> redirects < MAX_REDIRECTS,
        location matches Some(to) ==> (redirect_target(base, to) matches Ok(parts) ==> (
        parts.scheme == "http"@ || parts.scheme == "https"@) && parts.username.len() == 0
            && !parts.has_password && parts.host is Some),
{
}

/// An answer is read where it succeeded and followed where it leads on, at most five times; any other is
/// a failure.
pub proof fn law_answers_are_read_or_followed(
    redirects: nat,
    status: u16,
    status_text: Seq<char>,
    location: Option<Seq<char>>,
)
    ensures
        ({
            let step = response_step(redirects, status, status_text, location);
            &&& step == Ok::<ResponseStepView, Seq<char>>(ResponseStepView::Read) <==> 200 <= status
                < 300
            &&& 300 <= status < 400 && redirects < 5 && location is Some ==> step == Ok::<
                ResponseStepView,
                Seq<char>,
            >(ResponseStepView::Follow(location->0))
            &&& 300 <= status < 400 && (redirects >= 5 || location is None) ==> step is Err
            &&& status < 200 || status >= 400 ==> step is Err && text::ends(
                step->Err_0,
                status_text,
            )
        }),
{
    let told = "HTTP "@ + status_text;
    assert(told.subrange(told.len() - status_text.len(), told.len() as int) =~= status_text);
}

/// Pages are fetched from addresses of the web that name a host and no credentials, and from no others.
pub proof fn law_addresses_are_checked(parts: UrlPartsView)
    ensures
        checked(Ok::<UrlPartsView, Seq<char>>(parts)) is Ok <==> (parts.scheme == "http"@
            || parts.scheme == "https"@) && parts.username.len() == 0 && !parts.has_password
            && parts.host is Some,
        checked(Ok::<UrlPartsView, Seq<char>>(parts)) matches Ok(kept) ==> kept == parts,
{
}

} // verus!
