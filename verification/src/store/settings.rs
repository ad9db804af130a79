//! Settings of the service: its ports, its way out, its tab completion and its identity.
use crate::data;
use crate::error::{result_view, Error, ErrorView};
use crate::text;
use crate::web::url;
use crate::web::url::{UrlParts, UrlPartsView};
use vstd::prelude::*;

verus! {

/// The tab service that anyone may use.
pub const PUBLIC_TAB_SERVICE_URL: &'static str = "https://tab.leokun.cn";

/// The ports that the user asked for; zero stands for any.
#[derive(Clone, Copy, Debug, PartialEq, Eq, Structural)]
pub struct PortSettings {
    pub proxy_port: u16,
    pub service_port: u16,
}

impl Default for PortSettings {
    fn default() -> (r: Self)
        ensures
            r == (PortSettings { proxy_port: 0, service_port: 0 }),
    {
        PortSettings { proxy_port: 0, service_port: 0 }
    }
}

impl PortSettings {
    /// The same ports, but for that of the service.
    pub fn set_service_port(self, port: u16) -> (r: Self)
        ensures
            r.service_port == port,
            r.proxy_port == self.proxy_port,
    {
        PortSettings { proxy_port: self.proxy_port, service_port: port }
    }

    /// The same ports, but for that of the proxy.
    pub fn set_proxy_port(self, port: u16) -> (r: Self)
        ensures
            r.proxy_port == port,
            r.service_port == self.service_port,
    {
        PortSettings { proxy_port: port, service_port: self.service_port }
    }
}

/// Which proxy requests leave through.
#[derive(Clone, Copy, Debug, PartialEq, Eq, Structural)]
pub enum ProxyMode {
    System,
    Custom,
}

impl Default for ProxyMode {
    fn default() -> (r: Self)
        ensures
            r == ProxyMode::System,
    {
        ProxyMode::System
    }
}

impl ProxyMode {
    /// Whether the user named a proxy.
    pub fn is_custom(self) -> (r: bool)
        ensures
            r == (self == ProxyMode::Custom),
    {
        self == ProxyMode::Custom
    }
}

/// Where tab completions come from.
#[derive(Clone, Copy, Debug, PartialEq, Eq, Structural)]
pub enum TabMode {
    Public,
    Direct,
    Custom,
}

impl Default for TabMode {
    fn default() -> (r: Self)
        ensures
            r == TabMode::Public,
    {
        TabMode::Public
    }
}

/// Where tab completions come from, with the address of a service of the user's own.
#[derive(Debug)]
pub struct TabSettings {
    pub mode: TabMode,
    pub address: String,
}

#[verifier::ext_equal]
pub struct TabSettingsView {
    pub mode: TabMode,
    pub address: Seq<char>,
}

impl View for TabSettings {
    type V = TabSettingsView;

    open spec fn view(&self) -> TabSettingsView {
        TabSettingsView { mode: self.mode, address: self.address@ }
    }
}

impl Default for TabSettings {
    fn default() -> (r: Self)
        ensures
            r.mode == TabMode::Public,
            r.address@.len() == 0,
    {
        TabSettings { mode: TabMode::Public, address: String::new() }
    }
}

impl TabSettingsView {
    /// The service that completions are asked of; none where the editor asks its own.
    pub open spec fn service(self) -> Option<Seq<char>> {
        match self.mode {
            TabMode::Public => Some(PUBLIC_TAB_SERVICE_URL@),
            TabMode::Direct => None,
            TabMode::Custom => Some(self.address),
        }
    }
}

impl TabSettings {
    /// The service that completions are asked of; none where the editor asks its own.
    pub fn service_url(&self) -> (r: Option<&str>)
        ensures
            (match r {
                Some(s) => Some(s@),
                None => None,
            }) == self@.service(),
    {
        match self.mode {
            TabMode::Public => Some(PUBLIC_TAB_SERVICE_URL),
            TabMode::Direct => None,
            TabMode::Custom => Some(self.address.as_str()),
        }
    }
}

/// Whether the window stays away when the program starts.
#[derive(Clone, Copy, Debug, PartialEq, Eq, Structural)]
pub struct DesktopSettings {
    pub silent_start: bool,
}

impl Default for DesktopSettings {
    fn default() -> (r: Self)
        ensures
            !r.silent_start,
    {
        DesktopSettings { silent_start: false }
    }
}

/// The proxy as the user asks for it.
#[derive(Debug)]
pub struct ProxySettingsInput {
    pub mode: ProxyMode,
    pub address: String,
    pub auth_enabled: bool,
    pub username: String,
    pub password: Option<String>,
}

#[verifier::ext_equal]
pub struct ProxySettingsInputView {
    pub mode: ProxyMode,
    pub address: Seq<char>,
    pub auth_enabled: bool,
    pub username: Seq<char>,
    pub password: Option<Seq<char>>,
}

impl View for ProxySettingsInput {
    type V = ProxySettingsInputView;

    open spec fn view(&self) -> ProxySettingsInputView {
        ProxySettingsInputView {
            mode: self.mode,
            address: self.address@,
            auth_enabled: self.auth_enabled,
            username: self.username@,
            password: data::option_view(self.password),
        }
    }
}

/// The proxy as it is shown: without its password.
#[derive(Debug)]
pub struct ProxySettings {
    pub mode: ProxyMode,
    pub address: String,
    pub auth_enabled: bool,
    pub username: String,
    pub has_password: bool,
}

#[verifier::ext_equal]
pub struct ProxySettingsView {
    pub mode: ProxyMode,
    pub address: Seq<char>,
    pub auth_enabled: bool,
    pub username: Seq<char>,
    pub has_password: bool,
}

impl View for ProxySettings {
    type V = ProxySettingsView;

    open spec fn view(&self) -> ProxySettingsView {
        ProxySettingsView {
            mode: self.mode,
            address: self.address@,
            auth_enabled: self.auth_enabled,
            username: self.username@,
            has_password: self.has_password,
        }
    }
}

/// The proxy as it is kept.
#[derive(Debug)]
pub struct ProxySettingsSecret {
    pub mode: ProxyMode,
    pub address: String,
    pub auth_enabled: bool,
    pub username: String,
    pub password: String,
}

#[verifier::ext_equal]
pub struct ProxySettingsSecretView {
    pub mode: ProxyMode,
    pub address: Seq<char>,
    pub auth_enabled: bool,
    pub username: Seq<char>,
    pub password: Seq<char>,
}

impl View for ProxySettingsSecret {
    type V = ProxySettingsSecretView;

    open spec fn view(&self) -> ProxySettingsSecretView {
        ProxySettingsSecretView {
            mode: self.mode,
            address: self.address@,
            auth_enabled: self.auth_enabled,
            username: self.username@,
            password: self.password@,
        }
    }
}

impl Default for ProxySettingsSecret {
    fn default() -> (r: Self)
        ensures
            r.mode == ProxyMode::System,
            r.address@.len() == 0,
            !r.auth_enabled,
            r.username@.len() == 0,
            r.password@.len() == 0,
    {
        ProxySettingsSecret {
            mode: ProxyMode::System,
            address: String::new(),
            auth_enabled: false,
            username: String::new(),
            password: String::new(),
        }
    }
}

impl ProxySettingsSecretView {
    /// The proxy as it is shown.
    pub open spec fn shown(self) -> ProxySettingsView {
        ProxySettingsView {
            mode: self.mode,
            address: self.address,
            auth_enabled: self.auth_enabled,
            username: self.username,
            has_password: self.password.len() > 0,
        }
    }
}

impl ProxySettingsSecret {
    /// The proxy as it is shown.
    pub fn shown(&self) -> (r: ProxySettings)
        ensures
            r@ == self@.shown(),
    {
        ProxySettings {
            mode: self.mode,
            address: self.address.clone(),
            auth_enabled: self.auth_enabled,
            username: self.username.clone(),
            has_password: !self.password.as_str().is_empty(),
        }
    }
}

/// Why an address is none of a proxy; none where it is one.
pub uninterp spec fn proxy_refusal(address: Seq<char>) -> Option<Seq<char>>;

/// Asks `reqwest::Proxy::all` whether it takes an address, and gives the text of its error where it
/// does not. The answer is a function of the address alone.
#[verifier::external_body]
pub(crate) fn refused_proxy(address: &str) -> (r: Option<String>)
    ensures
        data::option_view(r) == proxy_refusal(address@),
{
    reqwest::Proxy::all(address).err().map(|error| error.to_string())
}

/// What is wrong with the address of a proxy, from how it reads and from what the client says of it.
pub open spec fn proxy_error(
    read: Result<UrlPartsView, Seq<char>>,
    refusal: Option<Seq<char>>,
) -> Option<ErrorView> {
    match read {
        Err(reason) => Some(ErrorView::Config("invalid proxy address: "@ + reason)),
        Ok(parts) => if parts.scheme != "http"@ && parts.scheme != "https"@ && parts.scheme
            != "socks5"@ && parts.scheme != "socks5h"@ {
            Some(ErrorView::Config("proxy address must use http, https, socks5, or socks5h"@))
        } else {
            match refusal {
                Some(reason) => Some(ErrorView::Http(reason)),
                None => None,
            }
        },
    }
}

/// What is wrong with the address of a proxy, from how it reads and from what the client says of it.
pub fn check_proxy(read: Result<UrlParts, String>, refusal: Option<String>) -> (r: Option<Error>)
    ensures
        data::option_view(r) == proxy_error(result_view(read), data::option_view(refusal)),
{
    match read {
        Err(reason) => Some(
            Error::Config(text::concat("invalid proxy address: ", reason.as_str())),
        ),
        Ok(parts) => {
            let scheme = parts.scheme.as_str();
            if !text::same(scheme, "http") && !text::same(scheme, "https") && !text::same(
                scheme,
                "socks5",
            ) && !text::same(scheme, "socks5h") {
                return Some(
                    Error::Config(
                        "proxy address must use http, https, socks5, or socks5h".to_owned(),
                    ),
                );
            }
            match refusal {
                Some(reason) => Some(Error::Http(reason)),
                None => None,
            }
        },
    }
}

/// The proxy that is kept once the user has asked for one whose address is acceptable.
pub open spec fn accepted_proxy(
    existing: ProxySettingsSecretView,
    input: ProxySettingsInputView,
) -> ProxySettingsSecretView {
    ProxySettingsSecretView {
        mode: input.mode,
        address: text::trimmed(input.address),
        auth_enabled: input.auth_enabled,
        username: text::trimmed(input.username),
        password: if input.auth_enabled {
            match input.password {
                Some(password) => if password.len() > 0 {
                    password
                } else {
                    existing.password
                },
                None => existing.password,
            }
        } else {
            Seq::empty()
        },
    }
}

/// The proxy that is kept once the user has asked for one: an address of the user's own is checked
/// first, and a password that is not given again stays.
pub open spec fn saved_proxy(
    existing: ProxySettingsSecretView,
    input: ProxySettingsInputView,
) -> Result<ProxySettingsSecretView, ErrorView> {
    let address = text::trimmed(input.address);
    if input.mode == ProxyMode::Custom {
        match proxy_error(url::url_parts(address), proxy_refusal(address)) {
            Some(error) => Err(error),
            None => Ok(accepted_proxy(existing, input)),
        }
    } else {
        Ok(accepted_proxy(existing, input))
    }
}

/// The proxy that is kept once the user has asked for one whose address is acceptable.
pub fn accept_proxy(existing: ProxySettingsSecret, input: ProxySettingsInput) -> (r:
    ProxySettingsSecret)
    ensures
        r@ == accepted_proxy(existing@, input@),
{
    let password = if input.auth_enabled {
        match input.password {
            Some(password) => if password.as_str().is_empty() {
                existing.password
            } else {
                password
            },
            None => existing.password,
        }
    } else {
        let none = String::new();
        assert(none@ =~= Seq::<char>::empty());
        none
    };
    ProxySettingsSecret {
        mode: input.mode,
        address: text::trim(input.address.as_str()),
        auth_enabled: input.auth_enabled,
        username: text::trim(input.username.as_str()),
        password,
    }
}

/// The proxy that is kept once the user has asked for one.
pub fn set_proxy_settings(existing: ProxySettingsSecret, input: ProxySettingsInput) -> (r: Result<
    ProxySettingsSecret,
    Error,
>)
    ensures
        result_view(r) == saved_proxy(existing@, input@),
{
    if input.mode.is_custom() {
        let address = text::trim(input.address.as_str());
        let read = url::read_url(address.as_str());
        let refusal = refused_proxy(address.as_str());
        match check_proxy(read, refusal) {
            Some(error) => {
                return Err(error);
            },
            None => {},
        }
    }
    Ok(accept_proxy(existing, input))
}

/// What is shown of a proxy tells of its password only whether there is one.
pub proof fn law_password_is_write_only(a: ProxySettingsSecretView, b: ProxySettingsSecretView)
    requires
        a.mode == b.mode,
        a.address == b.address,
        a.auth_enabled == b.auth_enabled,
        a.username == b.username,
        (a.password.len() > 0) == (b.password.len() > 0),
    ensures
        a.shown() == b.shown(),
{
}

/// A password that is not given again is the one that was kept, as long as the proxy asks for one;
/// a proxy that asks for none keeps none.
pub proof fn law_unchanged_password_stays(
    existing: ProxySettingsSecretView,
    input: ProxySettingsInputView,
)
    requires
        input.password is None || input.password == Some(Seq::<char>::empty()),
        saved_proxy(existing, input) is Ok,
    ensures
        input.auth_enabled ==> saved_proxy(existing, input)->Ok_0.password == existing.password,
        !input.auth_enabled ==> saved_proxy(existing, input)->Ok_0.password.len() == 0,
{
}

/// What is wrong with the address of a tab service, from how it reads.
pub open spec fn tab_error(read: Result<UrlPartsView, Seq<char>>) -> Option<Seq<char>> {
    match read {
        Err(reason) => Some("invalid TAB service address: "@ + reason),
        Ok(parts) => if parts.scheme != "http"@ && parts.scheme != "https"@ {
            Some("TAB service address must use http or https"@)
        } else if parts.host is None || parts.has_query || parts.has_fragment {
            Some("TAB service address must be a base URL without a query or fragment"@)
        } else {
            None
        },
    }
}

/// What is wrong with the address of a tab service, from how it reads.
pub fn check_tab(read: Result<UrlParts, String>) -> (r: Option<String>)
    ensures
        data::option_view(r) == tab_error(result_view(read)),
{
    match read {
        Err(reason) => Some(text::concat("invalid TAB service address: ", reason.as_str())),
        Ok(parts) => {
            if !text::same(parts.scheme.as_str(), "http") && !text::same(
                parts.scheme.as_str(),
                "https",
            ) {
                Some("TAB service address must use http or https".to_owned())
            } else if parts.host.is_none() || parts.has_query || parts.has_fragment {
                Some(
                    "TAB service address must be a base URL without a query or fragment".to_owned(),
                )
            } else {
                None
            }
        },
    }
}

/// An address without white space around it and without slashes at its end.
pub open spec fn base_address(address: Seq<char>) -> Seq<char> {
    text::without_trailing(text::trimmed(address), '/')
}

/// The tab settings that are kept once the user has asked for some.
pub open spec fn saved_tab(settings: TabSettingsView) -> Result<TabSettingsView, ErrorView> {
    let address = base_address(settings.address);
    let kept = TabSettingsView { mode: settings.mode, address };
    if settings.mode == TabMode::Custom {
        match tab_error(url::url_parts(address)) {
            Some(message) => Err(ErrorView::Config(message)),
            None => Ok(kept),
        }
    } else {
        Ok(kept)
    }
}

/// The tab settings that are kept once the user has asked for some.
pub fn set_tab_settings(settings: TabSettings) -> (r: Result<TabSettings, Error>)
    ensures
        result_view(r) == saved_tab(settings@),
{
    let address = text::strip_trailing(text::trim(settings.address.as_str()).as_str(), '/');
    if settings.mode == TabMode::Custom {
        let read = url::read_url(address.as_str());
        match check_tab(read) {
            Some(message) => {
                return Err(Error::Config(message));
            },
            None => {},
        }
    }
    Ok(TabSettings { mode: settings.mode, address })
}

/// The address of a tab service that is kept never ends in a slash.
pub proof fn law_kept_tab_address_is_a_base(settings: TabSettingsView)
    requires
        saved_tab(settings) is Ok,
    ensures
        ({
            let address = saved_tab(settings)->Ok_0.address;
            address.len() > 0 ==> address.last() != '/'
        }),
{
    text::lemma_without_trailing(text::trimmed(settings.address), '/');
}

/// Why a text is no identifier of the kind that installations have; none where it is one.
pub uninterp spec fn uuid_refusal(id: Seq<char>) -> Option<Seq<char>>;

/// Asks `uuid::Uuid::parse_str` whether it reads a text, and gives the text of its error where it
/// does not. The answer is a function of the text alone.
#[verifier::external_body]
pub(crate) fn refused_uuid(id: &str) -> (r: Option<String>)
    ensures
        data::option_view(r) == uuid_refusal(id@),
{
    uuid::Uuid::parse_str(id).err().map(|error| error.to_string())
}

/// Calls `uuid::Uuid::new_v4` and writes the identifier out with hyphens, which
/// `uuid::Uuid::parse_str` reads back. It differs from call to call.
#[verifier::external_body]
fn random_uuid() -> (r: String)
    ensures
        uuid_refusal(r@) is None,
{
    uuid::Uuid::new_v4().to_string()
}

/// The identity of an installation, as it was kept, or why it is none.
pub open spec fn known_installation(id: Seq<char>, refusal: Option<Seq<char>>) -> Result<
    Seq<char>,
    ErrorView,
> {
    match refusal {
        Some(reason) => Err(ErrorView::Store("invalid persisted installation ID: "@ + reason)),
        None => Ok(id),
    }
}

/// The identity of an installation, as it was kept, unless it was found not to be one.
pub fn accept_installation(id: String, refusal: Option<String>) -> (r: Result<String, Error>)
    ensures
        result_view(r) == known_installation(id@, data::option_view(refusal)),
{
    match refusal {
        Some(reason) => Err(
            Error::Store(text::concat("invalid persisted installation ID: ", reason.as_str())),
        ),
        None => Ok(id),
    }
}

/// The identity of an installation, as it was kept.
pub fn check_installation(id: String) -> (r: Result<String, Error>)
    ensures
        result_view(r) == known_installation(id@, uuid_refusal(id@)),
{
    let refusal = refused_uuid(id.as_str());
    accept_installation(id, refusal)
}

/// An identity for an installation that has none yet, which is accepted when it is read back.
pub fn new_installation() -> (r: String)
    ensures
        known_installation(r@, uuid_refusal(r@)) == Ok::<Seq<char>, ErrorView>(r@),
{
    random_uuid()
}

/// The proxy that is kept is the one that was asked for, without space around its address and its
/// user's name. A password that was sent is kept where the proxy asks for one.
pub proof fn law_proxy_is_kept_as_asked(
    existing: ProxySettingsSecretView,
    input: ProxySettingsInputView,
)
    ensures
        input.mode != ProxyMode::Custom ==> saved_proxy(existing, input) is Ok,
        saved_proxy(existing, input) matches Ok(kept) ==> {
            &&& kept.mode == input.mode
            &&& kept.address == text::trimmed(input.address)
            &&& kept.auth_enabled == input.auth_enabled
            &&& kept.username == text::trimmed(input.username)
            &&& input.auth_enabled && input.password is Some && input.password->0.len() > 0
                ==> kept.password == input.password->0
            &&& !input.auth_enabled ==> kept.password.len() == 0
        },
{
}

/// What is shown of a proxy is all that is kept but the password.
pub proof fn law_proxy_is_shown_as_it_is(kept: ProxySettingsSecretView)
    ensures
        kept.shown().mode == kept.mode,
        kept.shown().address == kept.address,
        kept.shown().auth_enabled == kept.auth_enabled,
        kept.shown().username == kept.username,
        kept.shown().has_password <==> kept.password.len() > 0,
{
}

/// A proxy of the user's own is taken where its address reads, has one of the four schemes, and the
/// client takes it.
pub proof fn law_acceptable_proxies(
    read: Result<UrlPartsView, Seq<char>>,
    refusal: Option<Seq<char>>,
)
    ensures
        proxy_error(read, refusal) is None <==> read is Ok && refusal is None && (
        read->Ok_0.scheme == "http"@ || read->Ok_0.scheme == "https"@ || read->Ok_0.scheme
            == "socks5"@ || read->Ok_0.scheme == "socks5h"@),
{
}

/// A service for completions of the user's own is taken where its address reads as a base address of
/// the web. Completions are then asked of it; of nobody where the editor asks its own service.
pub proof fn law_completions_are_asked_where_the_user_says(
    settings: TabSettingsView,
    read: Result<UrlPartsView, Seq<char>>,
)
    ensures
        tab_error(read) is None <==> read is Ok && (read->Ok_0.scheme == "http"@
            || read->Ok_0.scheme == "https"@) && read->Ok_0.host is Some && !read->Ok_0.has_query
            && !read->Ok_0.has_fragment,
        settings.mode == TabMode::Custom ==> settings.service() == Some(settings.address),
        settings.mode == TabMode::Direct ==> settings.service() is None,
        settings.mode == TabMode::Public ==> settings.service() == Some("https://tab.leokun.cn"@),
        settings.mode != TabMode::Custom ==> saved_tab(settings) is Ok,
        saved_tab(settings) matches Ok(kept) ==> kept.mode == settings.mode,
{
}

} // verus!
