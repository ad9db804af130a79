//! Reusable clients for requests that leave the server. A client is known by a handle; the settings
//! that it is made with come from the store.
use crate::store::settings::{ProxyMode, ProxySettingsSecret, ProxySettingsSecretView};
use vstd::prelude::*;

verus! {

/// What a client is for.
#[derive(Clone, Copy, Debug, PartialEq, Eq, Structural)]
pub enum ClientUse {
    /// Any request.
    General,
    /// A request of the editor that is passed on; redirects are not followed.
    Cursor,
    /// A request to a provider, which may take this many milliseconds.
    Provider { timeout_ms: u64 },
}

/// The clients that were made, by what they are for. One client for providers is kept, with the time
/// that it allows.
#[derive(Clone, Copy, Debug)]
pub struct ClientCache {
    pub general: Option<u64>,
    pub cursor: Option<u64>,
    pub provider: Option<(u64, u64)>,
}

impl Default for ClientCache {
    fn default() -> (r: Self)
        ensures
            r == (ClientCache { general: None, cursor: None, provider: None }),
    {
        ClientCache { general: None, cursor: None, provider: None }
    }
}

impl ClientCache {
    /// The client that is kept for a use.
    pub open spec fn kept(self, purpose: ClientUse) -> Option<u64> {
        match purpose {
            ClientUse::General => self.general,
            ClientUse::Cursor => self.cursor,
            ClientUse::Provider { timeout_ms } => match self.provider {
                Some((timeout, client)) => if timeout == timeout_ms {
                    Some(client)
                } else {
                    None
                },
                None => None,
            },
        }
    }

    /// The clients that are kept once one was made for a use.
    pub open spec fn with(self, purpose: ClientUse, client: u64) -> ClientCache {
        match purpose {
            ClientUse::General => ClientCache { general: Some(client), ..self },
            ClientUse::Cursor => ClientCache { cursor: Some(client), ..self },
            ClientUse::Provider { timeout_ms } => ClientCache {
                provider: Some((timeout_ms, client)),
                ..self
            },
        }
    }

    /// The client that is kept for a use; none where one has to be made.
    pub fn get(&self, purpose: ClientUse) -> (r: Option<u64>)
        ensures
            r == self.kept(purpose),
    {
        match purpose {
            ClientUse::General => self.general,
            ClientUse::Cursor => self.cursor,
            ClientUse::Provider { timeout_ms } => match self.provider {
                Some((timeout, client)) => if timeout == timeout_ms {
                    Some(client)
                } else {
                    None
                },
                None => None,
            },
        }
    }

    /// Keeps a client that was made for a use.
    pub fn insert(&mut self, purpose: ClientUse, client: u64)
        ensures
            *final(self) == old(self).with(purpose, client),
    {
        match purpose {
            ClientUse::General => {
                self.general = Some(client);
            },
            ClientUse::Cursor => {
                self.cursor = Some(client);
            },
            ClientUse::Provider { timeout_ms } => {
                self.provider = Some((timeout_ms, client));
            },
        }
    }

    /// Forgets every client, so that the next ones are made with the settings as they are then.
    pub fn invalidate(&mut self)
        ensures
            *final(self) == (ClientCache { general: None, cursor: None, provider: None }),
    {
        *self = ClientCache { general: None, cursor: None, provider: None };
    }
}

/// A client that was made for a use is the one that is used for it, and the clients for uses of
/// another kind stay.
pub proof fn law_made_client_is_reused(
    cache: ClientCache,
    purpose: ClientUse,
    client: u64,
    other: ClientUse,
)
    ensures
        cache.with(purpose, client).kept(purpose) == Some(client),
        !((purpose is General && other is General) || (purpose is Cursor && other is Cursor) || (
        purpose is Provider && other is Provider)) ==> cache.with(purpose, client).kept(other)
            == cache.kept(other),
{
}

/// How a client leaves: through the proxy of the system, or through one of the user's own.
#[derive(Debug)]
pub enum Outbound {
    System,
    Custom {
        address: String,
        /// The name and the password that the proxy is told.
        auth: Option<(String, String)>,
    },
}

#[verifier::ext_equal]
pub enum OutboundView {
    System,
    Custom { address: Seq<char>, auth: Option<(Seq<char>, Seq<char>)> },
}

impl View for Outbound {
    type V = OutboundView;

    open spec fn view(&self) -> OutboundView {
        match self {
            Outbound::System => OutboundView::System,
            Outbound::Custom { address, auth } => OutboundView::Custom {
                address: address@,
                auth: match auth {
                    Some((name, password)) => Some((name@, password@)),
                    None => None,
                },
            },
        }
    }
}

/// How a client leaves under the given settings.
pub open spec fn way_out(settings: ProxySettingsSecretView) -> OutboundView {
    if settings.mode == ProxyMode::Custom {
        OutboundView::Custom {
            address: settings.address,
            auth: if settings.auth_enabled {
                Some((settings.username, settings.password))
            } else {
                None
            },
        }
    } else {
        OutboundView::System
    }
}

/// How a client leaves under the given settings.
pub fn outbound(settings: &ProxySettingsSecret) -> (r: Outbound)
    ensures
        r@ == way_out(settings@),
{
    if settings.mode.is_custom() {
        Outbound::Custom {
            address: settings.address.clone(),
            auth: if settings.auth_enabled {
                Some((settings.username.clone(), settings.password.clone()))
            } else {
                None
            },
        }
    } else {
        Outbound::System
    }
}

/// A client leaves through the user's own proxy if and only if the user wants one, and tells it a name
/// and a password only where it asks for them.
pub proof fn law_clients_leave_as_the_user_wants(settings: ProxySettingsSecretView)
    ensures
        way_out(settings) is Custom <==> settings.mode is Custom,
        way_out(settings) matches OutboundView::Custom { address, auth } ==> {
            &&& address == settings.address
            &&& settings.auth_enabled ==> auth == Some((settings.username, settings.password))
            &&& !settings.auth_enabled ==> auth is None
        },
{
}

/// A client for providers is used again only for the time that it was made for.
pub proof fn law_clients_keep_their_time(cache: ClientCache, made: u64, asked: u64, client: u64)
    requires
        made != asked,
    ensures
        cache.with(ClientUse::Provider { timeout_ms: made }, client).kept(
            ClientUse::Provider { timeout_ms: asked },
        ) is None,
{
}

} // verus!
