//! How the HTTP client of a run is set up.
use crate::codec::text;
use crate::config::{further, header_of, Config, Fields, HeaderError};
use crate::headers::{fields, room};
use crate::text::same_text;
use http::header::{HeaderMap, HeaderValue};
use vstd::prelude::*;

verus! {

/// How many redirects the client follows by itself.
pub const REDIRECT_LIMIT: usize = 10;

/// For how many seconds the client tries to connect.
pub const CONNECT_SECONDS: u64 = 30;

/// For how many hours a request may last.
pub const REQUEST_HOURS: u64 = 48;

/// A browser that the client can pass for.
#[derive(Clone, Copy, Debug, PartialEq, Eq, Structural)]
pub enum Emulation {
    Edge101,
    Edge122,
    Edge127,
    Edge131,
    Chrome126,
    Chrome127,
    Chrome128,
    Chrome129,
    Chrome130,
    Chrome131,
}

/// What was made of the browser that the options name.
#[derive(Clone, Copy, Debug, PartialEq, Eq, Structural)]
pub enum Disguise {
    /// They name none.
    Default,
    /// They ask for no disguise.
    Off,
    /// They name one that is known.
    Known,
    /// They name one that is not known, and the default takes its place.
    Unknown,
}

/// What the client does about a proxy.
#[derive(Debug)]
pub enum ProxyPlan {
    /// It does what the system asks for.
    System,
    /// It uses none.
    Off,
    /// It uses the one at `url`, with a user name and a password where both are given.
    Through { url: String, login: Option<(String, String)> },
}

/// How the client is set up.
#[derive(Debug)]
pub struct ClientPlan {
    /// The browser that it passes for, if any.
    pub emulation: Option<Emulation>,
    pub disguise: Disguise,
    pub proxy: ProxyPlan,
}

/// Why no client can be set up.
#[derive(Clone, Copy, Debug, PartialEq, Eq, Structural)]
pub enum ClientError {
    /// The header cannot be made.
    Header(HeaderError),
    /// A proxy is switched on, but its address is not given.
    NoProxyUrl,
}

/// The browser of a name.
pub open spec fn known_emulation(name: Seq<char>) -> Option<Emulation> {
    if name == "edge131"@ {
        Some(Emulation::Edge131)
    } else if name == "edge101"@ {
        Some(Emulation::Edge101)
    } else if name == "edge122"@ {
        Some(Emulation::Edge122)
    } else if name == "edge127"@ {
        Some(Emulation::Edge127)
    } else if name == "chrome126"@ {
        Some(Emulation::Chrome126)
    } else if name == "chrome127"@ {
        Some(Emulation::Chrome127)
    } else if name == "chrome128"@ {
        Some(Emulation::Chrome128)
    } else if name == "chrome129"@ {
        Some(Emulation::Chrome129)
    } else if name == "chrome130"@ {
        Some(Emulation::Chrome130)
    } else if name == "chrome131"@ {
        Some(Emulation::Chrome131)
    } else {
        None
    }
}

/// What is made of the browser that the options name.
pub open spec fn disguise_of(given: Option<Seq<char>>) -> (Option<Emulation>, Disguise) {
    match given {
        None => (Some(Emulation::Edge131), Disguise::Default),
        Some(name) => if name == "None"@ {
            (None, Disguise::Off)
        } else {
            match known_emulation(name) {
                Some(emulation) => (Some(emulation), Disguise::Known),
                None => (Some(Emulation::Edge131), Disguise::Unknown),
            }
        },
    }
}

/// The user name and the password, where both are given.
pub open spec fn login_of(user_name: Option<Seq<char>>, password: Option<Seq<char>>) -> Option<(Seq<char>, Seq<char>)> {
    match (user_name, password) {
        (Some(name), Some(word)) => Some((name, word)),
        _ => None,
    }
}

/// `plan` is what the client does about a proxy.
pub open spec fn is_proxy_plan(config: Config, plan: ProxyPlan) -> bool {
    match plan {
        ProxyPlan::System => config.proxy_type is None,
        ProxyPlan::Off => text(config.proxy_type) == Some("none"@),
        ProxyPlan::Through { url, login } => {
            &&& config.proxy_type is Some
            &&& text(config.proxy_type) != Some("none"@)
            &&& text(config.proxy_url) == Some(url@)
            &&& login_of(text(config.user_name), text(config.password)) == (match login {
                Some((name, word)) => Some((name@, word@)),
                None => None,
            })
        },
    }
}

/// A proxy is switched on, but its address is not given.
pub open spec fn lacks_proxy_url(config: Config) -> bool {
    &&& config.proxy_type is Some
    &&& text(config.proxy_type) != Some("none"@)
    &&& config.proxy_url is None
}

/// The browser of a name.
pub fn emulation_of(name: &str) -> (r: Option<Emulation>)
    ensures
        r == known_emulation(name@),
{
    if same_text(name, "edge131") {
        Some(Emulation::Edge131)
    } else if same_text(name, "edge101") {
        Some(Emulation::Edge101)
    } else if same_text(name, "edge122") {
        Some(Emulation::Edge122)
    } else if same_text(name, "edge127") {
        Some(Emulation::Edge127)
    } else if same_text(name, "chrome126") {
        Some(Emulation::Chrome126)
    } else if same_text(name, "chrome127") {
        Some(Emulation::Chrome127)
    } else if same_text(name, "chrome128") {
        Some(Emulation::Chrome128)
    } else if same_text(name, "chrome129") {
        Some(Emulation::Chrome129)
    } else if same_text(name, "chrome130") {
        Some(Emulation::Chrome130)
    } else if same_text(name, "chrome131") {
        Some(Emulation::Chrome131)
    } else {
        None
    }
}

/// The client of a run: the header that it sends, and how it is set up.
pub struct ControlClient {
    pub header: HeaderMap<HeaderValue>,
    pub plan: ClientPlan,
}

impl ControlClient {
    /// The client that the options ask for.
    pub fn new(config: &Config) -> (r: Result<ControlClient, ClientError>)
        ensures
            ({
                let header = header_of(text(config.user_agent), text(config.cookie), text(config.header));
                match r {
                    Ok(client) => {
                        &&& header == Ok::<Fields, HeaderError>(fields(client.header))
                        &&& (client.plan.emulation, client.plan.disguise) == disguise_of(text(config.emulation))
                        &&& is_proxy_plan(*config, client.plan.proxy)
                    },
                    Err(ClientError::Header(HeaderError::TooMany)) => further(text(config.header)) + 6 > room(),
                    Err(ClientError::Header(error)) => header == Err::<Fields, HeaderError>(error),
                    Err(ClientError::NoProxyUrl) => header is Ok && lacks_proxy_url(*config),
                }
            }),
    {
        let header: HeaderMap<HeaderValue> = match config.generate_header() {
            Ok(header) => header,
            Err(error) => return Err(ClientError::Header(error)),
        };
        match ControlClient::create_client(config) {
            Ok(plan) => Ok(ControlClient { header, plan }),
            Err(error) => Err(error),
        }
    }

    /// How the client is set up.
    pub fn create_client(config: &Config) -> (r: Result<ClientPlan, ClientError>)
        ensures
            match r {
                Ok(plan) => {
                    &&& (plan.emulation, plan.disguise) == disguise_of(text(config.emulation))
                    &&& is_proxy_plan(*config, plan.proxy)
                    &&& !lacks_proxy_url(*config)
                },
                Err(error) => error == ClientError::NoProxyUrl && lacks_proxy_url(*config),
            },
    {
        let (emulation, disguise): (Option<Emulation>, Disguise) = match &config.emulation {
            None => (Some(Emulation::Edge131), Disguise::Default),
            Some(name) => if same_text(name.as_str(), "None") {
                (None, Disguise::Off)
            } else {
                match emulation_of(name.as_str()) {
                    Some(emulation) => (Some(emulation), Disguise::Known),
                    None => (Some(Emulation::Edge131), Disguise::Unknown),
                }
            },
        };
        let proxy: ProxyPlan = match &config.proxy_type {
            None => ProxyPlan::System,
            Some(kind) => if same_text(kind.as_str(), "none") {
                ProxyPlan::Off
            } else {
                match &config.proxy_url {
                    None => return Err(ClientError::NoProxyUrl),
                    Some(url) => {
                        let login: Option<(String, String)> = match (&config.user_name, &config.password) {
                            (Some(name), Some(word)) => Some((name.clone(), word.clone())),
                            _ => None,
                        };
                        ProxyPlan::Through { url: url.clone(), login }
                    },
                }
            },
        };
        Ok(ClientPlan { emulation, disguise, proxy })
    }
}

} // verus!
