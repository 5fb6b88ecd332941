//! Planning of HTTP requests that go through the onion network.
//!
//! A connector is handed the address of a request.  It has to decide
//! whether the request is one it can serve, where to open the onion stream
//! to, and whether TLS goes over that stream.  Dialing and the handshake
//! are the caller's; what to do next, after each, is decided here.

use vstd::prelude::*;

verus! {

/// The scheme of the address of a request.
#[derive(Clone, Copy, Debug, PartialEq, Eq, Structural)]
pub enum UriScheme {
    /// `http`
    Http,
    /// `https`
    Https,
    /// Any other scheme, or none.
    Other,
}

/// What a connector reads of the address of a request.
#[derive(Clone, Debug)]
pub struct RequestUri {
    /// The scheme.
    pub scheme: UriScheme,
    /// The host, if the address names one.
    pub host: Option<String>,
    /// The port, if the address names one.
    pub port: Option<u16>,
    /// The address as it was written.
    pub text: String,
}

/// Are we doing TLS?
#[derive(Clone, Copy, Debug, PartialEq, Eq, Structural)]
pub enum UseTls {
    /// No
    Bare,
    /// Yes
    Tls,
}

/// Error making or using http connection.
#[derive(Clone, Debug)]
pub enum ConnectionError {
    /// Unsupported URI scheme
    UnsupportedUriScheme {
        /// URI
        uri: String,
    },
    /// Missing hostname
    MissingHostname {
        /// URI
        uri: String,
    },
    /// Tor connection failed
    Arti,
    /// TLS connection failed
    TLS,
}

/// The kinds of error that a connector reports.
#[derive(Clone, Copy, Debug, PartialEq, Eq, Structural)]
pub enum ErrorKind {
    /// The request asks for something that is not implemented.
    NotImplemented,
    /// The caller used the interface in a way that cannot work.
    BadApiUsage,
    /// The other side did not keep to the protocol.
    RemoteProtocolFailed,
    /// The kind is that of the error of the onion connection.
    OfOnionError,
}

impl ConnectionError {
    /// The kind of this error.
    pub fn kind(&self) -> (k: ErrorKind)
        ensures
            k == match *self {
                ConnectionError::UnsupportedUriScheme { .. } => ErrorKind::NotImplemented,
                ConnectionError::MissingHostname { .. } => ErrorKind::BadApiUsage,
                ConnectionError::Arti => ErrorKind::OfOnionError,
                ConnectionError::TLS => ErrorKind::RemoteProtocolFailed,
            },
    {
        match self {
            ConnectionError::UnsupportedUriScheme { .. } => ErrorKind::NotImplemented,
            ConnectionError::MissingHostname { .. } => ErrorKind::BadApiUsage,
            ConnectionError::Arti => ErrorKind::OfOnionError,
            ConnectionError::TLS => ErrorKind::RemoteProtocolFailed,
        }
    }
}

/// Where a request goes, and how.
pub struct Target {
    /// The host to open the onion stream to.
    pub host: Seq<char>,
    /// The port on that host.
    pub port: u16,
    /// Whether TLS goes over the stream.
    pub use_tls: UseTls,
}

/// The port of a scheme, where the address names none: 443 with TLS, 80
/// without.
pub open spec fn default_port(use_tls: UseTls) -> u16 {
    match use_tls {
        UseTls::Tls => 443,
        UseTls::Bare => 80,
    }
}

/// Where the request to an address goes, or `None` where its scheme is not
/// served or it names no host.
pub open spec fn target_of(scheme: UriScheme, host: Option<Seq<char>>, port: Option<u16>) -> Option<
    Target,
> {
    let use_tls = match scheme {
        UriScheme::Http => Some(UseTls::Bare),
        UriScheme::Https => Some(UseTls::Tls),
        UriScheme::Other => None,
    };
    match (use_tls, host) {
        (Some(use_tls), Some(host)) => Some(
            Target {
                host,
                port: match port {
                    Some(p) => p,
                    None => default_port(use_tls),
                },
                use_tls,
            },
        ),
        _ => None,
    }
}

/// The host of an address, as a sequence of characters.
pub open spec fn host_of(uri: RequestUri) -> Option<Seq<char>> {
    match uri.host {
        Some(h) => Some(h@),
        None => None,
    }
}

/// Convert uri to http[s] host and port, and whether to do tls.
pub fn uri_to_host_port_tls(uri: RequestUri) -> (r: Result<(String, u16, UseTls), ConnectionError>)
    ensures
        match target_of(uri.scheme, host_of(uri), uri.port) {
            Some(t) => r matches Ok((host, port, use_tls)) && host@ == t.host && port == t.port
                && use_tls == t.use_tls,
            None => if uri.scheme == UriScheme::Other {
                r matches Err(ConnectionError::UnsupportedUriScheme { uri: text }) && text@
                    == uri.text@
            } else {
                r matches Err(ConnectionError::MissingHostname { uri: text }) && text@
                    == uri.text@
            },
        },
{
    let use_tls = match uri.scheme {
        UriScheme::Http => UseTls::Bare,
        UriScheme::Https => UseTls::Tls,
        UriScheme::Other => {
            return Err(ConnectionError::UnsupportedUriScheme { uri: uri.text });
        },
    };
    let host = match uri.host {
        Some(h) => h,
        None => {
            return Err(ConnectionError::MissingHostname { uri: uri.text });
        },
    };
    let port = match uri.port {
        Some(p) => p,
        None => match use_tls {
            UseTls::Tls => 443,
            UseTls::Bare => 80,
        },
    };
    Ok((host, port, use_tls))
}

/// What a connector does once it knows how the dial has ended.
#[derive(Clone, Copy, Debug, PartialEq, Eq, Structural)]
pub enum AfterDial {
    /// Hand out the onion stream as it is.
    ServePlain,
    /// Do the TLS handshake over the onion stream, with the host of the
    /// request as the name of the server, and hand out what it yields.
    Handshake,
    /// Give up: the onion connection failed.
    Fail,
}

/// What follows a dial: nothing where it failed, a handshake where the
/// request asks for TLS, otherwise the stream as it is.
pub open spec fn step_after_dial(use_tls: UseTls, dialed: bool) -> AfterDial {
    if !dialed {
        AfterDial::Fail
    } else if use_tls == UseTls::Tls {
        AfterDial::Handshake
    } else {
        AfterDial::ServePlain
    }
}

/// Decide what follows the dial.
pub fn after_dial(use_tls: UseTls, dialed: bool) -> (r: AfterDial)
    ensures
        r == step_after_dial(use_tls, dialed),
{
    if !dialed {
        AfterDial::Fail
    } else {
        match use_tls {
            UseTls::Tls => AfterDial::Handshake,
            UseTls::Bare => AfterDial::ServePlain,
        }
    }
}

/// A request to an `http` address is served over the onion stream itself,
/// one to an `https` address over TLS, and both over a stream to the host
/// and port that the address names; the port is 80 or 443 where it names
/// none.
pub proof fn law_scheme_decides_the_stream(host: Seq<char>, port: Option<u16>)
    ensures
        ({
            let plain = target_of(UriScheme::Http, Some(host), port);
            let secure = target_of(UriScheme::Https, Some(host), port);
            &&& plain is Some && secure is Some
            &&& plain->0.host == host && secure->0.host == host
            &&& port is Some ==> plain->0.port == port->0 && secure->0.port == port->0
            &&& port is None ==> plain->0.port == 80 && secure->0.port == 443
            &&& step_after_dial(plain->0.use_tls, true) == AfterDial::ServePlain
            &&& step_after_dial(secure->0.use_tls, true) == AfterDial::Handshake
        }),
{
}

} // verus!
