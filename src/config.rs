//! The settings of the two roles, loaded once and then only read.
use vstd::prelude::*;
use crate::codec::CmdType;
use crate::resolve::{host_port, host_port_text};

verus! {

/// The settings of the ingress.
#[derive(Clone, Debug, PartialEq, Eq)]
pub struct LocalConfig {
    pub local_addr: String,
    pub local_port: u16,
    pub password: String,
    pub remote_addr: String,
    pub remote_host: String,
    pub remote_port: u16,
    pub cert_file: Option<String>,
}

/// The settings of the egress.
#[derive(Clone, Debug, PartialEq, Eq)]
pub struct RemoteConfig {
    pub password: String,
    pub remote_addr: String,
    pub remote_port: u16,
    pub web_addr: String,
    pub web_port: u16,
    pub pfx: String,
    pub pfx_password: String,
}

/// What every tunnel of the ingress is opened with.
#[derive(Clone, Debug, PartialEq, Eq, Default)]
pub struct TlsConfig {
    pub password: String,
    pub remote_addr: String,
    pub remote_host: String,
    pub cert: Option<String>,
}

/// How the ingress's TLS client checks the egress.
#[derive(Clone, Debug, PartialEq, Eq)]
pub enum TlsPolicy {
    /// Trust this PEM certificate, and check neither host names nor
    /// certificates.
    PinnedUnchecked(String),
    /// The platform's trust store, with the usual checks.
    PlatformDefault,
}

/// Why a session ends before its relay.
#[derive(Clone, Copy, Debug, PartialEq, Eq)]
pub enum SessionError {
    /// Malformed protocol bytes or settings.
    InvalidData,
    /// A lookup gave no address.
    NotFound,
    /// A connection or a TLS handshake failed.
    ConnectionError,
    /// The command is known but not carried out.
    Unimplemented,
}

/// Only a connect is carried out; a UDP associate fails loudly.
pub fn require_connect(cmd: CmdType) -> (r: Result<(), SessionError>)
    ensures
        cmd == CmdType::Connect <==> r is Ok,
        cmd == CmdType::UdpAssociate ==> r == Err::<(), SessionError>(SessionError::Unimplemented),
{
    match cmd {
        CmdType::Connect => Ok(()),
        CmdType::UdpAssociate => Err(SessionError::Unimplemented),
    }
}

impl LocalConfig {
    /// The address the ingress listens on.
    pub fn listen_address(&self) -> (r: String)
        ensures
            r@ == host_port_text(self.local_addr@, self.local_port),
    {
        host_port(self.local_addr.as_str(), self.local_port)
    }
}

impl RemoteConfig {
    /// The address the egress listens on.
    pub fn listen_address(&self) -> (r: String)
        ensures
            r@ == host_port_text(self.remote_addr@, self.remote_port),
    {
        host_port(self.remote_addr.as_str(), self.remote_port)
    }

    /// The address of the decoy web server.
    pub fn web_address(&self) -> (r: String)
        ensures
            r@ == host_port_text(self.web_addr@, self.web_port),
    {
        host_port(self.web_addr.as_str(), self.web_port)
    }
}

impl TlsConfig {
    /// The tunnel settings of an ingress whose pinned certificate, if it
    /// names one, reads `cert`.
    pub fn from_local(input: &LocalConfig, cert: Option<String>) -> (r: TlsConfig)
        ensures
            r.password@ == input.password@,
            r.remote_addr@ == host_port_text(input.remote_addr@, input.remote_port),
            r.remote_host@ == input.remote_host@,
            r.cert == cert,
    {
        TlsConfig {
            password: input.password.clone(),
            remote_addr: host_port(input.remote_addr.as_str(), input.remote_port),
            remote_host: input.remote_host.clone(),
            cert,
        }
    }

    /// A pinned certificate turns all checks off; without one the
    /// platform's defaults apply.
    pub fn tls_policy(&self) -> (r: TlsPolicy)
        ensures
            match self.cert {
                Some(c) => r matches TlsPolicy::PinnedUnchecked(p) && p@ == c@,
                None => r == TlsPolicy::PlatformDefault,
            },
    {
        match &self.cert {
            Some(c) => TlsPolicy::PinnedUnchecked(c.clone()),
            None => TlsPolicy::PlatformDefault,
        }
    }
}

} // verus!
