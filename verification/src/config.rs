//! Deployment configuration and its validation.

use crate::error::ServingError;
use crate::uri::{parse_uri, Components, UriParts};
use vstd::prelude::*;

verus! {

/// Default time to wait for the upstream response headers, in milliseconds.
pub const DEFAULT_REQUEST_TIMEOUT_MS: u64 = 30000;

/// Default size limit of a request body, in bytes.
pub const DEFAULT_MAX_BODY_BYTES: u64 = 10485760;

/// An IP address and a port to listen on.
#[derive(Clone, Copy, Debug, PartialEq, Eq)]
pub enum ListenAddr {
    /// An IPv4 address.
    V4 {
        /// The four octets of the address.
        octets: [u8; 4],
        /// The port.
        port: u16,
    },
    /// An IPv6 address.
    V6 {
        /// The eight segments of the address.
        segments: [u16; 8],
        /// The port.
        port: u16,
        /// The flow information.
        flowinfo: u32,
        /// The scope id.
        scope_id: u32,
    },
}

/// Runtime configuration for the reverse proxy and admin server.
#[derive(Clone, Debug)]
pub struct GatewayConfig {
    /// Origin base URL that receives proxied browser requests.
    pub origin_url: String,
    /// Public listener for browser traffic.
    pub listen_addr: ListenAddr,
    /// Separate owner-local admin listener.
    pub admin_addr: ListenAddr,
    /// Maximum time to wait for the upstream response headers.
    pub request_timeout_ms: u64,
    /// Maximum request body size accepted by the Gateway.
    pub max_body_bytes: u64,
}

/// What a validated configuration holds.
pub struct ValidatedModel {
    /// Scheme of the origin.
    pub origin_scheme: Seq<char>,
    /// Authority of the origin.
    pub origin_authority: Seq<char>,
    /// Public listener.
    pub listen_addr: ListenAddr,
    /// Admin listener.
    pub admin_addr: ListenAddr,
    /// Time to wait for the upstream response headers, in milliseconds.
    pub request_timeout_ms: u64,
    /// Size limit of a request body.
    pub max_body_bytes: u64,
}

impl ValidatedModel {
    /// What holds of every validated configuration: the origin speaks HTTP,
    /// and both budgets are above zero.
    pub open spec fn is_sound(self) -> bool {
        &&& self.origin_scheme == "http"@
        &&& self.request_timeout_ms > 0
        &&& self.max_body_bytes > 0
    }
}

/// Validated deployment configuration used by serving tasks.
#[derive(Debug)]
pub struct ValidatedConfig {
    origin_scheme: String,
    origin_authority: String,
    listen_addr: ListenAddr,
    admin_addr: ListenAddr,
    request_timeout_ms: u64,
    max_body_bytes: u64,
}

impl View for ValidatedConfig {
    type V = ValidatedModel;

    closed spec fn view(&self) -> ValidatedModel {
        ValidatedModel {
            origin_scheme: self.origin_scheme@,
            origin_authority: self.origin_authority@,
            listen_addr: self.listen_addr,
            admin_addr: self.admin_addr,
            request_timeout_ms: self.request_timeout_ms,
            max_body_bytes: self.max_body_bytes,
        }
    }
}

impl Clone for ValidatedConfig {
    /// A configuration that holds the same.
    fn clone(&self) -> (copy: ValidatedConfig)
        ensures
            copy@ == self@,
    {
        proof {
            use_type_invariant(self);
        }
        ValidatedConfig {
            origin_scheme: self.origin_scheme.clone(),
            origin_authority: self.origin_authority.clone(),
            listen_addr: self.listen_addr,
            admin_addr: self.admin_addr,
            request_timeout_ms: self.request_timeout_ms,
            max_body_bytes: self.max_body_bytes,
        }
    }
}

/// The outcome of validating `config`, where `parsed` is what its origin URL
/// spells, `None` for no URI.
pub open spec fn validation(
    config: GatewayConfig,
    parsed: Option<Components>,
) -> Result<ValidatedModel, ServingError> {
    match parsed {
        None => Err(ServingError::InvalidOriginUrl),
        Some((None, _, _)) => Err(ServingError::InvalidOriginUrl),
        Some((Some(scheme), authority, _)) => if scheme != "http"@ {
            Err(ServingError::UnsupportedOriginScheme)
        } else if authority is None {
            Err(ServingError::InvalidOriginUrl)
        } else if config.request_timeout_ms == 0 {
            Err(ServingError::InvalidTimeout)
        } else if config.max_body_bytes == 0 {
            Err(ServingError::InvalidBodyLimit)
        } else {
            Ok(
                ValidatedModel {
                    origin_scheme: scheme,
                    origin_authority: authority->0,
                    listen_addr: config.listen_addr,
                    admin_addr: config.admin_addr,
                    request_timeout_ms: config.request_timeout_ms,
                    max_body_bytes: config.max_body_bytes,
                },
            )
        },
    }
}

/// `result` is the outcome `expected`.
pub open spec fn validates_as(
    result: Result<ValidatedConfig, ServingError>,
    expected: Result<ValidatedModel, ServingError>,
) -> bool {
    match result {
        Ok(config) => expected == Ok::<ValidatedModel, ServingError>(config@),
        Err(error) => expected == Err::<ValidatedModel, ServingError>(error),
    }
}

impl GatewayConfig {
    /// Validates deployment configuration before any listener starts.
    pub fn validate(&self) -> (result: Result<ValidatedConfig, ServingError>)
        ensures
            validates_as(result, validation(*self, crate::uri::uri_components(self.origin_url@))),
            result matches Ok(config) ==> crate::uri::is_authority_text(config@.origin_authority),
    {
        self.validate_parsed(parse_uri(self.origin_url.as_str()))
    }

    /// Validates the configuration, where `origin` is what its origin URL spells.
    pub fn validate_parsed(&self, origin: Option<UriParts>) -> (result: Result<ValidatedConfig, ServingError>)
        ensures
            validates_as(result, validation(*self, crate::uri::optional_parts(origin))),
    {
        let origin = match origin {
            Some(origin) => origin,
            None => return Err(ServingError::InvalidOriginUrl),
        };
        let scheme = match origin.scheme {
            Some(scheme) => scheme,
            None => return Err(ServingError::InvalidOriginUrl),
        };
        if scheme != "http".to_owned() {
            return Err(ServingError::UnsupportedOriginScheme);
        }
        let authority = match origin.authority {
            Some(authority) => authority,
            None => return Err(ServingError::InvalidOriginUrl),
        };
        if self.request_timeout_ms == 0 {
            return Err(ServingError::InvalidTimeout);
        }
        if self.max_body_bytes == 0 {
            return Err(ServingError::InvalidBodyLimit);
        }
        Ok(ValidatedConfig {
            origin_scheme: scheme,
            origin_authority: authority,
            listen_addr: self.listen_addr,
            admin_addr: self.admin_addr,
            request_timeout_ms: self.request_timeout_ms,
            max_body_bytes: self.max_body_bytes,
        })
    }
}

impl ValidatedConfig {
    #[verifier::type_invariant]
    spec fn is_sound(&self) -> bool {
        self@.is_sound()
    }

    /// Scheme of the origin.
    pub fn origin_scheme(&self) -> (scheme: &str)
        ensures
            scheme@ == self@.origin_scheme,
            self@.is_sound(),
    {
        proof {
            use_type_invariant(self);
        }
        self.origin_scheme.as_str()
    }

    /// Authority of the origin.
    pub fn origin_authority(&self) -> (authority: &str)
        ensures
            authority@ == self@.origin_authority,
    {
        self.origin_authority.as_str()
    }

    /// Public listener.
    pub fn listen_addr(&self) -> (addr: ListenAddr)
        ensures
            addr == self@.listen_addr,
    {
        self.listen_addr
    }

    /// Admin listener.
    pub fn admin_addr(&self) -> (addr: ListenAddr)
        ensures
            addr == self@.admin_addr,
    {
        self.admin_addr
    }

    /// Time to wait for the upstream response headers, in milliseconds.
    pub fn request_timeout_ms(&self) -> (timeout: u64)
        ensures
            timeout == self@.request_timeout_ms,
            timeout > 0,
    {
        proof {
            use_type_invariant(self);
        }
        self.request_timeout_ms
    }

    /// Size limit of a request body.
    pub fn max_body_bytes(&self) -> (limit: u64)
        ensures
            limit == self@.max_body_bytes,
            limit > 0,
    {
        proof {
            use_type_invariant(self);
        }
        self.max_body_bytes
    }
}

/// The timeout of a configuration that names none.
pub fn default_request_timeout_ms() -> (timeout: u64)
    ensures
        timeout == 30000,
{
    DEFAULT_REQUEST_TIMEOUT_MS
}

/// The body limit of a configuration that names none.
pub fn default_max_body_bytes() -> (limit: u64)
    ensures
        limit == 10 * 1024 * 1024,
{
    DEFAULT_MAX_BODY_BYTES
}

/// A configuration that passes validation has an `http` origin with the
/// authority that its URL names and budgets above zero, and keeps its
/// addresses and budgets.
pub proof fn validated_configuration_is_sound(
    config: GatewayConfig,
    parsed: Option<Components>,
)
    requires
        validation(config, parsed) is Ok,
    ensures
        ({
            let model = validation(config, parsed)->Ok_0;
            &&& model.is_sound()
            &&& parsed matches Some((scheme, authority, _))
            &&& scheme == Some(model.origin_scheme)
            &&& authority == Some(model.origin_authority)
            &&& model.listen_addr == config.listen_addr
            &&& model.admin_addr == config.admin_addr
            &&& model.request_timeout_ms == config.request_timeout_ms
            &&& model.max_body_bytes == config.max_body_bytes
        }),
{
}

/// Validation fails for one reason at most, the first of these that holds: the
/// origin URL is not absolute, its scheme is not `http`, it has no authority,
/// the timeout is zero, the body limit is zero. Otherwise it passes.
pub proof fn validation_passes_exactly_when_nothing_is_wrong(
    config: GatewayConfig,
    parsed: Option<Components>,
)
    ensures
        validation(config, parsed) is Ok <==> {
            &&& parsed matches Some((scheme, authority, _))
            &&& scheme == Some("http"@)
            &&& authority is Some
            &&& config.request_timeout_ms > 0
            &&& config.max_body_bytes > 0
        },
{
}

/// What a validation comes to: a configuration passes with what it names, its
/// scheme and authority taken from its origin URL, or fails with the error for
/// the first thing that is wrong: the URL is not absolute, its scheme is not
/// `http`, it has no authority, the timeout is zero, the body limit is zero.
pub proof fn validation_keeps_what_is_configured(
    config: GatewayConfig,
    parsed: Option<Components>,
    result: Result<ValidatedConfig, ServingError>,
)
    requires
        validates_as(result, validation(config, parsed)),
    ensures
        ({
            let http = seq!['h', 't', 't', 'p'];
            let absolute = parsed matches Some((Some(_), _, _));
            let supported = parsed matches Some((Some(scheme), _, _)) && scheme == http;
            let addressed = parsed matches Some((_, Some(_), _));
            match result {
                Ok(validated) => {
                    &&& supported && addressed
                    &&& config.request_timeout_ms != 0
                    &&& config.max_body_bytes != 0
                    &&& validated@.origin_scheme == http
                    &&& parsed matches Some((_, Some(authority), _)) && validated@.origin_authority == authority
                    &&& validated@.listen_addr == config.listen_addr
                    &&& validated@.admin_addr == config.admin_addr
                    &&& validated@.request_timeout_ms == config.request_timeout_ms
                    &&& validated@.max_body_bytes == config.max_body_bytes
                },
                Err(ServingError::InvalidOriginUrl) => !absolute || supported && !addressed,
                Err(ServingError::UnsupportedOriginScheme) => absolute && !supported,
                Err(ServingError::InvalidTimeout) => supported && addressed && config.request_timeout_ms == 0,
                Err(ServingError::InvalidBodyLimit) => supported && addressed && config.request_timeout_ms != 0
                    && config.max_body_bytes == 0,
                Err(_) => false,
            }
        }),
{
    reveal_strlit("http");
    assert("http"@ =~= seq!['h', 't', 't', 'p']);
}

/// Only the scheme and the authority of the origin URL count: what path or query
/// it has changes nothing.
pub proof fn origin_path_does_not_count(
    config: GatewayConfig,
    scheme: Option<Seq<char>>,
    authority: Option<Seq<char>>,
    path_and_query: Option<Seq<char>>,
    other: Option<Seq<char>>,
)
    ensures
        validation(config, Some((scheme, authority, path_and_query))) == validation(
            config,
            Some((scheme, authority, other)),
        ),
{
}

/// A sound configuration has an `http` origin and budgets above zero.
pub proof fn soundness_is_an_http_origin_and_budgets(model: ValidatedModel)
    ensures
        model.is_sound() <==> {
            &&& model.origin_scheme == seq!['h', 't', 't', 'p']
            &&& model.request_timeout_ms >= 1
            &&& model.max_body_bytes >= 1
        },
{
    reveal_strlit("http");
    assert("http"@ =~= seq!['h', 't', 't', 'p']);
}

} // verus!
