//! Endpoints of the log service: the address text parsed as a URI by tonic,
//! with the connect and request timeouts set.

use vstd::prelude::*;
use crate::config::GrpcLogConfig;
use crate::errors::{GarbageCollectError, GrpcLogError, TransportError};
use crate::grpc_log::GrpcLog;
use crate::rpc::{connection_string, dirty_log_connect_error, dirty_log_endpoint, log_member_name};
use crate::text::decimal_text;

verus! {

#[verifier::external_type_specification]
#[verifier::external_body]
pub struct ExEndpoint(tonic::transport::Endpoint);

/// Whether `tonic::transport::Endpoint::from_shared` accepts a text as a URI.
pub uninterp spec fn endpoint_uri_accepted(text: Seq<char>) -> bool;

/// A tonic endpoint, with a record of the text its URI was parsed from and
/// of the connect and request timeouts set on it (in milliseconds; `None`
/// where none was set).
pub struct LogEndpoint {
    endpoint: tonic::transport::Endpoint,
    parsed_from: Ghost<Seq<char>>,
    connect_timeout_ms: Ghost<Option<u64>>,
    request_timeout_ms: Ghost<Option<u64>>,
}

impl LogEndpoint {
    /// The text the endpoint's URI was parsed from.
    pub closed spec fn address(&self) -> Seq<char> {
        self.parsed_from@
    }

    /// The connect timeout set on the endpoint, in milliseconds.
    pub closed spec fn connect_timeout(&self) -> Option<u64> {
        self.connect_timeout_ms@
    }

    /// The request timeout set on the endpoint, in milliseconds.
    pub closed spec fn request_timeout(&self) -> Option<u64> {
        self.request_timeout_ms@
    }

    /// The tonic endpoint, to connect over.
    pub fn endpoint(&self) -> &tonic::transport::Endpoint {
        &self.endpoint
    }

    /// The tonic endpoint, to connect over.
    pub fn into_endpoint(self) -> tonic::transport::Endpoint {
        self.endpoint
    }
}

/// Calls `tonic::transport::Endpoint::from_shared`, which parses the text as
/// a URI and otherwise keeps tonic's defaults, among them no connect and no
/// request timeout; a refusal is passed on with the transport's
/// explanation. The contract names which texts are accepted (that is the URI
/// parser's) and records that the endpoint's URI is parsed from this text.
#[verifier::external_body]
fn endpoint_from_text(text: String) -> (r: Result<LogEndpoint, TransportError>)
    ensures
        r is Ok == endpoint_uri_accepted(text@),
        r matches Ok(e) ==> e.address() == text@ && e.connect_timeout() is None
            && e.request_timeout() is None,
{
    let parsed_from = Ghost(text@);
    match tonic::transport::Endpoint::from_shared(text) {
        Ok(endpoint) => Ok(
            LogEndpoint {
                endpoint,
                parsed_from,
                connect_timeout_ms: Ghost(None),
                request_timeout_ms: Ghost(None),
            },
        ),
        Err(e) => Err(TransportError { message: e.to_string() }),
    }
}

/// Calls `tonic::transport::Endpoint::connect_timeout` with `ms`
/// milliseconds: it sets the connect timeout and keeps everything else.
#[verifier::external_body]
fn endpoint_with_connect_timeout(endpoint: LogEndpoint, ms: u64) -> (r: LogEndpoint)
    ensures
        r.address() == endpoint.address(),
        r.connect_timeout() == Some(ms),
        r.request_timeout() == endpoint.request_timeout(),
{
    LogEndpoint {
        endpoint: endpoint.endpoint.connect_timeout(std::time::Duration::from_millis(ms)),
        parsed_from: endpoint.parsed_from,
        connect_timeout_ms: Ghost(Some(ms)),
        request_timeout_ms: endpoint.request_timeout_ms,
    }
}

/// Calls `tonic::transport::Endpoint::timeout` with `ms` milliseconds: it
/// sets the request timeout and keeps everything else.
#[verifier::external_body]
fn endpoint_with_request_timeout(endpoint: LogEndpoint, ms: u64) -> (r: LogEndpoint)
    ensures
        r.address() == endpoint.address(),
        r.connect_timeout() == endpoint.connect_timeout(),
        r.request_timeout() == Some(ms),
{
    LogEndpoint {
        endpoint: endpoint.endpoint.timeout(std::time::Duration::from_millis(ms)),
        parsed_from: endpoint.parsed_from,
        connect_timeout_ms: endpoint.connect_timeout_ms,
        request_timeout_ms: Ghost(Some(ms)),
    }
}

/// The endpoint for an address text, with the configured timeouts.
fn endpoint_with_timeouts(text: String, config: &GrpcLogConfig) -> (r: Result<
    LogEndpoint,
    TransportError,
>)
    ensures
        r is Ok == endpoint_uri_accepted(text@),
        r matches Ok(e) ==> e.address() == text@ && e.connect_timeout() == Some(
            config.connect_timeout_ms,
        ) && e.request_timeout() == Some(config.request_timeout_ms),
{
    match endpoint_from_text(text) {
        Ok(endpoint) => {
            let endpoint = endpoint_with_connect_timeout(endpoint, config.connect_timeout_ms);
            Ok(endpoint_with_request_timeout(endpoint, config.request_timeout_ms))
        },
        Err(e) => Err(e),
    }
}

/// The address of the primary log service: `http://<host>:<port>`.
pub open spec fn primary_address(config: GrpcLogConfig) -> Seq<char> {
    "http://"@ + config.host@ + ":"@ + decimal_text(config.port as nat)
}

/// The endpoint of the primary log service, `http://<host>:<port>`, with the
/// configured timeouts; `FailedToConnect` where the address is no URI.
pub fn primary_endpoint(config: &GrpcLogConfig) -> (r: Result<LogEndpoint, GrpcLogError>)
    ensures
        r is Ok == endpoint_uri_accepted(primary_address(*config)),
        r matches Ok(e) ==> e.address() == primary_address(*config) && e.connect_timeout()
            == Some(config.connect_timeout_ms) && e.request_timeout() == Some(
            config.request_timeout_ms,
        ),
        r is Err ==> r->Err_0 is FailedToConnect,
{
    match endpoint_with_timeouts(connection_string(config), config) {
        Ok(endpoint) => Ok(endpoint),
        Err(e) => Err(GrpcLogError::FailedToConnect(e)),
    }
}

/// How the client of the primary log service is set up: its endpoint (not
/// connected yet) and the largest messages it sends and accepts.
pub struct LogClientSettings {
    pub endpoint: LogEndpoint,
    pub max_encoding_message_size: usize,
    pub max_decoding_message_size: usize,
}

impl GrpcLog {
    /// The setup of the client of the primary log service: the endpoint of
    /// `http://<host>:<port>` with the configured timeouts, and the
    /// configured message-size limits; `FailedToConnect` where the address is
    /// no URI. Nothing is connected here.
    pub fn primary_client_from_config(my_config: &GrpcLogConfig) -> (r: Result<
        LogClientSettings,
        GrpcLogError,
    >)
        ensures
            r is Ok == endpoint_uri_accepted(primary_address(*my_config)),
            r matches Ok(s) ==> s.endpoint.address() == primary_address(*my_config)
                && s.endpoint.connect_timeout() == Some(my_config.connect_timeout_ms)
                && s.endpoint.request_timeout() == Some(my_config.request_timeout_ms)
                && s.max_encoding_message_size == my_config.max_encoding_message_size
                && s.max_decoding_message_size == my_config.max_decoding_message_size,
            r is Err ==> r->Err_0 is FailedToConnect,
    {
        match primary_endpoint(my_config) {
            Ok(endpoint) => Ok(
                LogClientSettings {
                    endpoint,
                    max_encoding_message_size: my_config.max_encoding_message_size,
                    max_decoding_message_size: my_config.max_decoding_message_size,
                },
            ),
            Err(e) => Err(e),
        }
    }
}

/// The address of the log-service member `ordinal`.
pub open spec fn member_address(ordinal: u64) -> Seq<char> {
    "grpc://"@ + log_member_name(ordinal) + ".rust-log-service:50051"@
}

/// The error text for a log-service member that could not be reached.
pub open spec fn connect_error_text(ordinal: u64, detail: Seq<char>) -> Seq<char> {
    "could not connect to "@ + log_member_name(ordinal) + ":50051: "@ + detail
}

/// The endpoint of the log-service member `ordinal`, with the configured
/// timeouts; where its address is no URI, the `Resolution` error that names
/// the member, with the transport's explanation.
pub fn dirty_log_endpoint_checked(ordinal: u64, config: &GrpcLogConfig) -> (r: Result<
    LogEndpoint,
    GarbageCollectError,
>)
    ensures
        r is Ok == endpoint_uri_accepted(member_address(ordinal)),
        r matches Ok(e) ==> e.address() == member_address(ordinal) && e.connect_timeout() == Some(
            config.connect_timeout_ms,
        ) && e.request_timeout() == Some(config.request_timeout_ms),
        r is Err ==> (r matches Err(GarbageCollectError::Resolution(m)) && exists|d: Seq<char>|
            m@ == #[trigger] connect_error_text(ordinal, d)),
{
    match endpoint_with_timeouts(dirty_log_endpoint(ordinal), config) {
        Ok(endpoint) => Ok(endpoint),
        Err(e) => {
            let err = dirty_log_connect_error(ordinal, e.message.as_str());
            proof {
                assert(err matches GarbageCollectError::Resolution(m) && m@ == connect_error_text(
                    ordinal,
                    e.message@,
                ));
            }
            Err(err)
        },
    }
}

} // verus!
