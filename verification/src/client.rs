//! The entry point to a Durable Streams server.
use crate::bindings::{parse_url, url_parsed};
use crate::error::{Error, ErrorView};
use crate::retry::RetryPolicy;
use crate::stream::{DurableStream, StreamView};
use crate::text::{opt_view, text_result};
use crate::time::{TimeSpan, NANOS_PER_MILLI, NANOS_PER_SEC};
use crate::transport::{base_outcome, BaseUrl, HttpTransport, TransportView};
use crate::types::stream_path::{path_outcome, StreamPath};
use vstd::prelude::*;
use vstd::string::*;

verus! {

/// How the client calls itself.
pub const USER_AGENT: &'static str = "durable-streams-client/0.2.3";

/// How a client talks to the server.
#[derive(Debug)]
pub struct ClientConfig {
    pub request_timeout: TimeSpan,
    pub retry_policy: RetryPolicy,
    pub user_agent: Option<String>,
}

impl Clone for ClientConfig {
    fn clone(&self) -> (r: ClientConfig)
        ensures
            r == *self,
    {
        ClientConfig {
            request_timeout: self.request_timeout,
            retry_policy: self.retry_policy,
            user_agent: match &self.user_agent {
                Some(user_agent) => Some(user_agent.clone()),
                None => None,
            },
        }
    }
}

impl Default for ClientConfig {
    fn default() -> (r: ClientConfig)
        ensures
            r.request_timeout@ == 30 * NANOS_PER_SEC,
            default_policy(r.retry_policy),
            opt_view(r.user_agent) == Some(USER_AGENT@),
    {
        ClientConfig {
            request_timeout: TimeSpan::from_secs(30),
            retry_policy: RetryPolicy::default(),
            user_agent: Some(USER_AGENT.to_owned()),
        }
    }
}

/// Whether the policy is the one that holds where none is given.
pub open spec fn default_policy(policy: RetryPolicy) -> bool {
    &&& policy.max_attempts == 4
    &&& policy.initial_backoff@ == 100 * NANOS_PER_MILLI
    &&& policy.max_backoff@ == 2 * NANOS_PER_SEC
}

/// A client of one server.
#[derive(Debug)]
pub struct DurableStreamsClient {
    transport: HttpTransport,
}

impl View for DurableStreamsClient {
    type V = TransportView;

    closed spec fn view(&self) -> TransportView {
        self.transport@
    }
}

impl Clone for DurableStreamsClient {
    fn clone(&self) -> (r: DurableStreamsClient)
        ensures
            r@ == self@,
    {
        DurableStreamsClient { transport: self.transport.clone() }
    }
}

/// The client for the server at `base_url`, where `parsed` is what that text parses to.
pub open spec fn client_outcome(
    base_url: Seq<char>,
    parsed: Result<Seq<char>, Seq<char>>,
    config: ClientConfig,
) -> Result<TransportView, ErrorView> {
    match base_outcome(base_url, parsed) {
        Ok(base) => Ok(
            TransportView {
                base,
                retry_policy: config.retry_policy,
                request_timeout: config.request_timeout@,
                user_agent: opt_view(config.user_agent),
            },
        ),
        Err(error) => Err(error),
    }
}

/// The outcome `r`, seen through the views of its values.
pub open spec fn client_result(r: Result<DurableStreamsClient, Error>) -> Result<
    TransportView,
    ErrorView,
> {
    match r {
        Ok(client) => Ok(client@),
        Err(error) => Err(error@),
    }
}

/// The outcome `r`, seen through the views of its values.
pub open spec fn stream_result(r: Result<DurableStream, Error>) -> Result<StreamView, ErrorView> {
    match r {
        Ok(stream) => Ok(stream@),
        Err(error) => Err(error@),
    }
}

impl DurableStreamsClient {
    /// A client with the default configuration. `base_url` has to be an absolute URL.
    pub fn new(base_url: &str) -> (r: Result<DurableStreamsClient, Error>)
        ensures
            match url_parsed(base_url@) {
                Ok(text) => r is Ok && {
                    let client = r->Ok_0@;
                    &&& client.base.given == base_url@
                    &&& client.base.text == text
                    &&& default_policy(client.retry_policy)
                    &&& client.request_timeout == 30 * NANOS_PER_SEC
                    &&& client.user_agent == Some(USER_AGENT@)
                },
                Err(source) => r is Err && r->Err_0@ == (ErrorView::InvalidBaseUrl {
                    url: base_url@,
                    source,
                }),
            },
    {
        DurableStreamsClient::with_config(base_url, ClientConfig::default())
    }

    /// A client with the given configuration, where `parsed` is what `base_url` parses to.
    pub fn with_parsed(
        base_url: &str,
        parsed: Result<String, String>,
        config: ClientConfig,
    ) -> (r: Result<DurableStreamsClient, Error>)
        ensures
            client_result(r) == client_outcome(base_url@, text_result(parsed), config),
    {
        match BaseUrl::from_parsed(base_url, parsed) {
            Ok(base) => Ok(DurableStreamsClient { transport: HttpTransport::new(base, config) }),
            Err(error) => Err(error),
        }
    }

    /// A client with the given configuration. `base_url` has to be an absolute URL.
    pub fn with_config(base_url: &str, config: ClientConfig) -> (r: Result<
        DurableStreamsClient,
        Error,
    >)
        ensures
            client_result(r) == client_outcome(base_url@, url_parsed(base_url@), config),
    {
        DurableStreamsClient::with_parsed(base_url, parse_url(base_url), config)
    }

    /// How the client reaches the server.
    pub fn transport(&self) -> (r: &HttpTransport)
        ensures
            r@ == self@,
    {
        &self.transport
    }

    /// A handle for the stream at `path`, which has to be absolute.
    pub fn stream(&self, path: &str) -> (r: Result<DurableStream, Error>)
        ensures
            stream_result(r) == match path_outcome(path@) {
                Ok(path) => Ok(StreamView { transport: self@, path }),
                Err(error) => Err(error),
            },
    {
        match StreamPath::new(path) {
            Ok(path) => Ok(DurableStream::new(self.transport.clone(), path)),
            Err(error) => Err(error),
        }
    }
}

} // verus!
