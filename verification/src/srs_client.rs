//! Client of the HTTP API of the SRS media server, and the requests of its
//! HTTP callback API.

use vstd::prelude::*;

use crate::url_util::{join_url, joined_url, parse_url, parsed_url};
use crate::text::join3;

verus! {

/// Events of the SRS HTTP callback API that the server reacts to.
#[derive(Clone, Copy, Debug, PartialEq, Eq, Structural)]
pub enum SrsCallbackEvent {
    /// A client connects to an `app`.
    OnConnect,
    /// A client publishes a stream.
    OnPublish,
    /// A client stops publishing its stream.
    OnUnpublish,
    /// A client plays a stream.
    OnPlay,
    /// A client stops playing a stream.
    OnStop,
    /// A stream is recorded.
    OnDvr,
    /// A stream is played via HLS.
    OnHls,
}

/// Request performed by SRS to the HTTP callback API.
#[derive(Debug)]
pub struct SrsCallbackReq {
    /// ID of the SRS server.
    pub server_id: String,
    /// Event reported.
    pub action: SrsCallbackEvent,
    /// ID of the SRS client the event is about.
    pub client_id: String,
    /// IP address of the SRS client, rendered.
    pub ip: String,
    /// Virtual host of the stream.
    pub vhost: String,
    /// `app` of the stream.
    pub app: String,
    /// `stream` of the stream, if any.
    pub stream: Option<String>,
}

impl SrsCallbackReq {
    /// The `app` and `stream` of this request, joined by `/`; the `app` alone
    /// if there is no `stream`.
    pub fn app_stream(&self) -> (s: String)
        ensures
            s@ == match self.stream {
                Some(st) => self.app@ + "/"@ + st@,
                None => self.app@,
            },
    {
        match &self.stream {
            Some(stream) => join3(self.app.as_str(), "/", stream.as_str()),
            None => self.app.clone(),
        }
    }
}

/// Errors of requests to the SRS HTTP API; failures of the HTTP client are
/// rendered as their texts.
#[derive(Debug)]
pub enum SrsClientError {
    /// The HTTP request failed itself.
    RequestFailed(String),
    /// The API answered with a bad HTTP status.
    BadStatus(u16),
    /// The answer could not be decoded.
    DeserializeError(String),
    /// The base URL is not a valid URL.
    IncorrectBaseUrl(String),
    /// The URL of an API call is not valid.
    IncorrectApiUrl(String),
}

/// HTTP method of a request.
#[derive(Clone, Copy, Debug, PartialEq, Eq, Structural)]
pub enum Method {
    /// GET.
    Get,
    /// POST.
    Post,
    /// PUT.
    Put,
    /// DELETE.
    Delete,
}

/// Client of the SRS HTTP API.
#[derive(Debug)]
pub struct SrsClient {
    /// Base URL of the API calls.
    pub base_url: String,
}

/// Whether an HTTP status is a success (2xx).
pub open spec fn is_success(status: u16) -> bool {
    200 <= status < 300
}

/// Checks the status of an answer: a success status lets the answer be
/// decoded; any other is an error.
pub fn check_status(status: u16) -> (r: Result<(), SrsClientError>)
    ensures
        r is Ok == is_success(status),
        r matches Err(e) ==> e == SrsClientError::BadStatus(status),
{
    if 200 <= status && status < 300 {
        Ok(())
    } else {
        Err(SrsClientError::BadStatus(status))
    }
}

impl SrsClient {
    /// Builds a client for the SRS server at `base_url`: the API lives under
    /// `/api/v1/` of that URL.
    pub fn build(base_url: &str) -> (r: Result<SrsClient, SrsClientError>)
        ensures
            match parsed_url(base_url@) {
                Some(b) => match joined_url(b, "/api/v1/"@) {
                    Some(u) => r matches Ok(c) && c.base_url@ == u,
                    None => r matches Err(SrsClientError::IncorrectBaseUrl(_)),
                },
                None => r matches Err(SrsClientError::IncorrectBaseUrl(_)),
            },
    {
        match parse_url(base_url) {
            Ok(b) => match join_url(b.as_str(), "/api/v1/") {
                Ok(u) => Ok(SrsClient { base_url: u }),
                Err(e) => Err(SrsClientError::IncorrectBaseUrl(e)),
            },
            Err(e) => Err(SrsClientError::IncorrectBaseUrl(e)),
        }
    }

    /// URL of the API call at `path`.
    pub fn api_url(&self, path: &str) -> (r: Result<String, SrsClientError>)
        ensures
            match joined_url(self.base_url@, path@) {
                Some(u) => r matches Ok(s) && s@ == u,
                None => r matches Err(SrsClientError::IncorrectApiUrl(_)),
            },
    {
        match join_url(self.base_url.as_str(), path) {
            Ok(u) => Ok(u),
            Err(e) => Err(SrsClientError::IncorrectApiUrl(e)),
        }
    }

    /// Request that kicks off the client `id`.
    pub fn kickoff_client(id: &str) -> (r: (Method, String))
        ensures
            r.0 == Method::Delete,
            r.1@ == "clients/"@ + id@ + "/"@,
    {
        (Method::Delete, join3("clients/", id, "/"))
    }

    /// Request that retrieves the server version.
    pub fn get_version() -> (r: (Method, String))
        ensures
            r.0 == Method::Get,
            r.1@ == "versions"@,
    {
        (Method::Get, String::from_str("versions"))
    }

    /// Request that retrieves the virtual hosts.
    pub fn get_vhosts() -> (r: (Method, String))
        ensures
            r.0 == Method::Get,
            r.1@ == "vhosts"@,
    {
        (Method::Get, String::from_str("vhosts"))
    }

    /// Request that retrieves the streams.
    pub fn get_streams() -> (r: (Method, String))
        ensures
            r.0 == Method::Get,
            r.1@ == "streams"@,
    {
        (Method::Get, String::from_str("streams"))
    }

    /// Request that retrieves the clients.
    pub fn get_clients() -> (r: (Method, String))
        ensures
            r.0 == Method::Get,
            r.1@ == "clients"@,
    {
        (Method::Get, String::from_str("clients"))
    }

    /// Request that retrieves the supported features.
    pub fn get_features() -> (r: (Method, String))
        ensures
            r.0 == Method::Get,
            r.1@ == "features"@,
    {
        (Method::Get, String::from_str("features"))
    }

    /// Request that retrieves the resource usage.
    pub fn get_rusages() -> (r: (Method, String))
        ensures
            r.0 == Method::Get,
            r.1@ == "rusages"@,
    {
        (Method::Get, String::from_str("rusages"))
    }

    /// Request that retrieves the statistics of the server process.
    pub fn get_self_proc_stats() -> (r: (Method, String))
        ensures
            r.0 == Method::Get,
            r.1@ == "self_proc_stats"@,
    {
        (Method::Get, String::from_str("self_proc_stats"))
    }

    /// Request that retrieves the statistics of the system.
    pub fn get_system_proc_stats() -> (r: (Method, String))
        ensures
            r.0 == Method::Get,
            r.1@ == "system_proc_stats"@,
    {
        (Method::Get, String::from_str("system_proc_stats"))
    }

    /// Request that retrieves the memory information of the system.
    pub fn get_meminfos() -> (r: (Method, String))
        ensures
            r.0 == Method::Get,
            r.1@ == "meminfos"@,
    {
        (Method::Get, String::from_str("meminfos"))
    }
}

/// Bitrates of a stream, in kbit/s over 30 seconds.
#[derive(Clone, Copy, Debug, PartialEq, Eq, Structural)]
pub struct Kbps {
    /// Received.
    pub recv_30s: i64,
    /// Sent.
    pub send_30s: i64,
}

/// HLS settings of a virtual host.
#[derive(Clone, Copy, Debug, PartialEq, Eq, Structural)]
pub struct Hls {
    /// Whether HLS is enabled.
    pub enabled: bool,
}

/// Publishing state of a stream.
#[derive(Clone, Copy, Debug, PartialEq, Eq, Structural)]
pub struct Publish {
    /// Whether the stream is published.
    pub active: bool,
}

/// Version of the SRS server.
#[derive(Debug)]
pub struct Version {
    /// Major version.
    pub major: i64,
    /// Minor version.
    pub minor: i64,
    /// Revision.
    pub revision: i64,
    /// Full version text.
    pub version: String,
}

/// Features of the SRS server.
#[derive(Clone, Copy, Debug, PartialEq, Eq, Structural)]
pub struct Features {
    /// SSL.
    pub ssl: bool,
    /// HLS.
    pub hls: bool,
    /// HDS.
    pub hds: bool,
    /// HTTP callbacks.
    pub callback: bool,
    /// HTTP API.
    pub api: bool,
    /// HTTP server.
    pub httpd: bool,
    /// DVR.
    pub dvr: bool,
    /// Transcoding.
    pub transcode: bool,
    /// Ingesting.
    pub ingest: bool,
    /// Statistics.
    pub stat: bool,
    /// Stream caster.
    pub caster: bool,
    /// Complex send.
    pub complex_send: bool,
    /// TCP_NODELAY.
    pub tcp_nodelay: bool,
    /// SO_SNDBUF.
    pub so_sendbuf: bool,
    /// Merged read.
    pub mr: bool,
}

/// Build options and features of the SRS server.
#[derive(Debug)]
pub struct FeaturesData {
    /// Build options.
    pub options: String,
    /// More build options.
    pub options2: String,
    /// Build.
    pub build: String,
    /// More build information.
    pub build2: String,
    /// Features.
    pub features: Features,
}

/// A stream of the SRS server.
#[derive(Debug)]
pub struct Stream {
    /// ID.
    pub id: String,
    /// Name.
    pub name: String,
    /// Virtual host.
    pub vhost: String,
    /// App.
    pub app: String,
    /// RTMP `tcUrl`.
    pub tc_url: String,
    /// URL.
    pub url: String,
    /// Milliseconds live.
    pub live_ms: i64,
    /// Number of clients.
    pub clients: i64,
    /// Number of frames.
    pub frames: i64,
    /// Bytes sent.
    pub send_bytes: i64,
    /// Bytes received.
    pub recv_bytes: i64,
    /// Bitrates.
    pub kbps: Kbps,
    /// Publishing state.
    pub publish: Publish,
    /// Video information, if any.
    pub video: Option<()>,
    /// Audio information, if any.
    pub audio: Option<()>,
}

/// Test URLs of the SRS API summary.
#[derive(Debug)]
pub struct Tests {
    /// Requests.
    pub requests: String,
    /// Errors.
    pub errors: String,
    /// Redirects.
    pub redirects: String,
    /// Virtual host.
    pub _vhost: String,
}

/// URLs of the SRS API summary.
#[derive(Debug)]
pub struct Urls {
    /// Versions.
    pub versions: String,
    /// Summaries.
    pub summaries: String,
    /// Resource usage.
    pub rusages: String,
    /// Statistics of the server process.
    pub self_proc_stats: String,
    /// Statistics of the system.
    pub system_proc_stats: String,
    /// Memory information.
    pub meminfos: String,
    /// Authors.
    pub authors: String,
    /// Features.
    pub features: String,
    /// Requests.
    pub requests: String,
    /// Virtual hosts.
    pub vhosts: String,
    /// Streams.
    pub streams: String,
    /// Clients.
    pub clients: String,
    /// Raw.
    pub raw: String,
    /// Clusters.
    pub clusters: String,
    /// Performance.
    pub perf: String,
    /// Memory allocator.
    pub tcmalloc: String,
}

/// A virtual host of the SRS server.
#[derive(Debug)]
pub struct Vhost {
    /// ID.
    pub id: String,
    /// Name.
    pub name: String,
    /// Whether it is enabled.
    pub enabled: bool,
    /// Number of clients.
    pub clients: i64,
    /// Number of streams.
    pub streams: i64,
    /// Bytes sent.
    pub send_bytes: i64,
    /// Bytes received.
    pub recv_bytes: i64,
    /// Bitrates.
    pub kbps: Kbps,
    /// HLS settings.
    pub hls: Hls,
}

} // verus!
