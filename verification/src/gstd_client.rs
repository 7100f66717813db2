//! Client of the HTTP API of the GStreamer Daemon: the requests it performs
//! on pipelines and on the debug mode, and how it reads the answers.

use vstd::prelude::*;

use crate::gstd_api::Response;
use crate::srs_client::{is_success, Method};
use crate::text::{i64_to_decimal, join2, join3, signed_decimal};
use crate::url_util::{join_url, joined_url, parse_url, parsed_url};

verus! {

/// Errors of requests to the GStreamer Daemon; failures of the HTTP client
/// and of the URL parser are rendered as their texts.
#[derive(Debug)]
pub enum GstError {
    /// The HTTP request failed itself.
    RequestFailed(String),
    /// The API answered with a bad HTTP status.
    BadStatus(u16),
    /// The answer could not be decoded.
    BadBody(String),
    /// The base URL is not a valid URL.
    IncorrectBaseUrl(String),
    /// The URL of an API call is not valid.
    IncorrectApiUrl(String),
}

/// A request to perform: its HTTP method and its absolute URL.
#[derive(Debug)]
pub struct GstRequest {
    /// HTTP method.
    pub method: Method,
    /// Absolute URL.
    pub url: String,
}

/// Client of the GStreamer Daemon API.
#[derive(Clone, Debug)]
pub struct GstClient {
    /// Serialized base URL of the API.
    pub base_url: String,
}

/// Requests on one pipeline.
#[derive(Clone, Debug)]
pub struct GstPipeline {
    /// Name of the pipeline.
    pub name: String,
    /// Client that performs the requests.
    pub gst_client: GstClient,
}

/// Requests on the debug mode.
#[derive(Clone, Debug)]
pub struct GstDebug {
    /// Client that performs the requests.
    pub gst_client: GstClient,
}

/// `r` is the request `method` on `path`, resolved against `base`, or the
/// error of a path that does not resolve.
pub open spec fn requested(
    base: Seq<char>,
    method: Method,
    path: Seq<char>,
    r: Result<GstRequest, GstError>,
) -> bool {
    match joined_url(base, path) {
        Some(u) => r matches Ok(q) && q.method == method && q.url@ == u,
        None => r matches Err(GstError::IncorrectApiUrl(_)),
    }
}

/// Text of a boolean query value.
pub open spec fn bool_text(b: bool) -> Seq<char> {
    if b {
        "true"@
    } else {
        "false"@
    }
}

fn bool_str(b: bool) -> (s: &'static str)
    ensures
        s@ == bool_text(b),
{
    if b {
        "true"
    } else {
        "false"
    }
}

/// Reads an answer: a success status gives its decoded body, or the
/// decoding error; any other status is an error of its own.
pub fn process_resp(status: u16, body: Result<Response, String>) -> (r: Result<Response, GstError>)
    ensures
        !is_success(status) ==> r == Err::<Response, GstError>(GstError::BadStatus(status)),
        is_success(status) ==> match body {
            Ok(b) => r == Ok::<Response, GstError>(b),
            Err(e) => r == Err::<Response, GstError>(GstError::BadBody(e)),
        },
{
    if !(200 <= status && status < 300) {
        return Err(GstError::BadStatus(status));
    }
    match body {
        Ok(b) => Ok(b),
        Err(e) => Err(GstError::BadBody(e)),
    }
}

impl GstClient {
    /// Builds a client of the API at `base_url`.
    pub fn build(base_url: &str) -> (r: Result<GstClient, GstError>)
        ensures
            match parsed_url(base_url@) {
                Some(u) => r matches Ok(c) && c.base_url@ == u,
                None => r matches Err(GstError::IncorrectBaseUrl(_)),
            },
    {
        match parse_url(base_url) {
            Ok(u) => Ok(GstClient { base_url: u }),
            Err(e) => Err(GstError::IncorrectBaseUrl(e)),
        }
    }

    /// The request `method` on `path`.
    pub fn request(&self, method: Method, path: &str) -> (r: Result<GstRequest, GstError>)
        ensures
            requested(self.base_url@, method, path@, r),
    {
        match join_url(self.base_url.as_str(), path) {
            Ok(u) => Ok(GstRequest { method, url: u }),
            Err(e) => Err(GstError::IncorrectApiUrl(e)),
        }
    }

    /// `GET pipelines`.
    pub fn pipelines(&self) -> (r: Result<GstRequest, GstError>)
        ensures
            requested(self.base_url@, Method::Get, "pipelines"@, r),
    {
        self.request(Method::Get, "pipelines")
    }

    /// Requests on the pipeline `name`.
    pub fn pipeline(&self, name: &str) -> (p: GstPipeline)
        ensures
            p.name@ == name@,
            p.gst_client.base_url@ == self.base_url@,
    {
        GstPipeline { name: String::from_str(name), gst_client: GstClient { base_url: self.base_url.clone() } }
    }

    /// Requests on the debug mode.
    pub fn debug(&self) -> (d: GstDebug)
        ensures
            d.gst_client.base_url@ == self.base_url@,
    {
        GstDebug { gst_client: GstClient { base_url: self.base_url.clone() } }
    }
}

/// Path of the resource `rest` of the pipeline `name`.
pub open spec fn pipeline_path(name: Seq<char>, rest: Seq<char>) -> Seq<char> {
    "pipelines/"@ + name + rest
}

impl GstPipeline {
    /// Path of the resource `rest` of this pipeline.
    fn path(&self, rest: &str) -> (p: String)
        ensures
            p@ == pipeline_path(self.name@, rest@),
    {
        join3("pipelines/", self.name.as_str(), rest)
    }

    /// The request `method` on the resource `rest` of this pipeline.
    fn on(&self, method: Method, rest: &str) -> (r: Result<GstRequest, GstError>)
        ensures
            requested(self.gst_client.base_url@, method, pipeline_path(self.name@, rest@), r),
    {
        let p = self.path(rest);
        self.gst_client.request(method, p.as_str())
    }

    /// `GET pipelines/{name}/graph`.
    pub fn graph(&self) -> (r: Result<GstRequest, GstError>)
        ensures
            requested(self.gst_client.base_url@, Method::Get, pipeline_path(self.name@, "/graph"@), r),
    {
        self.on(Method::Get, "/graph")
    }

    /// `GET pipelines/{name}/elements`.
    pub fn elements(&self) -> (r: Result<GstRequest, GstError>)
        ensures
            requested(self.gst_client.base_url@, Method::Get, pipeline_path(self.name@, "/elements"@), r),
    {
        self.on(Method::Get, "/elements")
    }

    /// `GET pipelines/{name}/properties`.
    pub fn properties(&self) -> (r: Result<GstRequest, GstError>)
        ensures
            requested(self.gst_client.base_url@, Method::Get, pipeline_path(self.name@, "/properties"@), r),
    {
        self.on(Method::Get, "/properties")
    }

    /// `GET pipelines/{name}/bus/message`.
    pub fn bus_read(&self) -> (r: Result<GstRequest, GstError>)
        ensures
            requested(self.gst_client.base_url@, Method::Get, pipeline_path(self.name@, "/bus/message"@), r),
    {
        self.on(Method::Get, "/bus/message")
    }

    /// `POST pipelines/{name}/event?name=eos`.
    pub fn event_eos(&self) -> (r: Result<GstRequest, GstError>)
        ensures
            requested(self.gst_client.base_url@, Method::Post, pipeline_path(self.name@, "/event?name=eos"@), r),
    {
        self.on(Method::Post, "/event?name=eos")
    }

    /// `POST pipelines/{name}/event?name=flush_start`.
    pub fn create_event_flush_start(&self) -> (r: Result<GstRequest, GstError>)
        ensures
            requested(self.gst_client.base_url@, Method::Post, pipeline_path(self.name@, "/event?name=flush_start"@), r),
    {
        self.on(Method::Post, "/event?name=flush_start")
    }

    /// `POST pipelines/{name}/event?name=flush_stop`.
    pub fn create_event_flush_stop(&self) -> (r: Result<GstRequest, GstError>)
        ensures
            requested(self.gst_client.base_url@, Method::Post, pipeline_path(self.name@, "/event?name=flush_stop"@), r),
    {
        self.on(Method::Post, "/event?name=flush_stop")
    }

    /// `PUT pipelines/{name}/state?name=playing`.
    pub fn play(&self) -> (r: Result<GstRequest, GstError>)
        ensures
            requested(self.gst_client.base_url@, Method::Put, pipeline_path(self.name@, "/state?name=playing"@), r),
    {
        self.on(Method::Put, "/state?name=playing")
    }

    /// `PUT pipelines/{name}/state?name=paused`.
    pub fn pause(&self) -> (r: Result<GstRequest, GstError>)
        ensures
            requested(self.gst_client.base_url@, Method::Put, pipeline_path(self.name@, "/state?name=paused"@), r),
    {
        self.on(Method::Put, "/state?name=paused")
    }

    /// `PUT pipelines/{name}/state?name=stop`.
    pub fn stop(&self) -> (r: Result<GstRequest, GstError>)
        ensures
            requested(self.gst_client.base_url@, Method::Put, pipeline_path(self.name@, "/state?name=stop"@), r),
    {
        self.on(Method::Put, "/state?name=stop")
    }

    /// `DELETE pipelines/{name}`.
    pub fn delete(&self) -> (r: Result<GstRequest, GstError>)
        ensures
            requested(self.gst_client.base_url@, Method::Delete, pipeline_path(self.name@, ""@), r),
    {
        self.on(Method::Delete, "")
    }

    /// `GET pipelines/{name}/elements/{element}/properties/{property}`.
    pub fn element_property(&self, element: &str, property: &str) -> (r: Result<GstRequest, GstError>)
        ensures
            requested(
                self.gst_client.base_url@,
                Method::Get,
                pipeline_path(self.name@, "/elements/"@ + element@ + "/properties/"@ + property@),
                r,
            ),
    {
        let mut rest = join3("/elements/", element, "/properties/");
        rest.append(property);
        self.on(Method::Get, rest.as_str())
    }

    /// `GET pipelines/{name}/elements/{element}/signals/{signal}/callback`.
    pub fn signal_connect(&self, element: &str, signal: &str) -> (r: Result<GstRequest, GstError>)
        ensures
            requested(
                self.gst_client.base_url@,
                Method::Get,
                pipeline_path(self.name@, "/elements/"@ + element@ + "/signals/"@ + signal@ + "/callback"@),
                r,
            ),
    {
        let mut rest = join3("/elements/", element, "/signals/");
        rest.append(signal);
        rest.append("/callback");
        self.on(Method::Get, rest.as_str())
    }

    /// `GET pipelines/{name}/elements/{element}/signals/{signal}/disconnect`.
    pub fn signal_disconnect(&self, element: &str, signal: &str) -> (r: Result<GstRequest, GstError>)
        ensures
            requested(
                self.gst_client.base_url@,
                Method::Get,
                pipeline_path(self.name@, "/elements/"@ + element@ + "/signals/"@ + signal@ + "/disconnect"@),
                r,
            ),
    {
        let mut rest = join3("/elements/", element, "/signals/");
        rest.append(signal);
        rest.append("/disconnect");
        self.on(Method::Get, rest.as_str())
    }

    /// `POST pipelines?name={name}&description={description}`: creates the
    /// pipeline.
    pub fn pipeline(&self, description: &str) -> (r: Result<GstRequest, GstError>)
        ensures
            requested(
                self.gst_client.base_url@,
                Method::Post,
                "pipelines?name="@ + self.name@ + "&description="@ + description@,
                r,
            ),
    {
        let mut p = join3("pipelines?name=", self.name.as_str(), "&description=");
        p.append(description);
        self.gst_client.request(Method::Post, p.as_str())
    }

    /// `PUT pipelines/{name}/elements/{element}/properties/{property}?name={value}`.
    pub fn set_element(&self, element: &str, property: &str, value: &str) -> (r: Result<GstRequest, GstError>)
        ensures
            requested(
                self.gst_client.base_url@,
                Method::Put,
                pipeline_path(self.name@, "/elements/"@ + element@ + "/properties/"@ + property@ + "?name="@ + value@),
                r,
            ),
    {
        let mut rest = join3("/elements/", element, "/properties/");
        rest.append(property);
        rest.append("?name=");
        rest.append(value);
        self.on(Method::Put, rest.as_str())
    }

    /// `PUT pipelines/{name}/verbose?name={value}`.
    pub fn set_verbose(&self, value: bool) -> (r: Result<GstRequest, GstError>)
        ensures
            requested(
                self.gst_client.base_url@,
                Method::Put,
                pipeline_path(self.name@, "/verbose?name="@ + bool_text(value)),
                r,
            ),
    {
        let rest = join2("/verbose?name=", bool_str(value));
        self.on(Method::Put, rest.as_str())
    }

    /// `PUT pipelines/{name}/bus/timeout?name={time_ns}`.
    pub fn set_bus_timeout(&self, time_ns: i32) -> (r: Result<GstRequest, GstError>)
        ensures
            requested(
                self.gst_client.base_url@,
                Method::Put,
                pipeline_path(self.name@, "/bus/timeout?name="@ + signed_decimal(time_ns as int)),
                r,
            ),
    {
        let t = i64_to_decimal(time_ns as i64);
        let rest = join2("/bus/timeout?name=", t.as_str());
        self.on(Method::Put, rest.as_str())
    }

    /// `PUT pipelines/{name}/bus/types?name={filter}`.
    pub fn set_bus_filter(&self, filter: &str) -> (r: Result<GstRequest, GstError>)
        ensures
            requested(
                self.gst_client.base_url@,
                Method::Put,
                pipeline_path(self.name@, "/bus/types?name="@ + filter@),
                r,
            ),
    {
        let rest = join2("/bus/types?name=", filter);
        self.on(Method::Put, rest.as_str())
    }

    /// `PUT pipelines/{name}/elements/{element}/signals/{signal}/timeout?name={timeout}`.
    pub fn set_signal_timeout(&self, element: &str, signal: &str, timeout: &str) -> (r: Result<GstRequest, GstError>)
        ensures
            requested(
                self.gst_client.base_url@,
                Method::Put,
                pipeline_path(self.name@, "/elements/"@ + element@ + "/signals/"@ + signal@ + "/timeout?name="@ + timeout@),
                r,
            ),
    {
        let mut rest = join3("/elements/", element, "/signals/");
        rest.append(signal);
        rest.append("/timeout?name=");
        rest.append(timeout);
        self.on(Method::Put, rest.as_str())
    }
}

impl GstDebug {
    /// `PUT debug/enable?name=true`.
    pub fn enable(&self) -> (r: Result<GstRequest, GstError>)
        ensures
            requested(self.gst_client.base_url@, Method::Put, "debug/enable?name=true"@, r),
    {
        self.gst_client.request(Method::Put, "debug/enable?name=true")
    }

    /// `PUT debug/enable?name=false`.
    pub fn disable(&self) -> (r: Result<GstRequest, GstError>)
        ensures
            requested(self.gst_client.base_url@, Method::Put, "debug/enable?name=false"@, r),
    {
        self.gst_client.request(Method::Put, "debug/enable?name=false")
    }

    /// `PUT debug/reset?name={value}`.
    pub fn reset(&self, value: bool) -> (r: Result<GstRequest, GstError>)
        ensures
            requested(self.gst_client.base_url@, Method::Put, "debug/reset?name="@ + bool_text(value), r),
    {
        let p = join2("debug/reset?name=", bool_str(value));
        self.gst_client.request(Method::Put, p.as_str())
    }

    /// `PUT debug/threshold?name={value}`.
    pub fn threshold(&self, value: &str) -> (r: Result<GstRequest, GstError>)
        ensures
            requested(self.gst_client.base_url@, Method::Put, "debug/threshold?name="@ + value@, r),
    {
        let p = join2("debug/threshold?name=", value);
        self.gst_client.request(Method::Put, p.as_str())
    }

    /// `PUT debug/color?name=true`.
    pub fn enable_color(&self) -> (r: Result<GstRequest, GstError>)
        ensures
            requested(self.gst_client.base_url@, Method::Put, "debug/color?name=true"@, r),
    {
        self.gst_client.request(Method::Put, "debug/color?name=true")
    }

    /// `PUT debug/color?name=false`.
    pub fn disable_color(&self) -> (r: Result<GstRequest, GstError>)
        ensures
            requested(self.gst_client.base_url@, Method::Put, "debug/color?name=false"@, r),
    {
        self.gst_client.request(Method::Put, "debug/color?name=false")
    }
}

} // verus!
