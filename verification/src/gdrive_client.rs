//! Client of the Google Drive API V3 shared by the components: the URLs of
//! its requests and how their replies are read.

use vstd::prelude::*;

use crate::google_drive_api::{gdrive_public_params, public_params};
use crate::text::{decimal, join2, join4, u64_to_decimal};

verus! {

/// Error body of the API: a code and a message.
#[derive(Debug)]
pub struct ApiErrorMessage {
    /// Error code.
    pub code: u16,
    /// Error message.
    pub message: String,
}

impl ApiErrorMessage {
    /// Text of the error: `ErrorMessage({code}, {message})`.
    pub fn describe(&self) -> (s: String)
        ensures
            s@ == "ErrorMessage("@ + decimal(self.code as nat) + ", "@ + self.message@ + ")"@,
    {
        let code = u64_to_decimal(self.code as u64);
        let mut s = join4("ErrorMessage(", code.as_str(), ", ", self.message.as_str());
        s.append(")");
        s
    }
}

/// Errors of requests to the API; failures of the HTTP client are rendered
/// as their texts.
#[derive(Debug)]
pub enum GdriveError {
    /// The HTTP request failed itself.
    RequestFailed(String),
    /// The API answered with a bad HTTP status.
    BadStatus(u16),
    /// The answer could not be decoded.
    BadBody(String),
    /// The API answered with an error body.
    ApiError(ApiErrorMessage),
}

/// Whether a reply with the HTTP status `status` may carry an error body:
/// 400 and 401 do.
pub open spec fn carries_api_error(status: u16) -> bool {
    status == 400 || status == 401
}

/// Reads the status of a reply: a success lets its body be read; 400 and
/// 401 are the API error of the body, where it could be decoded as one
/// (`api_error`); any other status, or an undecodable error body, is a bad
/// status.
pub fn check_reply(status: u16, api_error: Option<ApiErrorMessage>) -> (r: Result<(), GdriveError>)
    ensures
        200 <= status < 300 ==> r is Ok,
        !(200 <= status < 300) ==> match api_error {
            Some(e) if carries_api_error(status) => r == Err::<(), GdriveError>(GdriveError::ApiError(e)),
            _ => r == Err::<(), GdriveError>(GdriveError::BadStatus(status)),
        },
{
    if 200 <= status && status < 300 {
        return Ok(());
    }
    if status == 400 || status == 401 {
        match api_error {
            Some(e) => {
                return Err(GdriveError::ApiError(e));
            },
            None => {},
        }
    }
    Err(GdriveError::BadStatus(status))
}

/// Serialization of the URL `url` with its query set to `query`, if `url`
/// parses.
pub uninterp spec fn with_query(url: Seq<char>, query: Seq<char>) -> Option<Seq<char>>;

/// Sets the query of the URL `url` to `query` with `url::Url::set_query`,
/// after parsing it with `Url::parse`, giving the serialization; nothing
/// where it does not parse. How the query is encoded is left to the `url`
/// crate.
#[verifier::external_body]
fn set_url_query(url: &str, query: &str) -> (r: Option<String>)
    ensures
        match r {
            Some(u) => with_query(url@, query@) == Some(u@),
            None => with_query(url@, query@) is None,
        },
{
    url::Url::parse(url).ok().map(|mut u| {
        u.set_query(Some(query));
        u.as_str().to_string()
    })
}

/// Serialization of the URL `url` with the path segment `segment` added,
/// if `url` parses and can have segments.
pub uninterp spec fn with_segment(url: Seq<char>, segment: Seq<char>) -> Option<Seq<char>>;

/// Adds the path segment `segment` to the URL `url` with
/// `url::Url::path_segments_mut` and `push`, after parsing it with
/// `Url::parse`, giving the serialization; nothing where it does not parse
/// or cannot have segments. How the segment is encoded is left to the `url`
/// crate.
#[verifier::external_body]
fn push_url_segment(url: &str, segment: &str) -> (r: Option<String>)
    ensures
        match r {
            Some(u) => with_segment(url@, segment@) == Some(u@),
            None => with_segment(url@, segment@) is None,
        },
{
    let mut u = url::Url::parse(url).ok()?;
    u.path_segments_mut().ok()?.push(segment);
    Some(u.as_str().to_string())
}

/// Base URL of the files resource of the API.
pub open spec fn files_base() -> Seq<char> {
    "https://www.googleapis.com/drive/v3/files"@
}

/// Client of the API, with a key.
#[derive(Debug)]
pub struct GoogleDriveApi {
    /// Google API key.
    pub api_key: String,
}

/// Requests on files.
#[derive(Debug)]
pub struct Files {
    /// Serialized URL of the files resource, with the key and the
    /// parameters giving access to shared drives in its query.
    pub api_url: String,
}

impl GoogleDriveApi {
    /// A client with the key `api_key`.
    pub fn new(api_key: &str) -> (r: GoogleDriveApi)
        ensures
            r.api_key@ == api_key@,
    {
        GoogleDriveApi { api_key: String::from_str(api_key) }
    }

    /// Requests on files: the files resource, its query set to the key and
    /// the parameters giving access to shared drives; nothing where the
    /// `url` crate refuses that URL.
    pub fn files(&self) -> (f: Option<Files>)
        ensures
            match with_query(files_base(), "key="@ + self.api_key@ + "&"@ + public_params()) {
                Some(u) => f matches Some(files) && files.api_url@ == u,
                None => f is None,
            },
    {
        let mut query = join2("key=", self.api_key.as_str());
        query.append("&");
        query.append(gdrive_public_params());
        match set_url_query("https://www.googleapis.com/drive/v3/files", query.as_str()) {
            Some(u) => Some(Files { api_url: u }),
            None => None,
        }
    }
}

impl Files {
    /// URL describing the file `file_id`: its segment added to the files
    /// resource, then the fields asked for.
    pub fn file_info_url(&self, file_id: &str) -> (u: Option<String>)
        ensures
            match with_segment(self.api_url@, file_id@) {
                Some(s) => u matches Some(t) && t@ == s + "&fields=id,name,mimeType"@,
                None => u is None,
            },
    {
        match push_url_segment(self.api_url.as_str(), file_id) {
            Some(s) => Some(join2(s.as_str(), "&fields=id,name,mimeType")),
            None => None,
        }
    }

    /// URL listing the contents of the folder `dir_id`.
    pub fn dir_content_url(&self, dir_id: &str) -> (u: String)
        ensures
            u@ == self.api_url@ + "&q='"@ + dir_id@ + "'%20in%20parents"@ + "&fields=files/id,files/name,files/mimeType"@,
    {
        let mut u = join4(self.api_url.as_str(), "&q='", dir_id, "'%20in%20parents");
        u.append("&fields=files/id,files/name,files/mimeType");
        u
    }

    /// URL of the contents of the file `file_id`.
    pub fn file_response_url(&self, file_id: &str) -> (u: Option<String>)
        ensures
            match with_segment(self.api_url@, file_id@) {
                Some(s) => u matches Some(t) && t@ == s + "&alt=media"@,
                None => u is None,
            },
    {
        match push_url_segment(self.api_url.as_str(), file_id) {
            Some(s) => Some(join2(s.as_str(), "&alt=media")),
            None => None,
        }
    }
}

} // verus!
