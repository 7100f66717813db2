//! Requests to the Google Drive API V3: their URLs, and how their replies are
//! turned into results.

use vstd::prelude::*;

use crate::file_manager::{FileId, FileState, LocalFileInfo, LocalFileView, PlaylistFileInfo, PlaylistFileView};
use crate::text::{decimal, join2, join4, starts_with, u64_to_decimal};

verus! {

/// Query parameters that give access to files of shared drives.
pub open spec fn public_params() -> Seq<char> {
    "supportsAllDrives=True&supportsTeamDrives=True&includeItemsFromAllDrives=True&includeTeamDriveItems=True"@
}

/// Query parameters that give access to files of shared drives.
pub fn gdrive_public_params() -> (s: &'static str)
    ensures
        s@ == public_params(),
{
    "supportsAllDrives=True&supportsTeamDrives=True&includeItemsFromAllDrives=True&includeTeamDriveItems=True"
}

/// Name of a file, as the API describes it.
#[derive(Debug)]
pub struct FileNameResponse {
    /// Name of the file.
    pub name: String,
}

/// A file, as the API describes it.
#[derive(Debug)]
pub struct ExtendedFileInfoResponse {
    /// ID of the file.
    pub id: String,
    /// Name of the file.
    pub name: String,
    /// MIME type of the file.
    pub mime_type: String,
}

/// MIME type of a Google Drive folder.
pub open spec fn folder_mime() -> Seq<char> {
    "application/vnd.google-apps.folder"@
}

/// Whether a MIME type is that of a video.
pub open spec fn is_video_mime(mime: Seq<char>) -> bool {
    mime.len() >= 5 && mime.subrange(0, 5) == "video"@
}

impl ExtendedFileInfoResponse {
    /// Whether this file is a folder.
    pub fn is_dir(&self) -> (r: bool)
        ensures
            r == (self.mime_type@ == folder_mime()),
    {
        let folder = String::from_str("application/vnd.google-apps.folder");
        self.mime_type == folder
    }

    /// Whether this file is a video.
    pub fn is_video(&self) -> (r: bool)
        ensures
            r == is_video_mime(self.mime_type@),
    {
        proof {
            reveal_strlit("video");
        }
        starts_with(self.mime_type.as_str(), "video")
    }
}

/// Files of a folder, as the API lists them.
#[derive(Debug)]
pub struct FileListResponse {
    /// Files of the folder.
    pub files: Vec<ExtendedFileInfoResponse>,
}

impl FileListResponse {
    /// Keeps only the video files, in their order.
    pub fn filter_only_video_files(&mut self)
        ensures
            final(self).files@ == old(self).files@.filter(|f: ExtendedFileInfoResponse| is_video_mime(f.mime_type@)),
    {
        let ghost orig = self.files@;
        let ghost pred = |f: ExtendedFileInfoResponse| is_video_mime(f.mime_type@);
        let mut rest: Vec<ExtendedFileInfoResponse> = Vec::new();
        std::mem::swap(&mut self.files, &mut rest);
        let n = rest.len();
        let mut k: usize = 0;
        while rest.len() > 0
            invariant
                k + rest.len() == n,
                n == orig.len(),
                rest@ == orig.skip(k as int),
                self.files@ == orig.take(k as int).filter(pred),
                pred == (|f: ExtendedFileInfoResponse| is_video_mime(f.mime_type@)),
            decreases rest.len(),
        {
            let f = rest.remove(0);
            assert(rest@ =~= orig.skip(k + 1));
            assert(orig[k as int] == f) by {
                assert(orig.skip(k as int)[0] == orig[k as int]);
            }
            assert(orig.take(k + 1) =~= orig.take(k as int).push(f));
            proof {
                orig.take(k as int).lemma_filter_push(f, pred);
            }
            if f.is_video() {
                self.files.push(f);
            }
            k = k + 1;
        }
        assert(orig.take(n as int) =~= orig);
    }
}

/// A playlist entry for a listed file: not played yet.
pub fn playlist_file_from(file: ExtendedFileInfoResponse) -> (p: PlaylistFileInfo)
    ensures
        p@ == (PlaylistFileView { file_id: file.id@, name: file.name@, was_played: false }),
{
    PlaylistFileInfo { file_id: FileId(file.id), name: file.name, was_played: false }
}

/// A known file for a listed file: its download is pending.
pub fn local_file_from(file: ExtendedFileInfoResponse) -> (f: LocalFileInfo)
    ensures
        f@ == (LocalFileView {
            file_id: file.id@,
            name: Some(file.name@),
            state: FileState::Pending,
            error: None,
            download_state: None,
        }),
{
    LocalFileInfo {
        file_id: FileId(file.id),
        name: Some(file.name),
        state: FileState::Pending,
        download_state: None,
        error: None,
    }
}

/// The playlist entry of a listed file.
pub open spec fn listed_entry(f: ExtendedFileInfoResponse) -> PlaylistFileView {
    PlaylistFileView { file_id: f.id@, name: f.name@, was_played: false }
}

/// Turns the listing of a folder into a playlist: the video files, in their
/// order, none played yet.
pub fn video_playlist(listing: FileListResponse) -> (r: Vec<PlaylistFileInfo>)
    ensures
        r@.map_values(|p: PlaylistFileInfo| p@) == listing.files@.filter(
            |f: ExtendedFileInfoResponse| is_video_mime(f.mime_type@),
        ).map_values(|f: ExtendedFileInfoResponse| listed_entry(f)),
{
    let mut listing = listing;
    listing.filter_only_video_files();
    let ghost videos = listing.files@;
    let mut rest: Vec<ExtendedFileInfoResponse> = Vec::new();
    std::mem::swap(&mut listing.files, &mut rest);
    let n = rest.len();
    let mut out: Vec<PlaylistFileInfo> = Vec::new();
    let mut k: usize = 0;
    while rest.len() > 0
        invariant
            k + rest.len() == n,
            n == videos.len(),
            rest@ == videos.skip(k as int),
            out@.map_values(|p: PlaylistFileInfo| p@) == videos.take(k as int).map_values(
                |f: ExtendedFileInfoResponse| listed_entry(f),
            ),
        decreases rest.len(),
    {
        let f = rest.remove(0);
        assert(rest@ =~= videos.skip(k + 1));
        assert(videos[k as int] == f) by {
            assert(videos.skip(k as int)[0] == videos[k as int]);
        }
        let ghost prev = out@.map_values(|p: PlaylistFileInfo| p@);
        let ghost entry = listed_entry(f);
        assert(videos.take(k + 1) =~= videos.take(k as int).push(f));
        out.push(playlist_file_from(f));
        assert(out@.map_values(|p: PlaylistFileInfo| p@) =~= prev.push(entry));
        assert(out@.map_values(|p: PlaylistFileInfo| p@) =~= videos.take(k + 1).map_values(
            |f: ExtendedFileInfoResponse| listed_entry(f),
        ));
        k = k + 1;
    }
    assert(videos.take(n as int) =~= videos);
    out
}

/// URL listing the files of the folder `dir_id`.
pub open spec fn dir_content_url(api_key: Seq<char>, dir_id: Seq<char>) -> Seq<char> {
    "https://www.googleapis.com/drive/v3/files?key="@ + api_key + "&q='"@ + dir_id
        + "'%20in%20parents&fields=files/id,files/name,files/mimeType&"@ + public_params()
}

/// URL describing the file `file_id`.
pub open spec fn file_info_url(api_key: Seq<char>, file_id: Seq<char>) -> Seq<char> {
    "https://www.googleapis.com/drive/v3/files/"@ + file_id + "?\n                fields=name&key="@ + api_key
        + "&"@ + public_params()
}

/// URL of the contents of the file `file_id`.
pub open spec fn file_media_url(api_key: Seq<char>, file_id: Seq<char>) -> Seq<char> {
    "https://www.googleapis.com/drive/v3/files/"@ + file_id + "?alt=media&key="@ + api_key + "&"@
        + public_params()
}

/// Google Drive API wrapper.
#[derive(Debug)]
pub struct GoogleDriveApi {
    /// Google API key.
    pub api_key: String,
}

impl GoogleDriveApi {
    /// Creates a wrapper for the given API key.
    pub fn new(api_key: &str) -> (r: GoogleDriveApi)
        ensures
            r.api_key@ == api_key@,
    {
        GoogleDriveApi { api_key: String::from_str(api_key) }
    }

    /// URL listing the files of the folder `dir_id`.
    pub fn dir_content_url(&self, dir_id: &str) -> (u: String)
        ensures
            u@ == dir_content_url(self.api_key@, dir_id@),
    {
        let mut u = join4("https://www.googleapis.com/drive/v3/files?key=", self.api_key.as_str(), "&q='", dir_id);
        u.append("'%20in%20parents&fields=files/id,files/name,files/mimeType&");
        u.append(gdrive_public_params());
        u
    }

    /// URL describing the file `file_id`.
    pub fn file_info_url(&self, file_id: &FileId) -> (u: String)
        ensures
            u@ == file_info_url(self.api_key@, file_id@),
    {
        let mut u = join4(
            "https://www.googleapis.com/drive/v3/files/",
            file_id.0.as_str(),
            "?\n                fields=name&key=",
            self.api_key.as_str(),
        );
        u.append("&");
        u.append(gdrive_public_params());
        u
    }

    /// URL of the contents of the file `file_id`.
    pub fn file_media_url(&self, file_id: &FileId) -> (u: String)
        ensures
            u@ == file_media_url(self.api_key@, file_id@),
    {
        let mut u = join4(
            "https://www.googleapis.com/drive/v3/files/",
            file_id.0.as_str(),
            "?alt=media&key=",
            self.api_key.as_str(),
        );
        u.append("&");
        u.append(gdrive_public_params());
        u
    }
}

/// Error body of the API.
#[derive(Debug)]
pub struct ErrorMessage {
    /// Error code.
    pub code: u16,
    /// Error message.
    pub message: String,
}

/// How a reply of the API is read on, given its HTTP status.
#[derive(Clone, Copy, Debug, PartialEq, Eq, Structural)]
pub enum ReplyKind {
    /// The body is the expected JSON value.
    Json,
    /// The body is an API error.
    ApiError,
    /// The body is a text describing the failure.
    Text,
}

/// How a reply with the given status is read on: 200 carries the value, 403
/// (and 404 where `not_found_is_api_error`) carries an API error, anything
/// else carries a text.
pub fn reply_kind(status: u16, not_found_is_api_error: bool) -> (k: ReplyKind)
    ensures
        k == if status == 200 {
            ReplyKind::Json
        } else if status == 403 || (not_found_is_api_error && status == 404) {
            ReplyKind::ApiError
        } else {
            ReplyKind::Text
        },
{
    if status == 200 {
        ReplyKind::Json
    } else if status == 403 || (not_found_is_api_error && status == 404) {
        ReplyKind::ApiError
    } else {
        ReplyKind::Text
    }
}

/// What came of a request to the API, once its body was read as its status
/// asks; errors are rendered as their texts.
#[derive(Debug)]
pub enum Reply<T> {
    /// No reply came.
    NoResponse(String),
    /// A value was expected: it, or the decoding error.
    Json(Result<T, String>),
    /// An API error was expected: it, or the decoding error.
    ApiError(Result<ErrorMessage, String>),
    /// A text was expected: it, or the reading error.
    Text(Result<String, String>),
}

/// Result of a request to the API, as a spec.
pub open spec fn reply_result<T>(reply: Reply<T>) -> Result<T, Seq<char>> {
    match reply {
        Reply::NoResponse(e) => Err("No valid response from the API: "@ + e@),
        Reply::Json(Ok(v)) => Ok(v),
        Reply::Json(Err(e)) => Err("Error parsing JSON result: "@ + e@),
        Reply::ApiError(Ok(m)) => Err("Http response: "@ + decimal(m.code as nat) + " "@ + m.message@),
        Reply::ApiError(Err(e)) => Err("Error parsing JSON result: "@ + e@),
        Reply::Text(Ok(t)) => Err(t@),
        Reply::Text(Err(e)) => Err("Unknown error: "@ + e@),
    }
}

/// Turns what came of a request to the API into its result.
pub fn get_result<T>(reply: Reply<T>) -> (r: Result<T, String>)
    ensures
        match (r, reply_result(reply)) {
            (Ok(v), Ok(w)) => v == w,
            (Err(e), Err(f)) => e@ == f,
            _ => false,
        },
{
    match reply {
        Reply::NoResponse(e) => Err(join2("No valid response from the API: ", e.as_str())),
        Reply::Json(Ok(v)) => Ok(v),
        Reply::Json(Err(e)) => Err(join2("Error parsing JSON result: ", e.as_str())),
        Reply::ApiError(Ok(m)) => {
            let code = u64_to_decimal(m.code as u64);
            Err(join4("Http response: ", code.as_str(), " ", m.message.as_str()))
        },
        Reply::ApiError(Err(e)) => Err(join2("Error parsing JSON result: ", e.as_str())),
        Reply::Text(Ok(t)) => Err(t),
        Reply::Text(Err(e)) => Err(join2("Unknown error: ", e.as_str())),
    }
}

} // verus!
