//! Specifications of re-streams, inputs and outputs: what the API asks the
//! state to create or to update.

use vstd::prelude::*;

use crate::file_manager::FileId;
use crate::state::{Id, InputEndpointKind, Volume};

verus! {

/// Specification of an input endpoint.
#[derive(Debug)]
pub struct InputEndpointSpec {
    /// Kind of the endpoint.
    pub kind: InputEndpointKind,
    /// Optional label.
    pub label: Option<String>,
    /// Google Drive file played by a `File` endpoint.
    pub file_id: Option<FileId>,
}

/// Specification of a backup input of a failover source.
#[derive(Debug)]
pub struct FailoverInputSpec {
    /// Identifier of the input, if it is to keep a given one.
    pub id: Option<Id>,
    /// Key of the input.
    pub key: String,
    /// Endpoints of the input.
    pub endpoints: Vec<InputEndpointSpec>,
    /// URL to pull a live stream from, if any.
    pub src: Option<String>,
    /// Whether the input is enabled.
    pub enabled: bool,
}

/// Specification of the source of a main input.
#[derive(Debug)]
pub enum InputSrcSpec {
    /// A live stream is pulled from the given URL.
    RemoteUrl(String),
    /// A live stream is taken from the first healthy of the given inputs.
    FailoverInputs(Vec<FailoverInputSpec>),
}

/// Specification of a main input.
#[derive(Debug)]
pub struct InputSpec {
    /// ID of the input, if it is known.
    pub id: Option<Id>,
    /// Key of the input.
    pub key: String,
    /// Endpoints of the input.
    pub endpoints: Vec<InputEndpointSpec>,
    /// Source of the input, if any.
    pub src: Option<InputSrcSpec>,
    /// Whether the input is enabled.
    pub enabled: bool,
}

/// Specification of a mixin.
#[derive(Debug)]
pub struct MixinSpec {
    /// URL of the mixed live stream.
    pub src: String,
    /// Volume of the mixed live stream.
    pub volume: Volume,
    /// Delay in milliseconds before mixing.
    pub delay: u32,
    /// Whether sidechain compression is applied.
    pub sidechain: bool,
}

/// Specification of an output.
#[derive(Debug)]
pub struct OutputSpec {
    /// ID of the output, if it is known.
    pub id: Option<Id>,
    /// Destination URL.
    pub dst: String,
    /// Optional label.
    pub label: Option<String>,
    /// Optional URL to preview the destination.
    pub preview_url: Option<String>,
    /// Volume of the original audio track.
    pub volume: Volume,
    /// Live streams mixed in.
    pub mixins: Vec<MixinSpec>,
    /// Whether the output is enabled.
    pub enabled: bool,
}

/// Specification of a re-stream.
#[derive(Debug)]
pub struct RestreamSpec {
    /// ID of the re-stream, if it is known.
    pub id: Option<Id>,
    /// Unique key of the re-stream.
    pub key: String,
    /// Optional label.
    pub label: Option<String>,
    /// Main input.
    pub input: InputSpec,
    /// Outputs.
    pub outputs: Vec<OutputSpec>,
    /// Override of the maximum number of files in the playlist.
    pub max_files_in_playlist: Option<u16>,
}

/// A backup input asked for by the API: its key, and the URL to pull from,
/// if any.
#[derive(Debug)]
pub struct BackupInput {
    /// Key of the backup input.
    pub key: String,
    /// URL to pull a live stream from, if any.
    pub src: Option<String>,
}

/// Specification of the settings of a server.
#[derive(Debug)]
pub struct SettingsSpec {
    /// Hash of the password protecting the API.
    pub password_hash: Option<String>,
    /// Hash of the password protecting single-output pages.
    pub password_output_hash: Option<String>,
    /// Title of the server.
    pub title: Option<String>,
    /// Whether deletions need a confirmation.
    pub delete_confirmation: Option<bool>,
    /// Whether enabling and disabling need a confirmation.
    pub enable_confirmation: Option<bool>,
    /// Google API key for Google Drive access.
    pub google_api_key: Option<String>,
    /// Maximum number of files in a playlist.
    pub max_files_in_playlist: Option<u16>,
}

/// Specification of a whole server: its settings, where given, and its
/// re-streams.
#[derive(Debug)]
pub struct Spec {
    /// Settings of the server, if any.
    pub settings: Option<SettingsSpec>,
    /// Re-streams of the server.
    pub restreams: Vec<RestreamSpec>,
}

} // verus!
