//! Server state: re-streams, their inputs and outputs, downloaded files,
//! dashboard clients and settings.

use vstd::prelude::*;

use crate::broadcaster::DashboardCommand;
use crate::console_logger::ConsoleMessage;
use crate::file_manager::{FileCommand, FileId, LocalFileInfo, PlaylistFileInfo};

verus! {

/// Status of a re-streaming endpoint, output or client.
#[derive(Clone, Copy, Debug, PartialEq, Eq, Structural)]
pub enum Status {
    /// Nothing is streamed.
    Offline,
    /// The stream is being set up.
    Initializing,
    /// The stream is running.
    Online,
    /// The stream failed recently and was restarted.
    Unstable,
}

/// Identifier of an element of the state (a `Restream`, an `Input`, an
/// endpoint, an `Output`, a `Mixin`, a `Playlist`).
pub type Id = u128;

/// A random identifier, drawn with `uuid::Uuid::new_v4`. Nothing is
/// promised of its value: two draws may even be equal.
#[verifier::external_body]
pub(crate) fn random_id() -> (id: Id) {
    uuid::Uuid::new_v4().as_u128()
}

/// Kind of an input endpoint.
#[derive(Clone, Copy, Debug, PartialEq, Eq, Structural)]
pub enum InputEndpointKind {
    /// RTMP endpoint.
    Rtmp,
    /// HLS endpoint.
    Hls,
    /// Local file endpoint.
    File,
}

/// Endpoint of an `Input` accepting or serving a live stream.
#[derive(Debug)]
pub struct InputEndpoint {
    /// Unique ID of this endpoint.
    pub id: Id,
    /// Kind of this endpoint.
    pub kind: InputEndpointKind,
    /// Current status of this endpoint.
    pub status: Status,
    /// Optional label of this endpoint.
    pub label: Option<String>,
    /// Google Drive file played by a `File` endpoint.
    pub file_id: Option<FileId>,
}

/// Backup input of a failover source: it pulls from a remote URL or
/// accepts a pushed stream.
#[derive(Debug)]
pub struct FailoverInput {
    /// Unique ID of this input.
    pub id: Id,
    /// Key of this input.
    pub key: String,
    /// Endpoints of this input.
    pub endpoints: Vec<InputEndpoint>,
    /// URL to pull a live stream from, if any.
    pub src: Option<String>,
    /// Whether this input is enabled.
    pub enabled: bool,
}

/// Source of the main `Input` of a `Restream`.
#[derive(Debug)]
pub enum InputSrc {
    /// A live stream is pulled from the given URL.
    Remote(String),
    /// A live stream is taken from the first healthy of the given inputs.
    Failover(Vec<FailoverInput>),
}

/// Main input of a `Restream`.
#[derive(Debug)]
pub struct Input {
    /// Unique ID of this input.
    pub id: Id,
    /// Key of this input.
    pub key: String,
    /// Endpoints of this input.
    pub endpoints: Vec<InputEndpoint>,
    /// Source of this input, if any.
    pub src: Option<InputSrc>,
    /// Whether this input is enabled.
    pub enabled: bool,
}

/// Volume of an audio track.
#[derive(Clone, Copy, Debug, PartialEq, Eq, Structural)]
pub struct Volume {
    /// Volume rate in percents.
    pub level: u16,
    /// Whether the track is muted.
    pub muted: bool,
}

impl Volume {
    /// The original volume of a track: 100 percents, not muted.
    pub fn origin() -> (v: Volume)
        ensures
            v == (Volume { level: 100, muted: false }),
    {
        Volume { level: 100, muted: false }
    }
}

/// Additional live stream mixed into an `Output`.
#[derive(Debug)]
pub struct Mixin {
    /// Unique ID of this mixin.
    pub id: Id,
    /// URL of the mixed live stream.
    pub src: String,
    /// Volume of the mixed live stream.
    pub volume: Volume,
    /// Delay in milliseconds before mixing.
    pub delay: u32,
    /// Whether sidechain compression is applied.
    pub sidechain: bool,
}

/// Destination a `Restream` re-streams its live stream to.
#[derive(Debug)]
pub struct Output {
    /// Unique ID of this output.
    pub id: Id,
    /// Destination URL.
    pub dst: String,
    /// Optional label.
    pub label: Option<String>,
    /// Optional URL to preview the destination.
    pub preview_url: Option<String>,
    /// Volume of the original audio track.
    pub volume: Volume,
    /// Additional live streams mixed in.
    pub mixins: Vec<Mixin>,
    /// Whether this output is enabled.
    pub enabled: bool,
    /// Current status of this output.
    pub status: Status,
}

/// Files to be played instead of the live input.
#[derive(Debug)]
pub struct Playlist {
    /// Unique ID of this playlist.
    pub id: Id,
    /// Queue of files to play.
    pub queue: Vec<PlaylistFileInfo>,
    /// File that is played at the moment, if any.
    pub currently_playing_file: Option<PlaylistFileInfo>,
}

/// A re-streaming of one input to many outputs.
#[derive(Debug)]
pub struct Restream {
    /// Unique ID of this restream.
    pub id: Id,
    /// Unique key of this restream.
    pub key: String,
    /// Optional label.
    pub label: Option<String>,
    /// Input of this restream.
    pub input: Input,
    /// Outputs of this restream.
    pub outputs: Vec<Output>,
    /// Playlist of this restream.
    pub playlist: Playlist,
    /// Override of the maximum number of files in the playlist.
    pub max_files_in_playlist: Option<u16>,
}

/// Identity of a remote client: the base URL of its API.
#[derive(Debug)]
pub struct ClientId(pub String);

impl View for ClientId {
    type V = Seq<char>;

    open spec fn view(&self) -> Seq<char> {
        self.0@
    }
}

impl ClientId {
    /// Copies this identity.
    pub fn duplicate(&self) -> (r: ClientId)
        ensures
            r@ == self@,
    {
        ClientId(self.0.clone())
    }
}

/// Count of inputs or outputs of a client in a given status.
#[derive(Clone, Copy, Debug, PartialEq, Eq, Structural)]
pub struct StatusStatistics {
    /// Status counted.
    pub status: Status,
    /// Number of inputs or outputs in that status.
    pub count: i32,
}

/// Load of the machine a client runs on. Fractional readings are kept as the
/// bit patterns of their `f64` values.
#[derive(Debug)]
pub struct ServerInfo {
    /// CPU usage, as an `f64` bit pattern.
    pub cpu_usage: Option<u64>,
    /// Number of CPU cores.
    pub cpu_cores: Option<i32>,
    /// Total RAM, as an `f64` bit pattern.
    pub ram_total: Option<u64>,
    /// Free RAM, as an `f64` bit pattern.
    pub ram_free: Option<u64>,
    /// Received traffic delta, as an `f64` bit pattern.
    pub rx_delta: Option<u64>,
    /// Sent traffic delta, as an `f64` bit pattern.
    pub tx_delta: Option<u64>,
    /// Error message if the load could not be read.
    pub error_msg: Option<String>,
}

/// Statistics reported by a client.
#[derive(Debug)]
pub struct ClientStatistics {
    /// Title of the client.
    pub client_title: String,
    /// Inputs counted by status.
    pub inputs: Vec<StatusStatistics>,
    /// Outputs counted by status.
    pub outputs: Vec<StatusStatistics>,
    /// Load of the client's machine.
    pub server_info: ServerInfo,
}

/// Result of the last statistics request to a client.
#[derive(Debug)]
pub struct ClientStatisticsResponse {
    /// Statistics, if they were received.
    pub data: Option<ClientStatistics>,
    /// Errors of the request, if any.
    pub errors: Option<Vec<String>>,
}

/// Remote client watched by the dashboard.
#[derive(Debug)]
pub struct Client {
    /// Identity of the client.
    pub id: ClientId,
    /// Whether the client's API is protected with a password.
    pub is_protected: bool,
    /// Last statistics of the client.
    pub statistics: Option<ClientStatisticsResponse>,
}

/// Settings of the server.
#[derive(Debug)]
pub struct Settings {
    /// Hash of the password protecting the API.
    pub password_hash: Option<String>,
    /// Hash of the password protecting single-output pages.
    pub password_output_hash: Option<String>,
    /// Title of the server.
    pub title: Option<String>,
    /// Whether deletions need a confirmation.
    pub delete_confirmation: Option<bool>,
    /// Whether enabling and disabling need a confirmation.
    pub enable_confirmation: Option<bool>,
    /// Google API key for Google Drive access.
    pub google_api_key: Option<String>,
    /// Maximum number of files in a playlist.
    pub max_files_in_playlist: Option<u16>,
}

/// State of the whole server.
#[derive(Debug)]
pub struct State {
    /// Settings of the server.
    pub settings: Settings,
    /// Re-streams of the server.
    pub restreams: Vec<Restream>,
    /// Files known to the file manager.
    pub files: Vec<LocalFileInfo>,
    /// Clients watched by the dashboard.
    pub clients: Vec<Client>,
    /// Load of this server.
    pub server_info: ServerInfo,
    /// Commands for the clients, not yet broadcast.
    pub dashboard_commands: Vec<DashboardCommand>,
    /// Commands for the file manager, not yet handled.
    pub file_commands: Vec<FileCommand>,
    /// Messages shown in the dashboard console.
    pub console_log: Vec<ConsoleMessage>,
}

/// `new` is `old` but for its re-streams.
pub open spec fn only_restreams_changed(old: State, new: State) -> bool {
    new == State { restreams: new.restreams, ..old }
}

/// `new` is `old` but for its re-streams and its file manager commands.
pub open spec fn only_restreams_and_commands_changed(old: State, new: State) -> bool {
    new == State { restreams: new.restreams, file_commands: new.file_commands, ..old }
}

/// `new` is `old` but for its settings.
pub open spec fn only_settings_changed(old: State, new: State) -> bool {
    new == State { settings: new.settings, ..old }
}

/// `new` is `old` but for its clients.
pub open spec fn only_clients_changed(old: State, new: State) -> bool {
    new == State { clients: new.clients, ..old }
}

/// `new` is `old` but for its console messages.
pub open spec fn only_console_changed(old: State, new: State) -> bool {
    new == State { console_log: new.console_log, ..old }
}

/// `new` is `old` but for its dashboard commands.
pub open spec fn only_dashboard_commands_changed(old: State, new: State) -> bool {
    new == State { dashboard_commands: new.dashboard_commands, ..old }
}

/// `new` is `old` but for its files.
pub open spec fn only_files_changed(old: State, new: State) -> bool {
    new == State { files: new.files, ..old }
}

/// `new` is `old` but for its file manager commands.
pub open spec fn only_commands_changed(old: State, new: State) -> bool {
    new == State { file_commands: new.file_commands, ..old }
}

/// `new` is `old` but for its files and re-streams.
pub open spec fn only_files_and_restreams_changed(old: State, new: State) -> bool {
    new == State { files: new.files, restreams: new.restreams, ..old }
}

/// `new` is `old` but for its files and its file manager commands.
pub open spec fn only_files_and_commands_changed(old: State, new: State) -> bool {
    new == State { files: new.files, file_commands: new.file_commands, ..old }
}

/// `new` is `old` but for its re-streams and its settings.
pub open spec fn only_restreams_and_settings_changed(old: State, new: State) -> bool {
    new == State { restreams: new.restreams, settings: new.settings, ..old }
}

} // verus!
