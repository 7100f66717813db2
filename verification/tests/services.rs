use ephyr::broadcaster::{client_api_url, command_error_message, command_request, Broadcaster, DashboardCommand};
use ephyr::client_api::MutationsRoot;
use ephyr::client_stat::{
    statistics_error_message, statistics_url, ClientJob, ClientJobsPool, FetchOutcome, JobDecision, QueryServerInfo,
    QueryStatistics, QueryStatus, QueryStatusCount,
};
use ephyr::console_logger::{ConsoleLogger, ConsoleMessageKind, ConsoleMessageSource};
use ephyr::file_manager::{
    api_error, check_files, download_failure, download_reply_kind, fail_download, finish_download, handle_command,
    need_file, progress_is_due, report_progress, set_file_name, start_download, update_file_info, DiskEntry, DownloadReply, FileCommand,
    FileId, FileState, LocalFileInfo, PlaylistFileInfo,
};
use ephyr::google_drive_api::{
    get_result, reply_kind, video_playlist, ErrorMessage, ExtendedFileInfoResponse, FileListResponse, GoogleDriveApi,
    Reply, ReplyKind,
};
use ephyr::srs_client::{check_status, Method, SrsCallbackEvent, SrsCallbackReq, SrsClient, SrsClientError};
use ephyr::state::{
    Client, ClientId, Input, InputEndpoint, InputEndpointKind, InputSrc, FailoverInput, Playlist, Restream,
    ServerInfo, Settings, State, Status, StatusStatistics,
};
use ephyr::telemetry::{capture_line, Level, ParsedMsg, TelemetryConfig, TraceLevel};
use ephyr::text::{i64_to_decimal, u64_to_decimal};

fn empty_state() -> State {
    State {
        settings: Settings {
            password_hash: None,
            password_output_hash: None,
            title: None,
            delete_confirmation: None,
            enable_confirmation: None,
            google_api_key: None,
            max_files_in_playlist: None,
        },
        restreams: Vec::new(),
        files: Vec::new(),
        clients: Vec::new(),
        server_info: ServerInfo {
            cpu_usage: None,
            cpu_cores: None,
            ram_total: None,
            ram_free: None,
            rx_delta: None,
            tx_delta: None,
            error_msg: None,
        },
        dashboard_commands: Vec::new(),
        file_commands: Vec::new(),
        console_log: Vec::new(),
    }
}

fn file(id: &str, state: FileState) -> LocalFileInfo {
    LocalFileInfo { file_id: FileId(id.to_string()), name: None, state, error: None, download_state: None }
}

fn entry(id: &str) -> PlaylistFileInfo {
    PlaylistFileInfo { file_id: FileId(id.to_string()), name: format!("{id}.mp4"), was_played: false }
}

fn restream_with_playlist(id: u128, ids: &[&str]) -> Restream {
    Restream {
        id,
        key: format!("r{id}"),
        label: None,
        input: Input {
            id: id + 100,
            key: "playback".to_string(),
            endpoints: vec![InputEndpoint {
                id: id + 200,
                kind: InputEndpointKind::Rtmp,
                status: Status::Offline,
                label: None,
                file_id: None,
            }],
            src: Some(InputSrc::Failover(vec![FailoverInput {
                id: id + 300,
                key: "file_backup".to_string(),
                endpoints: vec![InputEndpoint {
                    id: id + 400,
                    kind: InputEndpointKind::File,
                    status: Status::Offline,
                    label: None,
                    file_id: Some(FileId("backup".to_string())),
                }],
                src: None,
                enabled: true,
            }])),
            enabled: true,
        },
        outputs: Vec::new(),
        playlist: Playlist { id: id + 500, queue: ids.iter().map(|i| entry(i)).collect(), currently_playing_file: None },
        max_files_in_playlist: None,
    }
}

#[test]
fn need_file_once() {
    let mut files = Vec::new();
    need_file(&mut files, &FileId("a".to_string()), Some("A".to_string()));
    need_file(&mut files, &FileId("a".to_string()), None);
    assert_eq!(files.len(), 1);
    assert_eq!(files[0].state, FileState::Waiting);
    assert_eq!(files[0].name.as_deref(), Some("A"));
}

#[test]
fn check_files_syncs_with_restreams_and_disk() {
    let mut st = empty_state();
    st.restreams.push(restream_with_playlist(1, &["p1"]));
    st.files = vec![file("gone", FileState::Local), file("p1", FileState::Local), file("backup", FileState::Waiting)];
    st.file_commands.push(FileCommand::ListOfFilesChanged);
    let disk = vec![
        DiskEntry { name: "backup".to_string(), is_file: true },
        DiskEntry { name: "old".to_string(), is_file: true },
        DiskEntry { name: "dir".to_string(), is_file: false },
    ];
    let stale = check_files(&mut st, &disk);
    assert_eq!(stale, vec!["old".to_string()]);
    assert!(st.file_commands.is_empty());
    let ids: Vec<&str> = st.files.iter().map(|f| f.file_id.0.as_str()).collect();
    assert_eq!(ids, vec!["p1", "backup"]);
    assert_eq!(st.files[0].state, FileState::DownloadError);
    assert_eq!(st.files[0].error.as_deref(), Some("There is no file on disk."));
    assert_eq!(st.files[1].state, FileState::Waiting);
}

#[test]
fn need_download_files_command() {
    let mut st = empty_state();
    st.files = vec![file("a", FileState::DownloadError)];
    let eff = handle_command(&mut st, FileCommand::NeedDownloadFiles(vec![FileId("a".to_string())]), &Vec::new());
    assert_eq!(st.files.len(), 1);
    assert_eq!(st.files[0].state, FileState::Waiting);
    assert!(eff.stale.is_empty());
}

#[test]
fn download_lifecycle() {
    let id = FileId("a".to_string());
    let mut st = empty_state();
    st.files = vec![file("a", FileState::Pending)];
    assert!(set_file_name(&mut st.files, &id, "video.mp4".to_string()).is_ok());
    assert_eq!(
        set_file_name(&mut st.files, &FileId("zz".to_string()), String::new()).unwrap_err(),
        "Could not find file with the provided file ID: zz"
    );
    assert!(update_file_info(&mut st.files, &id, "clip.mp4".to_string()).is_ok());
    assert_eq!(st.files[0].name.as_deref(), Some("clip.mp4"));
    assert_eq!(
        update_file_info(&mut st.files, &FileId("zz".to_string()), String::new()).unwrap_err(),
        "Could not find the provided file ID"
    );
    start_download(&mut st.files, &id, 1000).unwrap();
    assert_eq!(st.files[0].state, FileState::Downloading);
    report_progress(&mut st.files, &id, 400).unwrap();
    assert_eq!(st.files[0].download_state.unwrap().current_progress, 400);
    assert!(!progress_is_due(400));
    assert!(progress_is_due(401));
    finish_download(&mut st, &id, 1000).unwrap();
    assert_eq!(st.files[0].state, FileState::Local);
    assert_eq!(st.files[0].download_state.unwrap().current_progress, 1000);
    fail_download(&mut st.files, &id, "broken".to_string());
    assert_eq!(st.files[0].state, FileState::DownloadError);
    assert_eq!(st.files[0].error.as_deref(), Some("broken"));
}

#[test]
fn download_reply_messages() {
    assert_eq!(download_reply_kind(200), DownloadReply::Body);
    assert_eq!(download_reply_kind(403), DownloadReply::ApiError);
    assert_eq!(download_reply_kind(500), DownloadReply::Failure);
    assert_eq!(api_error(403, "quota"), "Http response: 403 quota");
    assert_eq!(download_failure("404 Not Found", "nope"), "Can't download file. Http response: 404 Not Found nope");
}

#[test]
fn cancel_and_restart_playlist_downloads() {
    let mut st = empty_state();
    st.restreams.push(restream_with_playlist(1, &["a", "b"]));
    st.files = vec![file("a", FileState::Downloading), file("b", FileState::Local), file("c", FileState::Waiting)];
    assert_eq!(MutationsRoot::cancel_playlist_download(1, &mut st), Some(true));
    assert_eq!(st.files[0].state, FileState::DownloadError);
    assert_eq!(st.files[0].error.as_deref(), Some("Download was canceled"));
    assert_eq!(st.files[1].state, FileState::Local);
    assert_eq!(st.files[2].state, FileState::Waiting);
    assert_eq!(MutationsRoot::restart_playlist_download(1, &mut st), Some(true));
    assert_eq!(st.files[0].state, FileState::Waiting);
    assert!(st.files[0].error.is_none());
    assert_eq!(MutationsRoot::cancel_playlist_download(9, &mut st), Some(false));
}

#[test]
fn play_and_stop_playlist_file() {
    let mut st = empty_state();
    st.restreams.push(restream_with_playlist(1, &["a", "b"]));
    assert_eq!(MutationsRoot::play_file_from_playlist(1, FileId("b".to_string()), &mut st), Some(true));
    assert_eq!(st.restreams[0].playlist.currently_playing_file.as_ref().map(|f| f.file_id.0.clone()), Some("b".into()));
    assert_eq!(MutationsRoot::stop_playing_file_from_playlist(1, &mut st), Some(true));
    assert!(st.restreams[0].playlist.currently_playing_file.is_none());
    let r = MutationsRoot::download_file(FileId("x".to_string()), &mut st);
    assert_eq!(r, Some(true));
    assert!(matches!(st.file_commands.last(), Some(FileCommand::NeedDownloadFiles(v)) if v[0].0 == "x"));
}

#[test]
fn broadcaster_sends_to_protected_clients() {
    let mut st = empty_state();
    st.clients = vec![
        Client { id: ClientId("http://a/".to_string()), is_protected: true, statistics: None },
        Client { id: ClientId("http://b/".to_string()), is_protected: false, statistics: None },
    ];
    st.dashboard_commands = vec![DashboardCommand::EnableAllOutputs(), DashboardCommand::StopPlayingFile("x".into())];
    let mut b = Broadcaster::new(st);
    let jobs = b.handle_commands();
    assert!(b.state.dashboard_commands.is_empty());
    assert_eq!(jobs.len(), 2);
    assert_eq!(jobs[0].0 .0, "http://a/");
    assert!(matches!(jobs[1].1, DashboardCommand::StopPlayingFile(ref p) if p == "x"));
    Broadcaster::handle_errors(&ClientId("http://b/".to_string()), &mut b.state, Some(vec!["e".to_string()]));
    assert_eq!(b.state.clients[1].statistics.as_ref().unwrap().errors.as_ref().unwrap()[0], "e");
    assert_eq!(client_api_url(&ClientId("http://a/".to_string())), "http://a/api");
    assert_eq!(
        command_error_message(&ClientId("http://a/".to_string()), "down"),
        "Error sending command for client http://a/. down"
    );
}

#[test]
fn statistics_jobs_pool() {
    let clients = vec![
        Client { id: ClientId("http://a/".to_string()), is_protected: false, statistics: None },
        Client { id: ClientId("http://b/".to_string()), is_protected: false, statistics: None },
        Client { id: ClientId("http://a/".to_string()), is_protected: false, statistics: None },
    ];
    let mut pool = ClientJobsPool::new();
    assert_eq!(pool.start_statistics_loop(&clients), vec![JobDecision::Start, JobDecision::Start, JobDecision::Start]);
    assert_eq!(pool.start_statistics_loop(&clients), vec![JobDecision::Keep, JobDecision::Keep, JobDecision::Start]);
    assert!(pool.has_job(&ClientId("http://b/".to_string())));
    assert_eq!(statistics_url(&ClientId("http://a/".to_string())), "http://a/api-statistics");
}

#[test]
fn client_job_records_outcomes() {
    let mut st = empty_state();
    st.clients = vec![Client { id: ClientId("http://a/".to_string()), is_protected: false, statistics: None }];
    let job = ClientJob::gather_statistics(ClientId("http://a/".to_string()));
    job.record(FetchOutcome::Failed("timeout".to_string()), &mut st);
    let s = st.clients[0].statistics.as_ref().unwrap();
    assert!(s.data.is_none());
    assert_eq!(s.errors.as_ref().unwrap()[0], "Error retrieving data for client http://a/. timeout");
    assert_eq!(statistics_error_message(&ClientId("x".into()), "e"), "Error retrieving data for client x. e");
    let data = QueryStatistics {
        client_title: "T".to_string(),
        inputs: vec![QueryStatusCount { status: QueryStatus::Online, count: 3 }],
        outputs: vec![QueryStatusCount { status: QueryStatus::Unstable, count: 1 }],
        server_info: QueryServerInfo {
            cpu_usage: None,
            cpu_cores: Some(4),
            ram_total: None,
            ram_free: None,
            rx_delta: None,
            tx_delta: None,
            error_msg: None,
        },
    };
    job.record(FetchOutcome::Answered { data: Some(data), errors: None }, &mut st);
    let s = st.clients[0].statistics.as_ref().unwrap();
    let d = s.data.as_ref().unwrap();
    assert_eq!(d.client_title, "T");
    assert_eq!(d.inputs, vec![StatusStatistics { status: Status::Online, count: 3 }]);
    assert_eq!(d.outputs, vec![StatusStatistics { status: Status::Unstable, count: 1 }]);
    assert_eq!(d.server_info.cpu_cores, Some(4));
    assert!(s.errors.as_ref().unwrap().is_empty());
}

#[test]
fn console_logger_appends() {
    let mut l = ConsoleLogger::new(empty_state());
    l.log_message("hello".to_string(), ConsoleMessageKind::Warning, ConsoleMessageSource::Client);
    assert_eq!(l.state.console_log.len(), 1);
    assert_eq!(l.state.console_log[0].message, "hello");
    assert_eq!(l.state.console_log[0].kind, ConsoleMessageKind::Warning);
}

#[test]
fn google_drive_urls_and_results() {
    let api = GoogleDriveApi::new("KEY");
    assert!(api.dir_content_url("DIR").starts_with("https://www.googleapis.com/drive/v3/files?key=KEY&q='DIR'%20in%20parents"));
    assert!(api.file_media_url(&FileId("F".into())).starts_with("https://www.googleapis.com/drive/v3/files/F?alt=media&key=KEY&"));
    assert_eq!(reply_kind(200, false), ReplyKind::Json);
    assert_eq!(reply_kind(404, true), ReplyKind::ApiError);
    assert_eq!(reply_kind(404, false), ReplyKind::Text);
    let r: Result<u8, String> = get_result(Reply::ApiError(Ok(ErrorMessage { code: 403, message: "denied".into() })));
    assert_eq!(r.unwrap_err(), "Http response: 403 denied");
    let r: Result<u8, String> = get_result(Reply::NoResponse("timeout".into()));
    assert_eq!(r.unwrap_err(), "No valid response from the API: timeout");
    assert_eq!(get_result(Reply::Json(Ok(5u8))).unwrap(), 5);
    let listing = FileListResponse {
        files: vec![
            ExtendedFileInfoResponse { id: "1".into(), name: "a.mp4".into(), mime_type: "video/mp4".into() },
            ExtendedFileInfoResponse { id: "2".into(), name: "d".into(), mime_type: "application/vnd.google-apps.folder".into() },
        ],
    };
    assert!(listing.files[1].is_dir());
    let p = video_playlist(listing);
    assert_eq!(p.len(), 1);
    assert_eq!(p[0].file_id.0, "1");
    assert!(!p[0].was_played);
}

#[test]
fn srs_client_requests() {
    let c = SrsClient::build("http://127.0.0.1:1985").unwrap();
    assert_eq!(c.base_url, "http://127.0.0.1:1985/api/v1/");
    assert_eq!(c.api_url("clients/5/").unwrap(), "http://127.0.0.1:1985/api/v1/clients/5/");
    assert!(matches!(SrsClient::build("::"), Err(SrsClientError::IncorrectBaseUrl(_))));
    let (m, p) = SrsClient::kickoff_client("7");
    assert_eq!(m, Method::Delete);
    assert_eq!(p, "clients/7/");
    assert!(check_status(204).is_ok());
    assert!(matches!(check_status(500), Err(SrsClientError::BadStatus(500))));
    let req = SrsCallbackReq {
        server_id: "s".into(),
        action: SrsCallbackEvent::OnPublish,
        client_id: "c".into(),
        ip: "1.2.3.4".into(),
        vhost: "__defaultVhost__".into(),
        app: "live".into(),
        stream: Some("primary".into()),
    };
    assert_eq!(req.app_stream(), "live/primary");
}

#[test]
fn telemetry_configuration() {
    let c = TelemetryConfig::new(None).otlp_endpoint(Some("10.0.0.2".into()), Some(4317)).service_name("ephyr".into());
    assert_eq!(c.level, Level::Info);
    assert_eq!(c.otlp_endpoint.as_deref(), Some("http://10.0.0.2:4317"));
    assert_eq!(c.service_name.as_deref(), Some("ephyr"));
    let c = TelemetryConfig::new(Some(Level::Debug)).otlp_endpoint(None, Some(1));
    assert!(c.otlp_endpoint.is_none());
    assert_eq!(capture_line(ParsedMsg { message: "m", level: "ERROR" }), TraceLevel::Error);
    assert_eq!(capture_line(ParsedMsg { message: "m", level: "Verbose" }), TraceLevel::Debug);
    assert_eq!(capture_line(ParsedMsg { message: "m", level: "warn" }), TraceLevel::Trace);
}

#[test]
fn decimal_texts() {
    assert_eq!(u64_to_decimal(0), "0");
    assert_eq!(u64_to_decimal(1234567890), "1234567890");
    assert_eq!(u64_to_decimal(u64::MAX), u64::MAX.to_string());
    assert_eq!(i64_to_decimal(-42), "-42");
    assert_eq!(i64_to_decimal(i64::MIN), i64::MIN.to_string());
}

#[test]
fn commands_are_sent_as_their_mutations() {
    let id = ClientId("http://a/".to_string());
    let r = command_request(&id, &DashboardCommand::EnableAllOutputs()).unwrap();
    assert_eq!(r.url, "http://a/api");
    assert_eq!(r.operation, "EnableAllOutputsOfRestreams");
    assert_eq!(r.query, "mutation EnableAllOutputsOfRestreams { enableAllOutputsOfRestreams }");
    let r = command_request(&id, &DashboardCommand::DisableAllOutputs()).unwrap();
    assert_eq!(r.operation, "DisableAllOutputsOfRestreams");
    assert_eq!(r.query, "mutation DisableAllOutputsOfRestreams { disableAllOutputsOfRestreams }");
    assert!(command_request(&id, &DashboardCommand::StartPlayingFile("x".into())).is_none());
}
