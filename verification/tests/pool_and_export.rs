use ephyr::audio_redirect::AudioProcessingPool;
use ephyr::client_api::{MutationsRoot, SubscriptionsRoot};
use ephyr::client_stat::JobDecision;
use ephyr::ffmpeg::RestreamerKind;
use ephyr::ffmpeg_pool::restreamer_processes;
use ephyr::file_manager::{waiting_files, FileId, FileState, LocalFileInfo, PlaylistFileInfo};
use ephyr::gdrive_client::{check_reply, ApiErrorMessage, GdriveError, GoogleDriveApi};
use ephyr::restreams::restream_spec;
use ephyr::settings::QueriesRoot;
use ephyr::spec::{InputSrcSpec, Spec};
use ephyr::state::{FailoverInput, InputEndpoint, InputEndpointKind, Playlist, ServerInfo, Settings, State, Status};

fn empty_state() -> State {
    State {
        settings: Settings {
            password_hash: None,
            password_output_hash: None,
            title: None,
            delete_confirmation: None,
            enable_confirmation: None,
            google_api_key: None,
            max_files_in_playlist: None,
        },
        restreams: Vec::new(),
        files: Vec::new(),
        clients: Vec::new(),
        server_info: ServerInfo {
            cpu_usage: None,
            cpu_cores: None,
            ram_total: None,
            ram_free: None,
            rx_delta: None,
            tx_delta: None,
            error_msg: None,
        },
        dashboard_commands: Vec::new(),
        file_commands: Vec::new(),
        console_log: Vec::new(),
    }
}

fn file(id: &str, state: FileState) -> LocalFileInfo {
    LocalFileInfo { file_id: FileId(id.to_string()), name: None, state, error: None, download_state: None }
}

#[test]
fn pulled_restream_needs_one_copy_then_outputs() {
    let mut st = empty_state();
    MutationsRoot::set_restream(
        "main".to_string(),
        None,
        Some("rtmp://src/x".to_string()),
        None,
        None,
        None,
        false,
        None,
        &mut st,
    )
    .unwrap();
    let rid = st.restreams[0].id;
    MutationsRoot::set_output(rid, "rtmp://out/y".to_string(), None, None, Vec::new(), None, &mut st).unwrap();
    let input_key = st.restreams[0].input.key.clone();
    let endpoint_id = st.restreams[0].input.endpoints[0].id;
    let to = format!("rtmp://127.0.0.1:1935/main/{input_key}");

    let v = restreamer_processes(&st.restreams, &st.files, "/files", &Vec::new());
    assert_eq!(v.len(), 1);
    assert_eq!(v[0].0, endpoint_id);
    match &v[0].1 {
        RestreamerKind::Copy(c) => {
            assert_eq!(c.from_url, "rtmp://src/x");
            assert_eq!(c.to_url, to);
        },
        _ => panic!("a copy is expected"),
    }

    // Once the input serves and the output is enabled, the output is fed
    // from the main RTMP endpoint.
    st.restreams[0].input.endpoints[0].status = Status::Online;
    st.restreams[0].outputs[0].enabled = true;
    let output_id = st.restreams[0].outputs[0].id;
    let v = restreamer_processes(&st.restreams, &st.files, "/files", &Vec::new());
    assert_eq!(v.len(), 2);
    assert_eq!(v[1].0, output_id);
    match &v[1].1 {
        RestreamerKind::Copy(c) => {
            assert_eq!(c.from_url, to);
            assert_eq!(c.to_url, "rtmp://out/y");
        },
        _ => panic!("a copy is expected"),
    }
}

#[test]
fn recording_output_writes_to_its_dvr_url() {
    let mut st = empty_state();
    MutationsRoot::set_restream(
        "rec".to_string(),
        None,
        Some("rtmp://src/x".to_string()),
        None,
        None,
        None,
        false,
        None,
        &mut st,
    )
    .unwrap();
    let rid = st.restreams[0].id;
    MutationsRoot::set_output(rid, "file:///record.flv".to_string(), None, None, Vec::new(), None, &mut st)
        .unwrap();
    st.restreams[0].input.endpoints[0].status = Status::Online;
    st.restreams[0].outputs[0].enabled = true;
    let output_id = st.restreams[0].outputs[0].id;
    let dvr = vec![(output_id, "file:///dvr/rec/1.flv".to_string())];
    let v = restreamer_processes(&st.restreams, &st.files, "/files", &dvr);
    assert_eq!(v.len(), 2);
    match &v[1].1 {
        RestreamerKind::Copy(c) => assert_eq!(c.to_url, "file:///dvr/rec/1.flv"),
        _ => panic!("a copy is expected"),
    }
}

#[test]
fn disabled_backup_input_needs_no_process() {
    let endpoint = InputEndpoint {
        id: 7,
        kind: InputEndpointKind::Rtmp,
        status: Status::Offline,
        label: None,
        file_id: None,
    };
    let mut backup = FailoverInput {
        id: 3,
        key: "backup1".to_string(),
        endpoints: Vec::new(),
        src: Some("rtmp://remote/b".to_string()),
        enabled: false,
    };
    assert!(RestreamerKind::from_failover_input(&backup, &endpoint, "main").is_none());
    backup.enabled = true;
    match RestreamerKind::from_failover_input(&backup, &endpoint, "main") {
        Some(RestreamerKind::Copy(c)) => {
            assert_eq!(c.id, 7);
            assert_eq!(c.from_url, "rtmp://remote/b");
            assert_eq!(c.to_url, "rtmp://127.0.0.1:1935/main/backup1");
        },
        _ => panic!("a copy is expected"),
    }
}

#[test]
fn export_chosen_restreams() {
    let mut st = empty_state();
    assert!(QueriesRoot::export(&Vec::new(), &st).is_none());
    MutationsRoot::set_restream("a".to_string(), None, Some("rtmp://src/a".to_string()), None, None, None, false, None, &mut st)
        .unwrap();
    MutationsRoot::set_restream("b".to_string(), Some("B".to_string()), None, None, None, None, false, None, &mut st)
        .unwrap();
    st.settings.title = Some("Server".to_string());
    let all = QueriesRoot::export(&Vec::new(), &st).unwrap();
    assert_eq!(all.settings.as_ref().and_then(|s| s.title.as_deref()), Some("Server"));
    let all = all.restreams;
    assert_eq!(all.len(), 2);
    assert_eq!(all[0].key, "a");
    assert!(matches!(&all[0].input.src, Some(InputSrcSpec::RemoteUrl(u)) if u == "rtmp://src/a"));
    assert_eq!(all[1].label.as_deref(), Some("B"));
    let id_b = st.restreams[1].id;
    let only_b = QueriesRoot::export(&vec![id_b], &st).unwrap().restreams;
    assert_eq!(only_b.len(), 1);
    assert_eq!(only_b[0].key, "b");
    assert_eq!(only_b[0].id, Some(id_b));
    assert!(QueriesRoot::export(&vec![id_b + 1000], &st).is_none());
}

#[test]
fn waiting_files_in_order() {
    let files = vec![
        file("a", FileState::Waiting),
        file("b", FileState::Local),
        file("c", FileState::Waiting),
        file("d", FileState::DownloadError),
    ];
    let ids = waiting_files(&files);
    assert_eq!(ids.len(), 2);
    assert_eq!(ids[0].0, "a");
    assert_eq!(ids[1].0, "c");
    assert!(waiting_files(&Vec::new()).is_empty());
}

#[test]
fn google_drive_request_urls() {
    let api = GoogleDriveApi::new("KEY");
    let files = api.files().unwrap();
    assert_eq!(
        files.api_url,
        "https://www.googleapis.com/drive/v3/files?key=KEY&supportsAllDrives=True&supportsTeamDrives=True\
         &includeItemsFromAllDrives=True&includeTeamDriveItems=True"
    );
    let info = files.file_info_url("abc").unwrap();
    assert!(info.starts_with("https://www.googleapis.com/drive/v3/files/abc?key=KEY&"));
    assert!(info.ends_with("&fields=id,name,mimeType"));
    let media = files.file_response_url("abc").unwrap();
    assert!(media.starts_with("https://www.googleapis.com/drive/v3/files/abc?key=KEY&"));
    assert!(media.ends_with("&alt=media"));
    let dir = files.dir_content_url("dir1");
    assert!(dir.starts_with(&files.api_url));
    assert!(dir.ends_with("&q='dir1'%20in%20parents&fields=files/id,files/name,files/mimeType"));
}

#[test]
fn google_drive_replies() {
    assert!(check_reply(200, None).is_ok());
    let e = ApiErrorMessage { code: 400, message: "Bad".to_string() };
    assert_eq!(e.describe(), "ErrorMessage(400, Bad)");
    match check_reply(400, Some(e)) {
        Err(GdriveError::ApiError(m)) => assert_eq!(m.message, "Bad"),
        _ => panic!("an API error is expected"),
    }
    assert!(matches!(check_reply(500, None), Err(GdriveError::BadStatus(500))));
    let e = ApiErrorMessage { code: 403, message: "No".to_string() };
    assert!(matches!(check_reply(403, Some(e)), Err(GdriveError::BadStatus(403))));
}

#[test]
fn subscriptions_follow_the_state() {
    let mut st = empty_state();
    MutationsRoot::set_restream("a".to_string(), None, None, None, None, None, false, None, &mut st).unwrap();
    let id = st.restreams[0].id;
    assert_eq!(SubscriptionsRoot::restream(id, &st).map(|r| r.key.clone()), Some("a".to_string()));
    assert!(SubscriptionsRoot::restream(id + 1, &st).is_none());
    st.files.push(file("f1", FileState::Local));
    assert_eq!(SubscriptionsRoot::file(&FileId("f1".to_string()), &st).map(|f| f.file_id.0.clone()), Some("f1".to_string()));
    assert!(SubscriptionsRoot::file(&FileId("f2".to_string()), &st).is_none());
    assert!(SubscriptionsRoot::currently_playing_file(id, &st).is_none());
}

fn spec_of(key: &str, label: Option<&str>) -> ephyr::spec::RestreamSpec {
    restream_spec(key.to_string(), label.map(|l| l.to_string()), None, None, None, None, false)
}

fn spec_with(restreams: Vec<ephyr::spec::RestreamSpec>) -> Spec {
    Spec { settings: None, restreams }
}

#[test]
fn import_replaces_with_exported_restreams() {
    let mut st = empty_state();
    MutationsRoot::set_restream("a".to_string(), None, None, None, None, None, false, None, &mut st).unwrap();
    let id_a = st.restreams[0].id;
    MutationsRoot::set_output(id_a, "rtmp://out/a".to_string(), None, None, Vec::new(), None, &mut st).unwrap();
    let out_id = st.restreams[0].outputs[0].id;
    st.settings.title = Some("Before".to_string());
    let exported = QueriesRoot::export(&Vec::new(), &st).unwrap();
    MutationsRoot::set_restream("b".to_string(), None, None, None, None, None, false, None, &mut st).unwrap();
    st.settings.title = Some("After".to_string());
    assert_eq!(st.restreams.len(), 2);
    assert_eq!(MutationsRoot::import(exported, true, None, &mut st).unwrap(), Some(true));
    assert_eq!(st.settings.title.as_deref(), Some("Before"));
    assert_eq!(st.restreams.len(), 1);
    assert_eq!(st.restreams[0].id, id_a);
    assert_eq!(st.restreams[0].key, "a");
    assert_eq!(st.restreams[0].outputs[0].id, out_id);
    assert_eq!(st.restreams[0].outputs[0].dst, "rtmp://out/a");
}

#[test]
fn import_merges_by_key() {
    let mut st = empty_state();
    MutationsRoot::set_restream("a".to_string(), None, None, None, None, None, false, None, &mut st).unwrap();
    let id_a = st.restreams[0].id;
    MutationsRoot::set_output(id_a, "rtmp://out/a".to_string(), None, None, Vec::new(), None, &mut st).unwrap();
    let r = MutationsRoot::import(spec_with(vec![spec_of("a", Some("A")), spec_of("c", None)]), false, None, &mut st);
    assert_eq!(r.unwrap(), Some(true));
    assert_eq!(st.restreams.len(), 2);
    assert_eq!(st.restreams[0].id, id_a);
    assert_eq!(st.restreams[0].label.as_deref(), Some("A"));
    assert_eq!(st.restreams[0].outputs.len(), 1);
    assert_eq!(st.restreams[1].key, "c");
}

#[test]
fn import_into_one_restream() {
    let mut st = empty_state();
    MutationsRoot::set_restream("a".to_string(), None, None, None, None, None, false, None, &mut st).unwrap();
    let id_a = st.restreams[0].id;
    let e = MutationsRoot::import(spec_with(vec![spec_of("x", None), spec_of("y", None)]), false, Some(id_a), &mut st)
        .unwrap_err();
    assert_eq!(e.code, "INVALID_SPEC");
    assert_eq!(e.status, 400);
    assert_eq!(e.message, "JSON spec should contain exactly one Restream");
    assert_eq!(MutationsRoot::import(spec_with(vec![spec_of("x", None)]), false, Some(id_a + 1), &mut st).unwrap(), None);
    assert_eq!(MutationsRoot::import(spec_with(vec![spec_of("x", Some("X"))]), true, Some(id_a), &mut st).unwrap(), Some(true));
    assert_eq!(st.restreams[0].id, id_a);
    assert_eq!(st.restreams[0].key, "x");
    assert_eq!(st.restreams[0].label.as_deref(), Some("X"));
}

#[test]
fn teamspeak_captures_follow_outputs() {
    let mut st = empty_state();
    MutationsRoot::set_restream("a".to_string(), None, None, None, None, None, false, None, &mut st).unwrap();
    let rid = st.restreams[0].id;
    let mixins = vec!["ts://ts.example.com/channel".to_string(), "http://radio.example.com/live".to_string()];
    MutationsRoot::set_output(rid, "rtmp://out/y".to_string(), None, None, mixins, None, &mut st).unwrap();
    let ts_id = st.restreams[0].outputs[0].mixins[0].id;
    let mut pool = AudioProcessingPool::new();
    // The input does not serve yet, and the output is disabled.
    assert!(pool.apply(&st.restreams).is_empty());
    st.restreams[0].input.endpoints[0].status = Status::Online;
    assert!(pool.apply(&st.restreams).is_empty());
    st.restreams[0].outputs[0].enabled = true;
    assert_eq!(pool.apply(&st.restreams), vec![(ts_id, JobDecision::Start)]);
    assert_eq!(pool.mixin_ids, vec![ts_id]);
    assert_eq!(pool.apply(&st.restreams), vec![(ts_id, JobDecision::Keep)]);
    st.restreams[0].outputs[0].enabled = false;
    assert!(pool.apply(&st.restreams).is_empty());
    assert!(pool.mixin_ids.is_empty());
}

#[test]
fn playing_file_is_streamed_from_its_path() {
    let mut playlist = Playlist { id: 9, queue: Vec::new(), currently_playing_file: None };
    assert!(RestreamerKind::from_playlist(&playlist, "main", "playback", "/files").is_none());
    playlist.currently_playing_file =
        Some(PlaylistFileInfo { file_id: FileId("abc".to_string()), name: "a.mp4".to_string(), was_played: false });
    match RestreamerKind::from_playlist(&playlist, "main", "playback", "/files") {
        Some(RestreamerKind::File(f)) => {
            assert_eq!(f.id, 9);
            assert_eq!(f.from_url, "file:///files/abc");
            assert_eq!(f.to_url, "rtmp://127.0.0.1:1935/main/playback");
        },
        _ => panic!("a file process is expected"),
    }
    assert!(RestreamerKind::from_playlist(&playlist, "main", "playback", "files").is_none());
}
