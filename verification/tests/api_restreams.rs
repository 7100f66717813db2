use ephyr::client_api::MutationsRoot;
use ephyr::dashboard;
use ephyr::file_manager::{FileCommand, FileId, PlaylistFileInfo};
use ephyr::inputs::Direction;
use ephyr::gdrive_playlist::{gdrive_api_key, names_lt, sort_by_name};
use ephyr::settings::{PasswordKind, QueriesRoot};
use ephyr::state::{ClientId, InputSrc, ServerInfo, Settings, State};

fn empty_state() -> State {
    State {
        settings: Settings {
            password_hash: None,
            password_output_hash: None,
            title: None,
            delete_confirmation: None,
            enable_confirmation: None,
            google_api_key: None,
            max_files_in_playlist: None,
        },
        restreams: Vec::new(),
        files: Vec::new(),
        clients: Vec::new(),
        server_info: ServerInfo {
            cpu_usage: None,
            cpu_cores: None,
            ram_total: None,
            ram_free: None,
            rx_delta: None,
            tx_delta: None,
            error_msg: None,
        },
        dashboard_commands: Vec::new(),
        file_commands: Vec::new(),
        console_log: Vec::new(),
    }
}

fn entry(id: &str, name: &str) -> PlaylistFileInfo {
    PlaylistFileInfo { file_id: FileId(id.to_string()), name: name.to_string(), was_played: false }
}

#[test]
fn set_restream_adds_and_refuses_duplicate_key() {
    let mut st = empty_state();
    let r = MutationsRoot::set_restream("main".to_string(), None, None, None, None, None, true, None, &mut st);
    assert_eq!(r.unwrap(), Some(true));
    assert_eq!(st.restreams.len(), 1);
    assert_eq!(st.restreams[0].input.endpoints.len(), 2);
    assert!(matches!(st.file_commands.last(), Some(FileCommand::ListOfFilesChanged)));
    let e = MutationsRoot::set_restream("main".to_string(), None, None, None, None, None, false, None, &mut st)
        .unwrap_err();
    assert_eq!(e.code, "DUPLICATE_RESTREAM_KEY");
    assert_eq!(e.status, 409);
    assert_eq!(e.message, "Restream.key 'main' is used already");
    assert_eq!(st.restreams.len(), 1);
    assert_eq!(st.file_commands.len(), 2);
}

#[test]
fn set_restream_edits_by_id() {
    let mut st = empty_state();
    MutationsRoot::set_restream("a".to_string(), None, None, None, None, None, false, None, &mut st).unwrap();
    MutationsRoot::set_restream("b".to_string(), None, None, None, None, None, false, None, &mut st).unwrap();
    let id = st.restreams[0].id;
    let e = MutationsRoot::set_restream("b".to_string(), None, None, None, None, None, false, Some(id), &mut st)
        .unwrap_err();
    assert_eq!(e.code, "DUPLICATE_RESTREAM_KEY");
    let r = MutationsRoot::set_restream(
        "c".to_string(),
        Some("label".to_string()),
        Some("rtmp://src/x".to_string()),
        None,
        None,
        Some(5),
        false,
        Some(id),
        &mut st,
    );
    assert_eq!(r.unwrap(), Some(true));
    assert_eq!(st.restreams[0].id, id);
    assert_eq!(st.restreams[0].key, "c");
    assert_eq!(st.restreams[0].label.as_deref(), Some("label"));
    assert_eq!(st.restreams[0].max_files_in_playlist, Some(5));
    assert!(matches!(&st.restreams[0].input.src, Some(InputSrc::Remote(u)) if u == "rtmp://src/x"));
    let r = MutationsRoot::set_restream("d".to_string(), None, None, None, None, None, false, Some(id + 7), &mut st);
    assert_eq!(r.unwrap(), None);
}

#[test]
fn remove_restream_once() {
    let mut st = empty_state();
    MutationsRoot::set_restream("a".to_string(), None, None, None, None, None, false, None, &mut st).unwrap();
    let id = st.restreams[0].id;
    assert_eq!(MutationsRoot::remove_restream(id, &mut st), Some(true));
    assert!(st.restreams.is_empty());
    assert_eq!(MutationsRoot::remove_restream(id, &mut st), None);
}

#[test]
fn enable_disable_restream_and_inputs() {
    let mut st = empty_state();
    let backups = vec![ephyr::spec::BackupInput { key: "b".to_string(), src: None }];
    MutationsRoot::set_restream("a".to_string(), None, None, Some(backups), None, None, false, None, &mut st)
        .unwrap();
    let id = st.restreams[0].id;
    assert_eq!(MutationsRoot::enable_restream(id, &mut st), Some(false));
    assert_eq!(MutationsRoot::disable_restream(id, &mut st), Some(true));
    assert!(!st.restreams[0].input.enabled);
    assert_eq!(MutationsRoot::disable_restream(id, &mut st), Some(false));
    let backup_id = match &st.restreams[0].input.src {
        Some(InputSrc::Failover(v)) => v[1].id,
        _ => panic!("failover expected"),
    };
    assert_eq!(MutationsRoot::disable_input(backup_id, id, &mut st), Some(true));
    assert_eq!(MutationsRoot::disable_input(backup_id, id, &mut st), Some(false));
    assert_eq!(MutationsRoot::enable_input(backup_id, id, &mut st), Some(true));
    let main_id = st.restreams[0].input.id;
    assert_eq!(MutationsRoot::enable_input(main_id, id, &mut st), Some(true));
    assert_eq!(MutationsRoot::enable_restream(id + 1, &mut st), None);
}

#[test]
fn set_settings_title_length_in_characters() {
    let mut st = empty_state();
    let ok = MutationsRoot::set_settings(Some("a".repeat(70)), Some(true), None, None, Some(9), &mut st);
    assert_eq!(ok.unwrap(), true);
    assert_eq!(st.settings.title.as_deref().map(|t| t.len()), Some(70));
    assert_eq!(st.settings.delete_confirmation, Some(true));
    assert_eq!(st.settings.max_files_in_playlist, Some(9));
    // Seventy characters pass, however many bytes they take.
    assert_eq!(MutationsRoot::set_settings(Some("é".repeat(70)), Some(true), None, None, Some(9), &mut st).unwrap(), true);
    assert_eq!(st.settings.title.as_deref().map(|t| t.chars().count()), Some(70));
    // A longer title does not pass, and changes nothing.
    assert_eq!(MutationsRoot::set_settings(Some("a".repeat(71)), None, None, None, None, &mut st).unwrap(), false);
    assert_eq!(st.settings.title.as_deref().map(|t| t.chars().count()), Some(70));
    assert_eq!(st.settings.delete_confirmation, Some(true));
    assert_eq!(st.settings.max_files_in_playlist, Some(9));
    MutationsRoot::set_settings(None, None, None, Some("key".to_string()), None, &mut st).unwrap();
    assert_eq!(st.settings.title.as_deref(), Some(""));
    let info = QueriesRoot::info("host.example", &st);
    assert_eq!(info.public_host, "host.example");
    assert_eq!(info.google_api_key.as_deref(), Some("key"));
}

#[test]
fn set_password_flow() {
    let mut st = empty_state();
    assert_eq!(MutationsRoot::set_password(None, None, None, &mut st).unwrap(), false);
    assert_eq!(MutationsRoot::set_password(Some("secret".to_string()), None, None, &mut st).unwrap(), true);
    assert!(st.settings.password_hash.is_some());
    let e = MutationsRoot::set_password(Some("x".to_string()), None, None, &mut st).unwrap_err();
    assert_eq!(e.code, "NO_OLD_PASSWORD");
    assert_eq!(e.status, 403);
    assert_eq!(e.message, "Old password required for this action");
    let e = MutationsRoot::set_password(Some("x".to_string()), Some("wrong".to_string()), None, &mut st)
        .unwrap_err();
    assert_eq!(e.code, "WRONG_OLD_PASSWORD");
    assert_eq!(e.message, "Wrong old password specified");
    let r = MutationsRoot::set_password(None, Some("secret".to_string()), Some(PasswordKind::Main), &mut st);
    assert_eq!(r.unwrap(), true);
    assert!(st.settings.password_hash.is_none());
    let r = MutationsRoot::try_set_password(Some("out".to_string()), None, Some(PasswordKind::Output), &mut st);
    assert_eq!(r.unwrap().unwrap(), true);
    assert!(st.settings.password_output_hash.is_some());
    assert!(st.settings.password_hash.is_none());
}

#[test]
fn try_set_password_with_unreadable_hash() {
    let mut st = empty_state();
    st.settings.password_hash = Some("not a hash".to_string());
    let r = MutationsRoot::try_set_password(None, Some("x".to_string()), None, &mut st);
    assert!(r.is_none());
    assert_eq!(st.settings.password_hash.as_deref(), Some("not a hash"));
}

#[test]
fn dvr_file_path_checks() {
    assert!(MutationsRoot::check_dvr_file_path("out/2021/file.flv").is_ok());
    let e = MutationsRoot::check_dvr_file_path("/etc/passwd").unwrap_err();
    assert_eq!(e.code, "INVALID_DVR_FILE_PATH");
    assert_eq!(e.status, 400);
    assert_eq!(e.message, "Invalid DVR file path: /etc/passwd");
    assert!(MutationsRoot::check_dvr_file_path("a/../b").is_err());
    assert!(MutationsRoot::check_dvr_file_path("a/..b").is_ok());
}

#[test]
fn set_playlist_orders_known_files() {
    let mut st = empty_state();
    MutationsRoot::set_restream("a".to_string(), None, None, None, None, None, false, None, &mut st).unwrap();
    let id = st.restreams[0].id;
    st.restreams[0].playlist.queue = vec![entry("1", "one"), entry("2", "two"), entry("3", "three")];
    let n = st.file_commands.len();
    let order = vec![FileId("3".to_string()), FileId("9".to_string()), FileId("1".to_string())];
    assert_eq!(MutationsRoot::set_playlist(id, order, &mut st), Some(true));
    let q: Vec<&str> = st.restreams[0].playlist.queue.iter().map(|f| f.file_id.0.as_str()).collect();
    assert_eq!(q, vec!["3", "1"]);
    assert_eq!(st.file_commands.len(), n + 1);
    assert_eq!(MutationsRoot::set_playlist(id + 1, Vec::new(), &mut st), None);
    assert_eq!(st.file_commands.len(), n + 1);
}

#[test]
fn names_compare_by_code_points() {
    assert!(names_lt("a", "b"));
    assert!(names_lt("ab", "abc"));
    assert!(!names_lt("abc", "ab"));
    assert!(!names_lt("x", "x"));
    assert!(names_lt("Z", "a"));
    assert!(names_lt("", "a"));
}

#[test]
fn sort_by_name_is_stable() {
    let sorted = sort_by_name(vec![entry("1", "b"), entry("2", "a"), entry("3", "b"), entry("4", "a")]);
    let ids: Vec<&str> = sorted.iter().map(|f| f.file_id.0.as_str()).collect();
    assert_eq!(ids, vec!["2", "4", "1", "3"]);
}

#[test]
fn gdrive_playlist_appended_sorted() {
    let mut st = empty_state();
    let e = gdrive_api_key(&st).unwrap_err();
    assert_eq!(e.code, "NO_API_KEY");
    assert_eq!(e.status, 401);
    st.settings.google_api_key = Some("k".to_string());
    assert_eq!(gdrive_api_key(&st).unwrap(), "k");
    MutationsRoot::set_restream("a".to_string(), None, None, None, None, None, false, None, &mut st).unwrap();
    let id = st.restreams[0].id;
    st.restreams[0].playlist.queue = vec![entry("0", "zzz")];
    let e = MutationsRoot::get_playlist_from_gdrive(id, Err("boom".to_string()), &mut st).unwrap_err();
    assert_eq!(e.code, "GDRIVE_API_ERROR");
    assert_eq!(e.message, "boom");
    let e = MutationsRoot::get_playlist_from_gdrive(id, Ok(Vec::new()), &mut st).unwrap_err();
    assert_eq!(e.message, "No files in playlist. Probably there is no public access to the playlist");
    let e = MutationsRoot::get_playlist_from_gdrive(id + 1, Ok(vec![entry("1", "a")]), &mut st).unwrap_err();
    assert_eq!(e.code, "UNKNOWN_RESTREAM");
    let r = MutationsRoot::get_playlist_from_gdrive(id, Ok(vec![entry("1", "b"), entry("2", "a")]), &mut st);
    assert_eq!(r.unwrap(), Some(true));
    let q: Vec<&str> = st.restreams[0].playlist.queue.iter().map(|f| f.file_id.0.as_str()).collect();
    assert_eq!(q, vec!["0", "2", "1"]);
}

#[test]
fn add_client_twice_is_refused() {
    let mut st = empty_state();
    let id = ClientId("http://client/".to_string());
    assert_eq!(dashboard::MutationsRoot::add_client(&id, &mut st).unwrap(), Some(true));
    assert_eq!(st.clients.len(), 1);
    assert!(!st.clients[0].is_protected);
    let e = dashboard::MutationsRoot::add_client(&id, &mut st).unwrap_err();
    assert_eq!(e.code, "DUPLICATE_CLIENT");
    assert_eq!(e.status, 409);
    assert_eq!(e.message, "Client with id = http://client/ already exists");
    assert_eq!(dashboard::QueriesRoot::statistics(&st).len(), 1);
}

fn backup_keys(st: &State) -> Vec<String> {
    match &st.restreams[0].input.src {
        Some(InputSrc::Failover(v)) => v.iter().map(|i| i.key.clone()).collect(),
        _ => Vec::new(),
    }
}

#[test]
fn move_backup_inputs_up_and_down() {
    let mut st = empty_state();
    let backups = vec![
        ephyr::spec::BackupInput { key: "b1".to_string(), src: None },
        ephyr::spec::BackupInput { key: "b2".to_string(), src: None },
    ];
    MutationsRoot::set_restream("a".to_string(), None, None, Some(backups), None, None, false, None, &mut st)
        .unwrap();
    let id = st.restreams[0].id;
    let before = backup_keys(&st);
    assert_eq!(before.len(), 3);
    let b1 = match &st.restreams[0].input.src {
        Some(InputSrc::Failover(v)) => v[1].id,
        _ => panic!("failover expected"),
    };
    assert_eq!(MutationsRoot::move_input_in_direction(b1, id, Direction::Up, &mut st).unwrap(), Some(true));
    let moved = backup_keys(&st);
    assert_eq!(moved, vec![before[1].clone(), before[0].clone(), before[2].clone()]);
    assert_eq!(MutationsRoot::move_input_in_direction(b1, id, Direction::Up, &mut st).unwrap(), Some(false));
    assert_eq!(MutationsRoot::move_input_in_direction(b1, id, Direction::Down, &mut st).unwrap(), Some(true));
    assert_eq!(backup_keys(&st), before);
    let main_id = st.restreams[0].input.id;
    assert_eq!(MutationsRoot::move_input_in_direction(main_id, id, Direction::Down, &mut st).unwrap(), None);
    assert_eq!(MutationsRoot::move_input_in_direction(b1, id + 1, Direction::Down, &mut st).unwrap(), None);
}

#[test]
fn label_endpoints_of_inputs() {
    let mut st = empty_state();
    let backups = vec![ephyr::spec::BackupInput { key: "b1".to_string(), src: None }];
    MutationsRoot::set_restream("a".to_string(), None, None, Some(backups), None, None, true, None, &mut st)
        .unwrap();
    let id = st.restreams[0].id;
    let main_id = st.restreams[0].input.id;
    let main_endpoint = st.restreams[0].input.endpoints[0].id;
    assert_eq!(
        MutationsRoot::set_endpoint_label(main_id, id, main_endpoint, Some("camera".to_string()), &mut st),
        Some(true)
    );
    assert_eq!(st.restreams[0].input.endpoints[0].label.as_deref(), Some("camera"));
    let (b1, b1_endpoint) = match &st.restreams[0].input.src {
        Some(InputSrc::Failover(v)) => (v[1].id, v[1].endpoints[0].id),
        _ => panic!("failover expected"),
    };
    assert_eq!(MutationsRoot::set_endpoint_label(b1, id, b1_endpoint, Some("spare".to_string()), &mut st), Some(true));
    match &st.restreams[0].input.src {
        Some(InputSrc::Failover(v)) => assert_eq!(v[1].endpoints[0].label.as_deref(), Some("spare")),
        _ => panic!("failover expected"),
    }
    assert_eq!(MutationsRoot::set_endpoint_label(b1, id, main_endpoint, None, &mut st), None);
    assert_eq!(MutationsRoot::set_endpoint_label(main_id, id, main_endpoint, None, &mut st), Some(true));
    assert_eq!(st.restreams[0].input.endpoints[0].label, None);
}

#[test]
fn set_restream_with_id_is_idempotent() {
    let mut st = empty_state();
    let backups = || Some(vec![ephyr::spec::BackupInput { key: "b1".to_string(), src: Some("rtmp://b/1".to_string()) }]);
    MutationsRoot::set_restream("a".to_string(), None, None, backups(), None, None, true, None, &mut st).unwrap();
    let id = st.restreams[0].id;
    let ids = |st: &State| -> Vec<u128> {
        let mut v: Vec<u128> = st.restreams[0].input.endpoints.iter().map(|e| e.id).collect();
        if let Some(InputSrc::Failover(f)) = &st.restreams[0].input.src {
            for i in f {
                v.push(i.id);
                v.extend(i.endpoints.iter().map(|e| e.id));
            }
        }
        v
    };
    let r = MutationsRoot::set_restream("c".to_string(), Some("L".to_string()), None, backups(), None, None, true, Some(id), &mut st);
    assert_eq!(r.unwrap(), Some(true));
    let first = ids(&st);
    let r = MutationsRoot::set_restream("c".to_string(), Some("L".to_string()), None, backups(), None, None, true, Some(id), &mut st);
    assert_eq!(r.unwrap(), Some(true));
    assert_eq!(ids(&st), first);
    assert_eq!(st.restreams[0].key, "c");
    assert_eq!(st.restreams[0].label.as_deref(), Some("L"));
}

#[test]
fn set_restream_with_repeated_backup_keys_is_idempotent() {
    let mut st = empty_state();
    let backups = || {
        Some(vec![
            ephyr::spec::BackupInput { key: "b1".to_string(), src: Some("rtmp://b/1".to_string()) },
            ephyr::spec::BackupInput { key: "b1".to_string(), src: Some("rtmp://b/2".to_string()) },
        ])
    };
    MutationsRoot::set_restream("a".to_string(), None, None, None, None, None, false, None, &mut st).unwrap();
    let id = st.restreams[0].id;
    let backup_ids = |st: &State| -> Vec<u128> {
        match &st.restreams[0].input.src {
            Some(InputSrc::Failover(f)) => f.iter().map(|i| i.id).collect(),
            _ => vec![],
        }
    };
    let r = MutationsRoot::set_restream("a".to_string(), None, None, backups(), None, None, false, Some(id), &mut st);
    assert_eq!(r.unwrap(), Some(true));
    let first = backup_ids(&st);
    assert_eq!(first.len(), 3);
    assert_ne!(first[1], first[2]);
    let r = MutationsRoot::set_restream("a".to_string(), None, None, backups(), None, None, false, Some(id), &mut st);
    assert_eq!(r.unwrap(), Some(true));
    assert_eq!(backup_ids(&st), first);
}

#[test]
fn set_restream_unknown_id_answers_null_before_duplicate_key() {
    let mut st = empty_state();
    MutationsRoot::set_restream("a".to_string(), None, None, None, None, None, false, None, &mut st).unwrap();
    let id = st.restreams[0].id;
    let r = MutationsRoot::set_restream("a".to_string(), None, None, None, None, None, false, Some(id + 1), &mut st);
    assert_eq!(r.unwrap(), None);
    assert_eq!(st.restreams.len(), 1);
    assert_eq!(st.restreams[0].key, "a");
}

#[test]
fn removed_client_is_no_longer_watched() {
    let mut st = empty_state();
    let a = ClientId("http://a/".to_string());
    let b = ClientId("http://b/".to_string());
    dashboard::MutationsRoot::add_client(&a, &mut st).unwrap();
    dashboard::MutationsRoot::add_client(&b, &mut st).unwrap();
    assert!(dashboard::MutationsRoot::add_client(&a, &mut st).is_err());
    assert_eq!(st.clients.len(), 2);
    assert_eq!(dashboard::MutationsRoot::remove_client(&a, &mut st), Some(true));
    assert!(st.clients.iter().all(|c| c.id.0 != "http://a/"));
    assert_eq!(dashboard::MutationsRoot::remove_client(&a, &mut st), None);
    assert_eq!(st.clients.len(), 1);
}
