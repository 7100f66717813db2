use ephyr::client_api::MutationsRoot;
use ephyr::outputs::{check_mixins, output_spec, MutationsRootMix, QueriesRootMix, Tuning};
use ephyr::restreams::restream_spec;
use ephyr::spec::BackupInput;
use ephyr::state::{Mixin, Output, ServerInfo, Settings, State, Status, Volume};

fn settings() -> Settings {
    Settings {
        password_hash: None,
        password_output_hash: None,
        title: None,
        delete_confirmation: None,
        enable_confirmation: None,
        google_api_key: None,
        max_files_in_playlist: None,
    }
}

fn empty_state() -> State {
    State {
        settings: settings(),
        restreams: Vec::new(),
        files: Vec::new(),
        clients: Vec::new(),
        server_info: ServerInfo {
            cpu_usage: None,
            cpu_cores: None,
            ram_total: None,
            ram_free: None,
            rx_delta: None,
            tx_delta: None,
            error_msg: None,
        },
        dashboard_commands: Vec::new(),
        file_commands: Vec::new(),
        console_log: Vec::new(),
    }
}

fn urls(v: &[&str]) -> Vec<String> {
    v.iter().map(|s| s.to_string()).collect()
}

/// A state with one re-stream `key`, added through the API.
fn state_with_restream(key: &str) -> (State, u128) {
    let mut st = empty_state();
    let r = MutationsRoot::set_restream(key.to_string(), None, None, None, None, None, false, None, &mut st);
    assert_eq!(r.unwrap(), Some(true));
    let id = st.restreams[0].id;
    (st, id)
}

#[test]
fn mixins_at_most_five() {
    let e = check_mixins(&urls(&[
        "ts://a/1", "ts://a/2", "ts://a/3", "http://b/4", "http://b/5", "http://b/6",
    ]))
    .unwrap_err();
    assert_eq!(e.code, "TOO_MUCH_MIXIN_URLS");
    assert_eq!(e.status, 400);
    assert_eq!(e.message, "Maximum 5 mixing URLs are allowed");
}

#[test]
fn mixins_first_duplicate_reported() {
    let e = check_mixins(&urls(&["http://a/1", "http://a/2", "http://a/2", "http://a/1"])).unwrap_err();
    assert_eq!(e.code, "DUPLICATE_MIXIN_URL");
    assert_eq!(e.status, 400);
    assert_eq!(e.message, "Duplicate Output.mixin.src: http://a/2");
}

#[test]
fn mixins_at_most_three_teamspeak() {
    let e = check_mixins(&urls(&["ts://a/1", "ts://a/2", "ts://a/3", "ts://a/4"])).unwrap_err();
    assert_eq!(e.code, "TOO_MUCH_TEAMSPEAK_MIXIN_URLS");
    assert_eq!(e.message, "Maximum 3 TeamSpeak URLs are allowed");
    assert!(check_mixins(&urls(&["ts://a/1", "ts://a/2", "ts://a/3", "http://a/4"])).is_ok());
    assert!(check_mixins(&Vec::new()).is_ok());
}

#[test]
fn new_output_spec_defaults() {
    let spec = output_spec(
        "rtmp://x/live/a".to_string(),
        Some("label".to_string()),
        None,
        urls(&["ts://host/chan", "http://host/music.mp3"]),
        None,
    );
    assert!(spec.id.is_none());
    assert!(!spec.enabled);
    assert_eq!(spec.volume, Volume { level: 100, muted: false });
    assert_eq!(spec.mixins.len(), 2);
    assert_eq!(spec.mixins[0].delay, 3500);
    assert_eq!(spec.mixins[1].delay, 0);
    assert!(!spec.mixins[0].sidechain);
    assert_eq!(spec.mixins[1].volume, Volume { level: 100, muted: false });
}

#[test]
fn edited_output_spec_keeps_mixin_settings() {
    let existing = Output {
        id: 7,
        dst: "rtmp://x/live/a".to_string(),
        label: None,
        preview_url: None,
        volume: Volume { level: 40, muted: true },
        mixins: vec![Mixin {
            id: 9,
            src: "ts://host/chan".to_string(),
            volume: Volume { level: 20, muted: false },
            delay: 100,
            sidechain: true,
        }],
        enabled: true,
        status: Status::Online,
    };
    let spec = output_spec("rtmp://x/live/a".to_string(), None, None, urls(&["ts://host/chan"]), Some(&existing));
    assert_eq!(spec.volume, Volume { level: 40, muted: true });
    assert_eq!(spec.mixins[0].volume, Volume { level: 20, muted: false });
    assert_eq!(spec.mixins[0].delay, 100);
    assert!(spec.mixins[0].sidechain);
    let plain = output_spec("rtmp://x/live/a".to_string(), None, None, Vec::new(), Some(&existing));
    assert_eq!(plain.volume, Volume { level: 100, muted: false });
}

#[test]
fn set_output_adds_and_refuses_duplicate_dst() {
    let (mut st, rid) = state_with_restream("main");
    let r = MutationsRoot::set_output(rid, "rtmp://x/live/a".to_string(), None, None, Vec::new(), None, &mut st);
    assert_eq!(r.unwrap(), Some(true));
    assert_eq!(st.restreams[0].outputs.len(), 1);
    let o = &st.restreams[0].outputs[0];
    assert_eq!(o.dst, "rtmp://x/live/a");
    assert!(!o.enabled);
    assert_eq!(o.status, Status::Offline);
    let e = MutationsRoot::set_output(rid, "rtmp://x/live/a".to_string(), None, None, Vec::new(), None, &mut st)
        .unwrap_err();
    assert_eq!(e.code, "DUPLICATE_OUTPUT_URL");
    assert_eq!(e.status, 409);
    assert_eq!(e.message, "Output.dst 'rtmp://x/live/a' is used already");
    assert_eq!(st.restreams[0].outputs.len(), 1);
}

#[test]
fn set_output_unknown_restream_or_output() {
    let (mut st, rid) = state_with_restream("main");
    let r = MutationsRoot::set_output(rid + 1, "rtmp://x/a".to_string(), None, None, Vec::new(), None, &mut st);
    assert_eq!(r.unwrap(), None);
    let r = MutationsRoot::set_output(rid, "rtmp://x/a".to_string(), None, None, Vec::new(), Some(5), &mut st);
    assert_eq!(r.unwrap(), None);
    let e = MutationsRoot::set_output(
        rid,
        "rtmp://x/a".to_string(),
        None,
        None,
        urls(&["http://a/1", "http://a/1"]),
        None,
        &mut st,
    )
    .unwrap_err();
    assert_eq!(e.code, "DUPLICATE_MIXIN_URL");
    assert!(st.restreams[0].outputs.is_empty());
}

#[test]
fn set_output_edits_keeping_identity_and_enabled() {
    let (mut st, rid) = state_with_restream("main");
    MutationsRoot::set_output(rid, "rtmp://x/a".to_string(), None, None, urls(&["ts://h/c"]), None, &mut st)
        .unwrap();
    let oid = st.restreams[0].outputs[0].id;
    let mid = st.restreams[0].outputs[0].mixins[0].id;
    assert_eq!(MutationsRoot::enable_output(oid, rid, &mut st), Some(true));
    let r = MutationsRoot::set_output(
        rid,
        "rtmp://x/b".to_string(),
        Some("B".to_string()),
        None,
        urls(&["ts://h/c", "http://h/d"]),
        Some(oid),
        &mut st,
    );
    assert_eq!(r.unwrap(), Some(true));
    let o = &st.restreams[0].outputs[0];
    assert_eq!(o.id, oid);
    assert_eq!(o.dst, "rtmp://x/b");
    assert_eq!(o.label.as_deref(), Some("B"));
    assert!(o.enabled);
    assert_eq!(o.mixins.len(), 2);
    assert_eq!(o.mixins[0].id, mid);
    assert_eq!(o.mixins[0].delay, 3500);
}

#[test]
fn enable_disable_output_twice() {
    let (mut st, rid) = state_with_restream("main");
    MutationsRoot::set_output(rid, "rtmp://x/a".to_string(), None, None, Vec::new(), None, &mut st).unwrap();
    let oid = st.restreams[0].outputs[0].id;
    assert_eq!(MutationsRoot::enable_output(oid, rid, &mut st), Some(true));
    assert_eq!(MutationsRoot::enable_output(oid, rid, &mut st), Some(false));
    assert_eq!(MutationsRoot::disable_output(oid, rid, &mut st), Some(true));
    assert_eq!(MutationsRoot::disable_output(oid, rid, &mut st), Some(false));
    assert_eq!(MutationsRoot::enable_output(oid + 1, rid, &mut st), None);
}

#[test]
fn enable_all_outputs_reports_change() {
    let (mut st, rid) = state_with_restream("main");
    MutationsRoot::set_output(rid, "rtmp://x/a".to_string(), None, None, Vec::new(), None, &mut st).unwrap();
    MutationsRoot::set_output(rid, "rtmp://x/b".to_string(), None, None, Vec::new(), None, &mut st).unwrap();
    assert_eq!(MutationsRoot::enable_all_outputs(rid, &mut st), Some(true));
    assert!(st.restreams[0].outputs.iter().all(|o| o.enabled));
    assert_eq!(MutationsRoot::enable_all_outputs(rid, &mut st), Some(false));
    assert_eq!(MutationsRoot::disable_all_outputs(rid, &mut st), Some(true));
    assert!(st.restreams[0].outputs.iter().all(|o| !o.enabled));
    assert_eq!(MutationsRoot::disable_all_outputs(rid + 1, &mut st), None);
    assert!(MutationsRoot::enables_all_outputs_of_restreams(&mut st));
    assert!(!MutationsRoot::enables_all_outputs_of_restreams(&mut st));
    assert!(MutationsRoot::disable_all_outputs_of_restreams(&mut st));
    assert!(!MutationsRoot::disable_all_outputs_of_restreams(&mut empty_state()));
}

#[test]
fn tune_volume_twice() {
    let (mut st, rid) = state_with_restream("main");
    MutationsRoot::set_output(rid, "rtmp://x/a".to_string(), None, None, urls(&["http://m/1"]), None, &mut st)
        .unwrap();
    let oid = st.restreams[0].outputs[0].id;
    let mid = st.restreams[0].outputs[0].mixins[0].id;
    assert_eq!(MutationsRoot::tune_volume(rid, oid, None, 50, false, &mut st), Some(true));
    assert_eq!(MutationsRoot::tune_volume(rid, oid, None, 50, false, &mut st), Some(false));
    assert_eq!(st.restreams[0].outputs[0].volume, Volume { level: 50, muted: false });
    assert_eq!(MutationsRoot::tune_volume(rid, oid, Some(mid), 10, true, &mut st), Some(true));
    assert_eq!(st.restreams[0].outputs[0].mixins[0].volume, Volume { level: 10, muted: true });
    assert_eq!(
        MutationsRootMix::tune_volume(rid, oid, Some(mid), Volume { level: 10, muted: true }, &mut st),
        Some(false)
    );
    assert_eq!(MutationsRoot::tune_volume(rid, oid, Some(mid + 1), 10, true, &mut st), None);
}

#[test]
fn tune_delay_and_sidechain() {
    let (mut st, rid) = state_with_restream("main");
    MutationsRoot::set_output(rid, "rtmp://x/a".to_string(), None, None, urls(&["http://m/1"]), None, &mut st)
        .unwrap();
    let oid = st.restreams[0].outputs[0].id;
    let mid = st.restreams[0].outputs[0].mixins[0].id;
    assert_eq!(MutationsRoot::tune_delay(rid, oid, mid, 250, &mut st), Some(true));
    assert_eq!(MutationsRootMix::tune_delay(rid, oid, mid, 250, &mut st), Some(false));
    assert_eq!(st.restreams[0].outputs[0].mixins[0].delay, 250);
    assert_eq!(MutationsRoot::tune_sidechain(rid, oid, mid, true, &mut st), Some(true));
    assert_eq!(MutationsRoot::tune_sidechain(rid, oid, mid, true, &mut st), Some(false));
    assert!(st.restreams[0].outputs[0].mixins[0].sidechain);
    assert_eq!(MutationsRoot::tune_delay(rid, oid + 1, mid, 1, &mut st), None);
    let mut o = Output {
        id: 1,
        dst: String::new(),
        label: None,
        preview_url: None,
        volume: Volume { level: 100, muted: false },
        mixins: Vec::new(),
        enabled: false,
        status: Status::Offline,
    };
    assert_eq!(o.tune_mixin(3, Tuning::Delay(1)), None);
}

#[test]
fn remove_output_and_query() {
    let (mut st, rid) = state_with_restream("main");
    MutationsRoot::set_output(rid, "rtmp://x/a".to_string(), None, None, Vec::new(), None, &mut st).unwrap();
    let oid = st.restreams[0].outputs[0].id;
    assert_eq!(QueriesRootMix::output(rid, oid, &st).map(|o| o.dst.clone()), Some("rtmp://x/a".to_string()));
    assert_eq!(MutationsRoot::remove_output(oid, rid, &mut st), Some(true));
    assert!(QueriesRootMix::output(rid, oid, &st).is_none());
    assert_eq!(MutationsRoot::remove_output(oid, rid, &mut st), None);
}

#[test]
fn restream_spec_plain_and_hls() {
    let spec = restream_spec("key".to_string(), None, Some("rtmp://src/live".to_string()), None, None, Some(3), true);
    assert_eq!(spec.input.key, "primary");
    assert_eq!(spec.input.endpoints.len(), 2);
    assert!(spec.input.enabled);
    assert_eq!(spec.max_files_in_playlist, Some(3));
    assert!(spec.outputs.is_empty());
    match spec.input.src {
        Some(ephyr::spec::InputSrcSpec::RemoteUrl(u)) => assert_eq!(u, "rtmp://src/live"),
        _ => panic!("remote source expected"),
    }
}

#[test]
fn restream_spec_failover() {
    let backups = vec![BackupInput { key: "backup1".to_string(), src: Some("rtmp://b/1".to_string()) }];
    let spec = restream_spec(
        "key".to_string(),
        Some("L".to_string()),
        None,
        Some(backups),
        Some(ephyr::file_manager::FileId("gdrive-id".to_string())),
        None,
        false,
    );
    assert_eq!(spec.input.key, "playback");
    assert_eq!(spec.input.endpoints.len(), 1);
    match spec.input.src {
        Some(ephyr::spec::InputSrcSpec::FailoverInputs(v)) => {
            assert_eq!(v.len(), 3);
            assert_eq!(v[0].key, "primary");
            assert!(v[0].src.is_none());
            assert_eq!(v[1].key, "backup1");
            assert_eq!(v[1].src.as_deref(), Some("rtmp://b/1"));
            assert_eq!(v[2].key, "file_backup");
            assert_eq!(v[2].endpoints[0].file_id.as_ref().map(|f| f.0.clone()), Some("gdrive-id".to_string()));
        },
        _ => panic!("failover source expected"),
    }
}

#[test]
fn set_output_with_id_is_idempotent() {
    let (mut st, rid) = state_with_restream("k");
    MutationsRoot::set_output(rid, "rtmp://out/1".to_string(), None, None, Vec::new(), None, &mut st).unwrap();
    let oid = st.restreams[0].outputs[0].id;
    let mixins = || urls(&["ts://t.example.com/c", "http://radio/live"]);
    let set = |st: &mut State| {
        MutationsRoot::set_output(rid, "rtmp://out/2".to_string(), Some("L".to_string()), None, mixins(), Some(oid), st)
    };
    assert_eq!(set(&mut st).unwrap(), Some(true));
    let first: Vec<(u128, u32)> = st.restreams[0].outputs[0].mixins.iter().map(|m| (m.id, m.delay)).collect();
    assert_eq!(set(&mut st).unwrap(), Some(true));
    let second: Vec<(u128, u32)> = st.restreams[0].outputs[0].mixins.iter().map(|m| (m.id, m.delay)).collect();
    assert_eq!(first, second);
    assert_eq!(st.restreams[0].outputs[0].dst, "rtmp://out/2");
    assert_eq!(first[0].1, 3500);
}

#[test]
fn set_output_unknown_output_answers_null_before_duplicate_dst() {
    let (mut st, rid) = state_with_restream("main");
    let r = MutationsRoot::set_output(rid, "rtmp://x/a".to_string(), None, None, Vec::new(), None, &mut st);
    assert_eq!(r.unwrap(), Some(true));
    let oid = st.restreams[0].outputs[0].id;
    let r = MutationsRoot::set_output(rid, "rtmp://x/a".to_string(), None, None, Vec::new(), Some(oid + 1), &mut st);
    assert_eq!(r.unwrap(), None);
    assert_eq!(st.restreams[0].outputs.len(), 1);
}
