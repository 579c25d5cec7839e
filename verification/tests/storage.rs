use orion::assets::{Assets, ICON_CAT, ICON_SAVE};
use orion::device::{enumerate_all, DeviceSide};
use orion::domain::ids::EndpointId;
use orion::engine::messages::{goes_on, started, EngineCommand, EngineEvent};
use orion::engine::mixer::{mix, mix_terms};
use orion::engine::ring::RingPair;
use orion::json::{json_number, json_text};
use orion::model::channel::ChannelId;
use orion::model::route::Route;
use orion::model::routing_matrix::RoutingMatrix;
use orion::model::virtual_channel::{Direction, VirtualIoManager};
use orion::persistence::document::{
    default_schema_ref, PersistedRoute, PersistedScene, PersistedSettings,
    SessionDocument, SCHEMA_VERSION,
};
use orion::persistence::queue::{
    save_report, PersistenceCommand, PersistenceEvent, SaveQueue, CHANNEL_CAPACITY,
};
use orion::persistence::store::{
    after_backup, after_primary, backup_path, begin_load, content_digest, inspect_file, load_file,
    migrates_legacy, save_steps, temporary_path, touches_settings, with_extension, FileKind,
    LoadSource, LoadStep, PersistenceError, SaveStep, SessionStore,
};
use orion::process_stats::{parse_process_ticks, read_process_ticks};
use orion::scalar::Scalar;
use orion::state::app::AppState;
use orion::state::labels::{BusKind, ChannelColor, SourceKind};
use orion::state::session::{apply, document_of};
use orion::state::strips::{OutputBus, SourceStrip};
use orion::table::Table;
use orion::text::{
    after_last, contains_text, decimal_text, find_last, parse_number, split_words, starts_with,
    strip_prefix, trim, truncate_label,
};

fn scalar(value: f32) -> Scalar {
    Scalar::from_bits(value.to_bits())
}

fn number(value: Scalar) -> f32 {
    f32::from_bits(value.bits)
}

fn named_scene(name: &str) -> PersistedScene {
    PersistedScene {
        name: name.into(),
        sources: Vec::new(),
        outputs: Vec::new(),
        routes: Vec::new(),
    }
}

fn document(scenes: Vec<PersistedScene>, selected: usize) -> SessionDocument {
    SessionDocument::new(
        PersistedSettings::default(),
        Vec::new(),
        Vec::new(),
        Vec::new(),
        vec![PersistedRoute {
            source: EndpointId::new(),
            destination: EndpointId::new(),
        }],
        scenes,
        selected,
    )
}

#[test]
fn parses_ticks_past_a_spaced_command_name() {
    let make = |utime: u64, stime: u64| {
        let mut parts = vec!["1234 (my app)".to_string(), "S".to_string()];
        parts.extend(std::iter::repeat("0".to_string()).take(10));
        parts.push(utime.to_string());
        parts.push(stime.to_string());
        parts.join(" ")
    };
    assert_eq!(parse_process_ticks(&make(42, 17)), Some(59));
    assert_eq!(parse_process_ticks(&make(1000, 250)), Some(1250));
}

#[test]
fn rejects_malformed_lines() {
    assert_eq!(parse_process_ticks("garbage"), None);
    assert_eq!(parse_process_ticks("1 (ok) S 1"), None);
    assert_eq!(read_process_ticks(None), None);
}

#[test]
fn documents_have_a_version_and_are_checked() {
    let plain = SessionDocument::default();
    assert_eq!(plain.schema_version, SCHEMA_VERSION);
    assert_eq!(plain.schema_ref, default_schema_ref());
    assert!(plain.validate().is_ok());
    let mut future = SessionDocument::default();
    future.schema_version = 99;
    assert!(matches!(
        future.validate(),
        Err(PersistenceError::UnsupportedVersion(99))
    ));
    let (gap, beyond) = (document(vec![named_scene("One")], 0), document(Vec::new(), 4));
    assert!(gap.validate().is_ok());
    assert!(beyond.validate().is_ok());
}

#[test]
fn files_are_told_apart_by_their_version() {
    let (kind, digest) = inspect_file(br#"{"schema_version": 2}"#);
    assert_eq!(kind, FileKind::Current);
    assert_eq!(digest, content_digest(br#"{"schema_version": 2}"#));
    assert_eq!(inspect_file(br#"{"schema_version": 1}"#).0, FileKind::Legacy);
    assert_eq!(inspect_file(br#"{"schema_version": 7}"#).0, FileKind::Unsupported(7));
    assert_eq!(inspect_file(b"not json").0, FileKind::Unreadable);
    assert_ne!(content_digest(b"a"), content_digest(b"b"));
    let legacy = load_file("/x/settings.json", FileKind::Legacy, 5, Err("unused".into()));
    assert!(matches!(legacy, Ok((document, 5)) if document.sources.is_empty()));
    let future = load_file("/x/settings.json", FileKind::Unsupported(7), 5, Err("unused".into()));
    assert!(matches!(future, Err(PersistenceError::UnsupportedVersion(7))));
    let broken = load_file("/x/settings.json", FileKind::Current, 5, Err("bad field".into()));
    assert!(matches!(
        broken,
        Err(PersistenceError::Json { path, source }) if path == "/x/settings.json" && source == "bad field"
    ));
}

#[test]
fn loading_falls_back_to_the_backup() {
    assert!(matches!(
        begin_load(false),
        LoadStep::Done(Ok(result)) if result.source == LoadSource::Default && result.digest == 0
    ));
    assert!(matches!(begin_load(true), LoadStep::ReadPrimary));
    let error = || PersistenceError::Json { path: "p".into(), source: "s".into() };
    assert!(matches!(after_primary(Err(error()), true), LoadStep::ReadBackup));
    assert!(matches!(after_primary(Err(error()), false), LoadStep::Done(Err(_))));
    assert!(matches!(
        after_primary(Ok((SessionDocument::default(), 3)), true),
        LoadStep::Done(Ok(result)) if result.source == LoadSource::Primary && result.digest == 3
    ));
    assert!(matches!(
        after_backup(Ok((SessionDocument::default(), 4))),
        Ok(result) if result.source == LoadSource::Backup
    ));
}

#[test]
fn saving_replaces_the_settings_last() {
    let path = "/home/u/.config/orion/settings.json";
    assert_eq!(backup_path(path), "/home/u/.config/orion/settings.json.bak");
    assert_eq!(with_extension("/a/b.json", "txt"), "/a/b.txt");
    assert_ne!(temporary_path(path), temporary_path(path));
    let steps = save_steps(&SessionDocument::default(), path, true, true, "/t/one", "/t/two")
        .unwrap_or_else(|error| panic!("{}", error.message()));
    assert!(matches!(steps[0], SaveStep::CreateDirectory));
    let replaced = steps
        .iter()
        .position(|step| matches!(step, SaveStep::Rename { to, .. } if to == path));
    assert_eq!(replaced, Some(steps.len() - 2));
    assert!(matches!(steps[steps.len() - 1], SaveStep::SyncDirectory));
    let mut future = SessionDocument::default();
    future.schema_version = 3;
    assert!(save_steps(&future, path, true, true, "a", "b").is_err());
    let store = SessionStore::new(path);
    assert_eq!(store.path(), path);
}

#[test]
fn the_watcher_and_the_migration_know_their_files() {
    assert!(migrates_legacy(false, true));
    assert!(!migrates_legacy(true, true));
    assert!(!migrates_legacy(false, false));
    assert!(touches_settings(&vec!["other".into(), "settings.json".into()], "settings.json"));
    assert!(!touches_settings(&vec!["settings.json.bak".into()], "settings.json"));
}

#[test]
fn the_newest_document_is_saved() {
    let mut queue = SaveQueue::new();
    for at in 0..CHANNEL_CAPACITY + 3 {
        assert!(queue.save(document(vec![named_scene(&format!("{at}"))], 0)));
    }
    assert_eq!(queue.waiting.len(), 3);
    for at in CHANNEL_CAPACITY..CHANNEL_CAPACITY + 3 {
        assert!(queue.next().is_some_and(|command| matches!(
            command,
            PersistenceCommand::Save(document) if document.scenes[0].name == format!("{at}")
        )));
    }
    assert!(queue.next().is_none());
    assert!(queue.save(SessionDocument::default()));
    queue.close();
    assert!(matches!(queue.next(), Some(PersistenceCommand::Save(_))));
    assert!(matches!(queue.next(), Some(PersistenceCommand::Shutdown)));
    assert!(!queue.save(SessionDocument::default()));
    assert!(matches!(save_report(Ok(9)), PersistenceEvent::Saved(Some(9))));
    assert!(matches!(save_report(Err("full".into())), PersistenceEvent::Failed(text) if text == "full"));
}

#[test]
fn failures_of_storage_have_words() {
    assert_eq!(
        PersistenceError::UnsupportedVersion(9).message(),
        "unsupported configuration schema version 9"
    );
    let io = PersistenceError::Io { path: "/x".into(), source: "denied".into() };
    assert!(io.message().contains("/x") && io.message().contains("denied"));
}

#[test]
fn json_fields_are_looked_up() {
    assert_eq!(json_text(r#"{"name": "a\nb"}"#, "name").as_deref(), Some("a\nb"));
    assert_eq!(json_text(r#"{"name": 1}"#, "name"), None);
    assert_eq!(json_number(br#"{"v": 12}"#, "v"), Some(Some(12)));
    assert_eq!(json_number(br#"{"v": "x"}"#, "v"), Some(None));
    assert_eq!(json_number(b"[", "v"), None);
}

#[test]
fn assets_are_listed_by_their_folder() {
    let assets = Assets;
    assert_eq!(assets.paths().len(), 15);
    assert_eq!(assets.find(ICON_CAT), Some(0));
    assert_eq!(assets.find("icons/none.svg"), None);
    assert_eq!(assets.list("icons").len(), 15);
    assert!(assets.list("fonts").is_empty());
    assert!(assets.paths().contains(&ICON_SAVE));
}

#[test]
fn the_matrix_switches_routes() {
    let sides = vec![DeviceSide { name: "USB".into(), sample_rate: 48_000, channel_count: 2 }];
    let devices = enumerate_all(&sides, &sides);
    let mut matrix = RoutingMatrix::from_devices(&devices);
    assert!(!matrix.is_enabled(0, 0));
    assert!(matrix.toggle(0, 0));
    assert!(matrix.is_enabled(0, 0));
    assert_eq!(number(matrix.gain(0, 0)), 1.0);
    assert!(matrix.set_gain(0, 0, scalar(9.0)));
    assert_eq!(number(matrix.gain(0, 0)), 2.0);
    assert_eq!(matrix.snapshot().len(), 1);
    assert!(matrix.toggle(0, 0));
    assert!(!matrix.is_enabled(0, 0));
    assert!(!matrix.toggle(99, 0));
    let inputs = matrix.inputs.len();
    matrix.add_input(ChannelId::Virtual("More".into()));
    assert_eq!(matrix.inputs.len(), inputs + 1);
    assert_eq!(matrix.inputs[inputs].label(), "More");
    assert!(matrix.inputs[inputs].is_virtual());
    let outputs = matrix.outputs.len();
    matrix.add_output(ChannelId::Physical("Line".into()));
    assert_eq!(matrix.outputs.len(), outputs + 1);
    assert!(!matrix.outputs[outputs].is_virtual());
    assert!(matrix.toggle(inputs, outputs), "the new channels can be routed");
    let routes = matrix.snapshot();
    assert_eq!(routes.len(), 1);
    assert_eq!(routes[0].src.label(), "More");
    assert_eq!(routes[0].dst.label(), "Line");
    let mut manager = VirtualIoManager::with_defaults();
    let count = manager.channels.len();
    manager.add(Direction::Output, "Extra");
    assert_eq!(manager.channels.len(), count + 1);
    manager.remove(count);
    manager.remove(99);
    assert_eq!(manager.channels.len(), count);
}

#[test]
fn rings_carry_samples_in_order() {
    let (mut producer, mut consumer) = RingPair::new(4);
    let samples: Vec<Scalar> = [0.1f32, 0.2, 0.3].iter().map(|s| scalar(*s)).collect();
    assert_eq!(producer.push_slice(&samples), 3);
    assert_eq!(producer.push_slice(&samples), 1);
    let mut buffer = vec![Scalar::zero(); 8];
    assert_eq!(consumer.read_into(&mut buffer), 4);
    let read: Vec<f32> = buffer.iter().map(|s| number(*s)).collect();
    assert_eq!(read[0..4], [0.1, 0.2, 0.3, 0.1]);
    assert!(matches!(started(), EngineEvent::Started { sample_rate: 48_000, .. }));
    assert!(!goes_on(&Some(EngineCommand::Shutdown)));
    assert!(goes_on(&Some(EngineCommand::UpdateMatrix(Vec::new()))));
}

fn sums(
    snapshot: &Vec<Route>,
    inputs: &Vec<ChannelId>,
    outputs: &Vec<ChannelId>,
    samples: &[Vec<f32>],
    frames: usize,
) -> Vec<Vec<Scalar>> {
    (0..outputs.len())
        .map(|output| {
            let terms = mix_terms(snapshot, inputs, outputs, output);
            (0..frames)
                .map(|at| {
                    scalar(
                        terms
                            .iter()
                            .map(|(input, gain)| number(*gain) * samples[*input][at])
                            .sum(),
                    )
                })
                .collect()
        })
        .collect()
}

#[test]
fn a_mix_follows_the_enabled_routes() {
    let mic = ChannelId::Physical("Mic".into());
    let desk = ChannelId::Virtual("Mic".into());
    let away = ChannelId::Physical("Away".into());
    let inputs = vec![mic.clone(), desk.clone()];
    let outputs = vec![ChannelId::Physical("A1".into()), ChannelId::Virtual("B1".into())];
    let mut half = Route::new(desk.clone(), outputs[0].clone());
    half.gain_linear = scalar(0.5);
    let mut off = Route::new(mic.clone(), outputs[1].clone());
    off.enabled = false;
    let mut snapshot = vec![
        Route::new(mic.clone(), outputs[0].clone()),
        half,
        off,
        Route::new(away, outputs[1].clone()),
    ];
    assert_eq!(
        mix_terms(&snapshot, &inputs, &outputs, 0),
        vec![(0, scalar(1.0)), (1, scalar(0.5))]
    );
    assert_eq!(mix_terms(&snapshot, &inputs, &outputs, 1), Vec::new());

    let samples = [vec![0.25, -0.5], vec![1.0, 0.5]];
    let mut buffers = vec![vec![scalar(0.0); 2]; 2];
    let mixed = sums(&snapshot, &inputs, &outputs, &samples, 2);
    mix(&snapshot, &inputs, &outputs, &mixed, &mut buffers);
    assert_eq!(buffers[0], vec![scalar(0.75), scalar(-0.25)]);
    assert_eq!(buffers[1], vec![scalar(0.0), scalar(0.0)]);

    let before = mix_terms(&snapshot, &inputs, &outputs, 0);
    snapshot.push(Route::new(desk, outputs[1].clone()));
    assert_eq!(mix_terms(&snapshot, &inputs, &outputs, 0), before);
    assert_eq!(mix_terms(&snapshot, &inputs, &outputs, 1), vec![(1, scalar(1.0))]);
    let mut buffers = vec![vec![scalar(0.0); 2]; 2];
    let mixed = sums(&snapshot, &inputs, &outputs, &samples, 2);
    mix(&snapshot, &inputs, &outputs, &mixed, &mut buffers);
    assert_eq!(buffers[1], vec![scalar(1.0), scalar(0.5)]);
}

#[test]
fn an_output_without_routes_stays_as_it_is() {
    let outputs = vec![ChannelId::Physical("A1".into())];
    let mut buffers = vec![vec![scalar(1.0); 2]];
    let silence = vec![vec![scalar(0.0); 2]];
    mix(&Vec::new(), &Vec::new(), &outputs, &silence, &mut buffers);
    assert_eq!(buffers[0], vec![scalar(1.0), scalar(1.0)]);
}

#[test]
fn extensions_are_replaced_as_paths_have_them() {
    let cases = [
        ("/a/b.json", "txt"),
        ("/a/b", "txt"),
        ("/a/b/", "txt"),
        ("/a/b.c/.", "txt"),
        ("a.b/c", "txt"),
        ("a.b.c", "txt"),
        ("x\\.y/z", "json.bak"),
        (".hidden", "bak"),
        ("foo.", "txt"),
        ("foo.txt", ""),
        ("..", "txt"),
        ("a/..", "txt"),
        ("/", "txt"),
        ("", "txt"),
    ];
    for (path, extension) in cases {
        let expected = std::path::Path::new(path).with_extension(extension);
        assert_eq!(
            with_extension(path, extension),
            expected.display().to_string(),
            "{path:?} with {extension:?}"
        );
    }
    assert_eq!(with_extension("/a/b/", "txt"), "/a/b.txt");
    assert_eq!(with_extension("..", "txt"), "..");
    assert_eq!(with_extension(".hidden", "bak"), ".hidden.bak");
    assert_eq!(with_extension("x\\.y/z", "bak"), "x\\.y/z.bak");
}

#[test]
fn texts_are_cut_and_read() {
    assert_eq!(trim("\u{2003} a b\t\n"), "a b");
    assert_eq!(decimal_text(u64::MAX), u64::MAX.to_string());
    assert_eq!(parse_number("42", 100), Some(42));
    assert_eq!(parse_number("+42", 100), Some(42));
    assert_eq!(parse_number("101", 100), None);
    assert_eq!(parse_number("", 100), None);
    assert!(starts_with("orion.x", "orion."));
    assert_eq!(strip_prefix("orion.x", "orion."), Some("x"));
    assert!(contains_text("abcabd", "abd"));
    assert!(!contains_text("abc", "abd"));
    assert_eq!(find_last("a/b/c", '/'), Some(3));
    assert_eq!(after_last("a/b/c", '/'), "c");
    assert_eq!(split_words(" a  bc\td "), vec!["a", "bc", "d"]);
    assert_eq!(truncate_label("abc", 0), "…");
}

#[test]
fn tables_keep_one_entry_for_a_key() {
    let mut table: Table<u32, &str> = Table::new();
    table.insert(1, "a");
    table.insert(2, "b");
    table.insert(1, "c");
    assert_eq!(table.len(), 2);
    assert_eq!(table.get(&1), Some(&"c"));
    assert_eq!(table.key_at(1), 2);
    assert_eq!(table.remove(&1), Some("c"));
    assert_eq!(table.remove(&1), None);
    assert!(!table.is_empty());
}

#[test]
fn numbers_are_ordered_by_their_patterns() {
    let values = [
        f32::NEG_INFINITY,
        -1.5,
        -0.0,
        0.0,
        1.0e-40,
        0.25,
        1.0,
        f32::MAX,
        f32::INFINITY,
    ];
    for left in values {
        for right in values {
            assert_eq!(scalar(left).less(scalar(right)), left < right);
            assert_eq!(scalar(left).at_most(scalar(right)), left <= right);
            assert_eq!(scalar(left).same_value(scalar(right)), left == right);
        }
        assert_eq!(scalar(left).is_finite(), left.is_finite());
        assert_eq!(
            scalar(left).clamp(scalar(-1.0), scalar(0.5)).bits,
            left.clamp(-1.0, 0.5).to_bits()
        );
        assert_eq!(number(scalar(left).abs()), left.abs());
    }
    assert!(scalar(f32::NAN).is_nan());
    assert!(!scalar(f32::NAN).at_most(scalar(1.0)));
}

fn perform(
    files: &mut std::collections::HashMap<String, Vec<u8>>,
    steps: &[SaveStep],
    written: &[u8],
) {
    for step in steps {
        match step {
            SaveStep::WriteDocument { to } => {
                files.insert(to.clone(), written.to_vec());
            }
            SaveStep::Copy { from, to } => {
                let bytes = files[from].clone();
                files.insert(to.clone(), bytes);
            }
            SaveStep::Rename { from, to } => {
                let bytes = files.remove(from).expect("written before");
                files.insert(to.clone(), bytes);
            }
            SaveStep::CreateDirectory | SaveStep::Sync { .. } | SaveStep::SyncDirectory => {}
        }
    }
}

#[test]
fn a_load_after_a_save_gives_the_document_back() {
    let path = "/home/u/.config/orion/settings.json";
    let mut files = std::collections::HashMap::new();
    let mut before: Vec<u8> = Vec::new();
    for name in ["One", "Two"] {
        let saved = document(vec![named_scene(name)], 0);
        let written = format!("{{\"schema_version\": 2, \"name\": \"{name}\"}}\n").into_bytes();
        let temporary = temporary_path(path);
        let backup_temporary = temporary_path(&backup_path(path));
        let exists = files.contains_key(path);
        let steps = save_steps(&saved, path, true, exists, &temporary, &backup_temporary)
            .unwrap_or_else(|error| panic!("{}", error.message()));
        perform(&mut files, &steps, &written);
        assert_eq!(files[path], written);
        assert_eq!(files.len(), if exists { 2 } else { 1 }, "nothing else is left behind");
        if exists {
            assert_eq!(files[&backup_path(path)], before);
        }

        assert!(matches!(begin_load(files.contains_key(path)), LoadStep::ReadPrimary));
        let (kind, digest) = inspect_file(&files[path]);
        assert_eq!(kind, FileKind::Current);
        assert_eq!(digest, content_digest(&written));
        let routes = saved.routes.clone();
        let read = load_file(path, kind, digest, Ok(saved));
        assert!(matches!(
            after_primary(read, exists),
            LoadStep::Done(Ok(loaded)) if loaded.document.routes == routes
                && loaded.document.scenes[0].name == name
                && loaded.source == LoadSource::Primary
                && loaded.digest == content_digest(&written)
        ));
        before = written;
    }
}

#[test]
fn a_saved_mixer_comes_back() {
    let mut state = AppState::new(Vec::new());
    let (mic, speakers) = (EndpointId::new(), EndpointId::new());
    let mut source = SourceStrip::new("Deck", "", SourceKind::Application, ChannelColor::Pink, 1);
    source.endpoint_id = Some(mic);
    source.endpoint_name = Some("USB deck".into());
    source.gain_db = scalar(-6.5);
    source.muted = true;
    source.delay_ms = scalar(12.0);
    source.eq.mid_db = scalar(3.0);
    source.routes = vec![true];
    let mut bus = OutputBus::new("A9", "Room", "", BusKind::Virtual, ChannelColor::Amber);
    bus.endpoint_id = Some(speakers);
    bus.gain_db = scalar(-1.0);
    state.sources = vec![source];
    state.outputs = vec![bus];
    state.master_muted = true;
    state.audio_overridden = true;
    state.sample_rate = 96_000;
    state.capture_scene(0);

    let document = document_of(&state);
    assert_eq!(document.schema_version, SCHEMA_VERSION);
    assert_eq!(document.sources[0].kind, "application");
    assert_eq!(document.outputs[0].kind, "virtual");
    assert_eq!(document.sources[0].color, 0xF472B6);
    assert_eq!(document.routes, vec![PersistedRoute { source: mic, destination: speakers }]);
    assert_eq!(document.settings.sample_rate, 96_000);

    let mut back = AppState::new(Vec::new());
    apply(&mut back, &document);
    assert!(!back.dirty);
    assert!(back.master_muted && back.audio_overridden);
    assert_eq!(back.sample_rate, 96_000);
    assert_eq!((back.sources.len(), back.outputs.len()), (1, 1));
    let source = &back.sources[0];
    assert_eq!(source.name, "Deck");
    assert_eq!(source.kind, SourceKind::Application);
    assert_eq!(source.color, ChannelColor::Pink);
    assert_eq!(source.endpoint_id, Some(mic));
    assert_eq!(source.endpoint_name.as_deref(), Some("USB deck"));
    assert_eq!(number(source.gain_db), -6.5);
    assert!(source.muted && source.user_bound);
    assert_eq!(number(source.delay_ms), 12.0);
    assert_eq!(number(source.eq.mid_db), 3.0);
    assert_eq!(source.routes, vec![true]);
    assert_eq!(back.outputs[0].code, "A9");
    assert_eq!(back.outputs[0].kind, BusKind::Virtual);
    assert_eq!(back.outputs[0].endpoint_id, Some(speakers));
    let kept = back.scenes[0].snapshot.as_ref().expect("kept");
    assert_eq!(number(kept.sources[0].gain_db), -6.5);
    assert_eq!(kept.routes.len(), 1);
}

#[test]
fn an_empty_document_leaves_the_mixer_as_it_is() {
    let mut state = AppState::new(Vec::new());
    let (sources, scenes, rate) = (state.sources.len(), state.scenes.len(), state.sample_rate);
    apply(&mut state, &SessionDocument::default());
    assert_eq!(state.sources.len(), sources);
    assert_eq!(state.scenes.len(), scenes);
    assert_eq!(state.sample_rate, rate);
    assert!(!state.audio_overridden);
    apply(&mut state, &document(vec![named_scene("Only")], 7));
    assert_eq!(state.selected_scene, 0, "a scene that is not there is not selected");
    assert_eq!(state.scenes[0].name, "Only");
    assert!(state.scenes[0].snapshot.is_none());
}
