use runny_nose::config::config_path;
use runny_nose::config::join_config_file;
use runny_nose::events::EventKind;
use runny_nose::events::FsEvent;
use runny_nose::events::WatchError;
use runny_nose::settings::Settings;
use runny_nose::settings::load_settings;
use runny_nose::settings::save_settings;
use runny_nose::watch::Monitor;
use runny_nose::watch::WatchAction;

#[test]
fn startup_without_a_recorded_directory_arms_nothing() {
    let (monitor, actions) = Monitor::startup(Settings { replays_path: None });
    assert_eq!(actions, Vec::new());
    assert_eq!(monitor.armed_directory(), &None);
}

#[test]
fn startup_asks_to_arm_the_recorded_directory() {
    let settings = Settings { replays_path: Some(b"/replays".to_vec()) };
    let (monitor, actions) = Monitor::startup(settings);
    assert_eq!(actions, vec![WatchAction::Arm(b"/replays".to_vec())]);
    // The watch is not armed until the caller reports success.
    assert_eq!(monitor.armed_directory(), &None);
}

#[test]
fn cancelled_directory_pick_is_a_no_op() {
    let (mut monitor, _) = Monitor::startup(Settings { replays_path: None });
    let actions = monitor.select_directory(None);
    assert_eq!(actions, Vec::new());
    assert_eq!(monitor.current_settings(), &Settings { replays_path: None });
}

#[test]
fn rearming_disarms_the_previous_directory_first() {
    let (mut monitor, _) = Monitor::startup(Settings { replays_path: Some(b"/a".to_vec()) });
    monitor.arm_succeeded(b"/a".to_vec());
    let actions = monitor.select_directory(Some(b"/b".to_vec()));
    assert_eq!(
        actions,
        vec![
            WatchAction::Disarm(b"/a".to_vec()),
            WatchAction::Arm(b"/b".to_vec()),
            WatchAction::SaveSettings,
        ]
    );
    assert_eq!(
        monitor.current_settings(),
        &Settings { replays_path: Some(b"/b".to_vec()) }
    );
}

#[test]
fn after_switching_directories_in_flight_events_from_the_old_one_are_dropped() {
    let (mut monitor, _) = Monitor::startup(Settings { replays_path: Some(b"/a".to_vec()) });
    monitor.arm_succeeded(b"/a".to_vec());
    let _ = monitor.select_directory(Some(b"/b".to_vec()));
    monitor.arm_succeeded(b"/b".to_vec());
    // A notification from /a was still in the queue when the watch moved.
    let stale = FsEvent {
        kind: EventKind::Created,
        paths: vec![b"/a/battle123.wowsreplay".to_vec()],
    };
    assert_eq!(monitor.tick(Some(Ok(stale))), Vec::new());
    let fresh = FsEvent {
        kind: EventKind::Created,
        paths: vec![b"/b/battle123.wowsreplay".to_vec()],
    };
    assert_eq!(
        monitor.tick(Some(Ok(fresh))),
        vec![WatchAction::Dispatch(b"/b/battle123.wowsreplay".to_vec())]
    );
}

#[test]
fn first_run_scenario() {
    // The settings file is absent: defaults come back and a default file is
    // written.
    let (settings, write_default) = load_settings(None);
    assert_eq!(settings, Settings { replays_path: None });
    assert!(write_default);
    let mut disk = save_settings(&settings);

    // Nothing recorded, so nothing to arm.
    let (mut monitor, actions) = Monitor::startup(settings);
    assert_eq!(actions, Vec::new());

    // The user picks /replays: it is armed and persisted.
    let actions = monitor.select_directory(Some(b"/replays".to_vec()));
    assert_eq!(
        actions,
        vec![WatchAction::Arm(b"/replays".to_vec()), WatchAction::SaveSettings]
    );
    monitor.arm_succeeded(b"/replays".to_vec());
    disk = save_settings(monitor.current_settings());
    assert_eq!(disk, b"replays_path = \"/replays\"\n".to_vec());

    // battle123.wowsreplay appears: exactly one dispatch, with that path.
    let event = FsEvent {
        kind: EventKind::Created,
        paths: vec![b"/replays/battle123.wowsreplay".to_vec()],
    };
    assert_eq!(
        monitor.tick(Some(Ok(event))),
        vec![WatchAction::Dispatch(b"/replays/battle123.wowsreplay".to_vec())]
    );

    // battle123.tmp appears: no dispatch.
    let event = FsEvent {
        kind: EventKind::Created,
        paths: vec![b"/replays/battle123.tmp".to_vec()],
    };
    assert_eq!(monitor.tick(Some(Ok(event))), Vec::new());

    // The next run loads the persisted pick back.
    let (reloaded, write_default) = load_settings(Some(&disk));
    assert_eq!(reloaded.replays_path, Some(b"/replays".to_vec()));
    assert!(!write_default);
}

#[test]
fn arm_failure_leaves_nothing_armed() {
    let (mut monitor, actions) = Monitor::startup(Settings { replays_path: Some(b"/gone".to_vec()) });
    assert_eq!(actions, vec![WatchAction::Arm(b"/gone".to_vec())]);
    // The caller could not establish the watch (say the directory is gone)
    // and never reports success: the monitor stays disarmed and quiet.
    let event = FsEvent {
        kind: EventKind::Created,
        paths: vec![b"/gone/battle123.wowsreplay".to_vec()],
    };
    assert_eq!(monitor.tick(Some(Ok(event))), Vec::new());
    assert_eq!(monitor.armed_directory(), &None);
}

#[test]
fn queue_error_while_disarmed_does_nothing() {
    let (mut monitor, _) = Monitor::startup(Settings { replays_path: None });
    assert_eq!(monitor.tick(Some(Err(WatchError::Other))), Vec::new());
}

#[test]
fn the_settings_file_name_is_joined_onto_the_directory() {
    assert_eq!(
        join_config_file(b"/home/user/.config/runny_nose".to_vec()),
        b"/home/user/.config/runny_nose/config.toml".to_vec()
    );
    assert_eq!(join_config_file(Vec::new()), b"/config.toml".to_vec());
}

#[test]
fn config_path_names_the_settings_file() {
    // The per-user location exists on this machine only if a home directory
    // does; when it does, the path ends with the settings file's name.
    if let Some(path) = config_path() {
        assert!(path.ends_with(b"/config.toml"));
    }
}
