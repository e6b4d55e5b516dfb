use runny_nose::settings::Settings;
use runny_nose::settings::decode_settings;
use runny_nose::settings::is_valid_path;
use runny_nose::settings::load_settings;
use runny_nose::settings::save_settings;

#[test]
fn load_missing_file_yields_defaults_and_asks_for_a_write() {
    let (settings, write_default) = load_settings(None);
    assert_eq!(settings, Settings { replays_path: None });
    assert!(write_default);
}

#[test]
fn loading_twice_in_a_row_yields_the_same_result() {
    // First run: nothing on disk, defaults come back and are persisted.
    let (first, write_default) = load_settings(None);
    assert!(write_default);
    let written = save_settings(&first);
    // Second run: the persisted default document loads to the same settings,
    // and asks for no further write.
    let (second, write_again) = load_settings(Some(&written));
    assert_eq!(first, second);
    assert!(!write_again);
}

#[test]
fn load_corrupt_file_yields_defaults_and_does_not_write() {
    let corrupt = b"replays_path = not even quoted".to_vec();
    let (settings, write_default) = load_settings(Some(&corrupt));
    assert_eq!(settings, Settings { replays_path: None });
    assert!(!write_default);
}

#[test]
fn truncated_document_is_malformed() {
    let truncated = b"replays_path = \"/replays".to_vec();
    assert!(decode_settings(&truncated).is_none());
}

#[test]
fn document_with_trailing_garbage_is_malformed() {
    let garbled = b"replays_path = \"/replays\"\nextra = 1\n".to_vec();
    assert!(decode_settings(&garbled).is_none());
}

#[test]
fn save_then_load_round_trips() {
    let s = Settings { replays_path: Some(b"/replays".to_vec()) };
    let written = save_settings(&s);
    let (loaded, write_default) = load_settings(Some(&written));
    assert_eq!(loaded, s);
    assert!(!write_default);
}

#[test]
fn save_writes_the_one_key_document() {
    let s = Settings { replays_path: Some(b"/replays".to_vec()) };
    assert_eq!(save_settings(&s), b"replays_path = \"/replays\"\n".to_vec());
    let none = Settings { replays_path: None };
    assert_eq!(save_settings(&none), Vec::<u8>::new());
}

#[test]
fn empty_document_means_no_directory() {
    let s = decode_settings(&Vec::new()).unwrap();
    assert_eq!(s, Settings { replays_path: None });
}

#[test]
fn decode_reads_the_recorded_directory() {
    let doc = b"replays_path = \"/home/user/replays\"\n".to_vec();
    let s = decode_settings(&doc).unwrap();
    assert_eq!(s.replays_path, Some(b"/home/user/replays".to_vec()));
}

#[test]
fn paths_the_document_cannot_carry_are_rejected() {
    assert!(is_valid_path(&b"/replays".to_vec()));
    assert!(is_valid_path(&Vec::new()));
    assert!(!is_valid_path(&b"/re\"plays".to_vec()));
    assert!(!is_valid_path(&b"/re\\plays".to_vec()));
    assert!(!is_valid_path(&b"/re\nplays".to_vec()));
}
