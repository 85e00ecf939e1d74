use pulseseek::entries::{
    browser_entry_to_data, folder_chunk, BrowserEntry, EntryKind, PlayableFileMetadata,
};
use pulseseek::MAX_JAVASCRIPT_SAFE_INTEGER;

fn entry(id: &str, name: &str, kind: EntryKind) -> BrowserEntry {
    BrowserEntry { id: id.to_string(), name: name.to_string(), kind, has_subfolders: None, metadata: None }
}

fn converts_folder() {
    let mut folder = entry("/music/beats", "beats", EntryKind::Folder);
    folder.has_subfolders = Some(false);
    let data = browser_entry_to_data(&folder);
    assert_eq!(data.id, "/music/beats");
    assert_eq!(data.name, "beats");
    assert_eq!(data.kind, "folder");
    assert_eq!(data.has_subfolders, Some(false));
}

#[test]
fn folder_enumeration_service_browser_entry_to_data_converts_folder() {
    converts_folder();
}

#[test]
fn tests_browser_entry_to_data_converts_folder() {
    converts_folder();
}

fn converts_playable() {
    let data = browser_entry_to_data(&entry("/music/kick.wav", "kick.wav", EntryKind::PlayableFile));
    assert_eq!(data.kind, "playable");
}

#[test]
fn folder_enumeration_service_browser_entry_to_data_converts_playable() {
    converts_playable();
}

#[test]
fn tests_browser_entry_to_data_converts_playable() {
    converts_playable();
}

fn emits_correct_event() {
    let entries = vec![entry("/a.wav", "a.wav", EntryKind::PlayableFile)];

    let payload = folder_chunk("sid-1", &entries, false, false);

    assert_eq!(payload.session_id, "sid-1");
    assert_eq!(payload.entries.len(), 1);
    assert!(!payload.done);
}

#[test]
fn folder_enumeration_service_emit_folder_chunk_emits_correct_event() {
    emits_correct_event();
}

#[test]
fn tests_emit_folder_chunk_emits_correct_event() {
    emits_correct_event();
}

fn done_flag() {
    let payload = folder_chunk("sid-1", &Vec::new(), true, true);
    assert!(payload.done);
    assert!(payload.folders_done);
}

#[test]
fn folder_enumeration_service_emit_folder_chunk_done_flag() {
    done_flag();
}

#[test]
fn tests_emit_folder_chunk_done_flag() {
    done_flag();
}

fn serializes_partial_metadata() {
    let mut song = entry("/music/song.mp3", "song.mp3", EntryKind::PlayableFile);
    song.metadata = Some(PlayableFileMetadata {
        duration_ms: Some(61_000),
        size_bytes: Some(1_572_864),
        modified_at_ms: None,
        channels: Some(2),
        sample_rate: Some(44_100),
        bit_depth: None,
        codec: Some("MP3".to_string()),
    });

    let data = browser_entry_to_data(&song);

    let metadata = data.metadata.expect("metadata should be serialized");
    assert_eq!(metadata.duration_ms, Some(61_000));
    assert_eq!(metadata.modified_at_ms, None);
    assert_eq!(metadata.codec.as_deref(), Some("MP3"));
}

#[test]
fn folder_enumeration_service_browser_entry_to_data_serializes_partial_metadata() {
    serializes_partial_metadata();
}

#[test]
fn tests_browser_entry_to_data_serializes_partial_metadata() {
    serializes_partial_metadata();
}

fn omits_javascript_unsafe_integers() {
    let mut huge = entry("/music/huge.wav", "huge.wav", EntryKind::PlayableFile);
    huge.metadata = Some(PlayableFileMetadata {
        duration_ms: None,
        size_bytes: Some(MAX_JAVASCRIPT_SAFE_INTEGER + 1),
        modified_at_ms: None,
        channels: None,
        sample_rate: None,
        bit_depth: None,
        codec: None,
    });

    let data = browser_entry_to_data(&huge);

    assert_eq!(data.metadata.expect("metadata").size_bytes, None);
}

#[test]
fn folder_enumeration_service_browser_entry_to_data_omits_javascript_unsafe_integers() {
    omits_javascript_unsafe_integers();
}

#[test]
fn tests_browser_entry_to_data_omits_javascript_unsafe_integers() {
    omits_javascript_unsafe_integers();
}

#[test]
fn only_folders_report_subfolders_and_only_playable_files_report_metadata() {
    let mut file = entry("/x.txt", "x.txt", EntryKind::UnsupportedFile);
    file.has_subfolders = Some(true);
    file.metadata = Some(PlayableFileMetadata {
        duration_ms: Some(1),
        size_bytes: None,
        modified_at_ms: None,
        channels: None,
        sample_rate: None,
        bit_depth: None,
        codec: None,
    });
    let data = browser_entry_to_data(&file);
    assert_eq!(data.kind, "unsupported");
    assert_eq!(data.has_subfolders, None);
    assert!(data.metadata.is_none());
    assert_eq!(browser_entry_to_data(&entry("/locked", "locked", EntryKind::Inaccessible)).kind, "inaccessible");
    let boundary = PlayableFileMetadata {
        duration_ms: Some(MAX_JAVASCRIPT_SAFE_INTEGER),
        size_bytes: None,
        modified_at_ms: Some(u64::MAX),
        channels: None,
        sample_rate: None,
        bit_depth: Some(24),
        codec: None,
    };
    let mut wav = entry("/b.wav", "b.wav", EntryKind::PlayableFile);
    wav.metadata = Some(boundary);
    let metadata = browser_entry_to_data(&wav).metadata.unwrap();
    assert_eq!(metadata.duration_ms, Some(MAX_JAVASCRIPT_SAFE_INTEGER));
    assert_eq!(metadata.modified_at_ms, None);
    assert_eq!(metadata.bit_depth, Some(24));
}
