//! Folder entries as the frontend receives them: the kind as a name, and
//! file metadata with every integer the frontend could not represent
//! exactly left out.
use vstd::prelude::*;

use crate::{js_safe_integer, MAX_JAVASCRIPT_SAFE_INTEGER};

verus! {

/// What a folder entry is.
#[derive(Clone, Copy, Debug, PartialEq, Eq, Structural)]
pub enum EntryKind {
    Folder,
    PlayableFile,
    UnsupportedFile,
    Inaccessible,
}

/// What probing a playable file found out; each part may be unknown.
pub struct PlayableFileMetadata {
    pub duration_ms: Option<u64>,
    pub size_bytes: Option<u64>,
    pub modified_at_ms: Option<u64>,
    pub channels: Option<u16>,
    pub sample_rate: Option<u32>,
    pub bit_depth: Option<u16>,
    pub codec: Option<String>,
}

/// One entry of an enumerated folder. Only a folder tells whether it has
/// subfolders, and only a playable file carries metadata.
pub struct BrowserEntry {
    pub id: String,
    pub name: String,
    pub kind: EntryKind,
    pub has_subfolders: Option<bool>,
    pub metadata: Option<PlayableFileMetadata>,
}

/// File metadata as the frontend receives it.
#[derive(Debug)]
pub struct PlayableFileMetadataData {
    pub duration_ms: Option<u64>,
    pub size_bytes: Option<u64>,
    pub modified_at_ms: Option<u64>,
    pub channels: Option<u16>,
    pub sample_rate: Option<u32>,
    pub bit_depth: Option<u16>,
    pub codec: Option<String>,
}

/// A folder entry as the frontend receives it.
#[derive(Debug)]
pub struct BrowserEntryData {
    pub id: String,
    pub name: String,
    pub kind: String,
    pub has_subfolders: Option<bool>,
    pub metadata: Option<PlayableFileMetadataData>,
}

/// One batch of an enumeration, as sent to the frontend.
#[derive(Debug)]
pub struct FolderChunkPayload {
    pub session_id: String,
    pub entries: Vec<BrowserEntryData>,
    pub folders_done: bool,
    pub done: bool,
}

/// The name the frontend knows a kind by.
pub open spec fn kind_text(kind: EntryKind) -> Seq<char> {
    match kind {
        EntryKind::Folder => "folder"@,
        EntryKind::PlayableFile => "playable"@,
        EntryKind::UnsupportedFile => "unsupported"@,
        EntryKind::Inaccessible => "inaccessible"@,
    }
}

/// A known integer survives only when the frontend represents it exactly.
pub open spec fn exact(value: Option<u64>) -> Option<u64> {
    match value {
        Some(v) => if v <= MAX_JAVASCRIPT_SAFE_INTEGER {
            Some(v)
        } else {
            None
        },
        None => None,
    }
}

/// The texts of an optional string.
pub open spec fn text_of(value: Option<String>) -> Option<Seq<char>> {
    match value {
        Some(s) => Some(s@),
        None => None,
    }
}

/// Whether `data` reports `metadata`.
pub open spec fn reports_metadata(data: PlayableFileMetadataData, metadata: PlayableFileMetadata) -> bool {
    &&& data.duration_ms == exact(metadata.duration_ms)
    &&& data.size_bytes == exact(metadata.size_bytes)
    &&& data.modified_at_ms == exact(metadata.modified_at_ms)
    &&& data.channels == metadata.channels
    &&& data.sample_rate == metadata.sample_rate
    &&& data.bit_depth == metadata.bit_depth
    &&& text_of(data.codec) == text_of(metadata.codec)
}

/// Whether `data` reports `entry`: its id, name and kind name, for a folder
/// whether it has subfolders, and for a playable file its metadata.
pub open spec fn reports_entry(data: BrowserEntryData, entry: BrowserEntry) -> bool {
    &&& data.id@ == entry.id@
    &&& data.name@ == entry.name@
    &&& data.kind@ == kind_text(entry.kind)
    &&& data.has_subfolders == (if entry.kind == EntryKind::Folder {
        entry.has_subfolders
    } else {
        None
    })
    &&& match (entry.kind, entry.metadata) {
        (EntryKind::PlayableFile, Some(metadata)) => data.metadata matches Some(d) && reports_metadata(
            d,
            metadata,
        ),
        _ => data.metadata is None,
    }
}

fn kind_name(kind: EntryKind) -> (name: String)
    ensures
        name@ == kind_text(kind),
{
    match kind {
        EntryKind::Folder => String::from_str("folder"),
        EntryKind::PlayableFile => String::from_str("playable"),
        EntryKind::UnsupportedFile => String::from_str("unsupported"),
        EntryKind::Inaccessible => String::from_str("inaccessible"),
    }
}

fn exact_integer(value: Option<u64>) -> (result: Option<u64>)
    ensures
        result == exact(value),
{
    match value {
        Some(v) => js_safe_integer(v),
        None => None,
    }
}

fn metadata_to_data(metadata: &PlayableFileMetadata) -> (data: PlayableFileMetadataData)
    ensures
        reports_metadata(data, *metadata),
{
    PlayableFileMetadataData {
        duration_ms: exact_integer(metadata.duration_ms),
        size_bytes: exact_integer(metadata.size_bytes),
        modified_at_ms: exact_integer(metadata.modified_at_ms),
        channels: metadata.channels,
        sample_rate: metadata.sample_rate,
        bit_depth: metadata.bit_depth,
        codec: match &metadata.codec {
            Some(codec) => Some(codec.clone()),
            None => None,
        },
    }
}

/// Converts a folder entry for the frontend.
pub fn browser_entry_to_data(entry: &BrowserEntry) -> (data: BrowserEntryData)
    ensures
        reports_entry(data, *entry),
{
    let metadata = match (entry.kind, &entry.metadata) {
        (EntryKind::PlayableFile, Some(metadata)) => Some(metadata_to_data(metadata)),
        _ => None,
    };
    let has_subfolders = match entry.kind {
        EntryKind::Folder => entry.has_subfolders,
        _ => None,
    };
    BrowserEntryData {
        id: entry.id.clone(),
        name: entry.name.clone(),
        kind: kind_name(entry.kind),
        has_subfolders,
        metadata,
    }
}

/// The payload of one enumeration batch, in the folder phase or the file
/// phase: every entry converted, in order.
pub fn folder_chunk(session_id: &str, entries: &Vec<BrowserEntry>, folders_done: bool, done: bool) -> (payload: FolderChunkPayload)
    ensures
        payload.session_id@ == session_id@,
        payload.folders_done == folders_done,
        payload.done == done,
        payload.entries@.len() == entries@.len(),
        forall|i: int| 0 <= i < entries@.len() ==> reports_entry(#[trigger] payload.entries@[i], entries@[i]),
{
    let mut data: Vec<BrowserEntryData> = Vec::new();
    let mut i: usize = 0;
    while i < entries.len()
        invariant
            i <= entries@.len(),
            data@.len() == i,
            forall|k: int| 0 <= k < i ==> reports_entry(#[trigger] data@[k], entries@[k]),
        decreases entries.len() - i,
    {
        data.push(browser_entry_to_data(&entries[i]));
        i = i + 1;
    }
    FolderChunkPayload { session_id: String::from_str(session_id), entries: data, folders_done, done }
}

} // verus!
