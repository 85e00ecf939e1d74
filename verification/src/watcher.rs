//! Decisions of the folder watcher: which debounced file-system events can
//! change what the browser shows, and what a batch of them calls for.
use vstd::prelude::*;

use crate::text::{chars_equal, chars_of};

verus! {

/// The kind of a file-system event, as far as the watcher tells kinds apart.
#[derive(Clone, Copy, Debug, PartialEq, Eq, Structural)]
pub enum ChangeKind {
    Any,
    Access,
    Create,
    Modify { metadata_only: bool },
    Remove,
    Other,
}

/// Events that can change the listed entries or the audio bytes. Reads and
/// metadata-only changes are left out: enumeration itself causes them, and
/// feeding them back would refresh forever.
pub open spec fn content_change(kind: ChangeKind) -> bool {
    match kind {
        ChangeKind::Any | ChangeKind::Create | ChangeKind::Remove => true,
        ChangeKind::Modify { metadata_only } => !metadata_only,
        ChangeKind::Access | ChangeKind::Other => false,
    }
}

/// Whether an event can change what the browser shows.
pub fn is_content_change(kind: ChangeKind) -> (result: bool)
    ensures
        result == content_change(kind),
{
    match kind {
        ChangeKind::Any | ChangeKind::Create | ChangeKind::Remove => true,
        ChangeKind::Modify { metadata_only } => !metadata_only,
        ChangeKind::Access | ChangeKind::Other => false,
    }
}

/// Creations, modifications and removals can leave a stale cached waveform.
pub open spec fn stales_cache(kind: ChangeKind) -> bool {
    kind is Create || kind is Modify || kind is Remove
}

/// Whether an event's paths may have left a stale cached waveform.
pub fn invalidates_cache(kind: ChangeKind) -> (result: bool)
    ensures
        result == stales_cache(kind),
{
    match kind {
        ChangeKind::Create | ChangeKind::Modify { .. } | ChangeKind::Remove => true,
        _ => false,
    }
}

/// One path of an event, normalized, with its normalized parent if it has one.
pub struct EventPath {
    pub path: String,
    pub parent: Option<String>,
}

/// An event touches the watched folder when one of its paths is the folder
/// or a direct child of it; deeper changes and those of an earlier watch do not.
pub open spec fn touches_folder(paths: Seq<EventPath>, watched: Seq<char>) -> bool {
    exists|i: int| 0 <= i < paths.len() && #[trigger] hits(paths[i], watched)
}

/// A path is the folder, or its parent is.
pub open spec fn hits(entry: EventPath, watched: Seq<char>) -> bool {
    entry.path@ == watched || (entry.parent matches Some(p) && p@ == watched)
}

/// Whether an event touches the watched folder.
pub fn affects_watched_folder(paths: &Vec<EventPath>, watched: &str) -> (result: bool)
    ensures
        result == touches_folder(paths@, watched@),
{
    let target = chars_of(watched);
    let mut i: usize = 0;
    while i < paths.len()
        invariant
            i <= paths@.len(),
            target@ == watched@,
            forall|k: int| 0 <= k < i ==> !#[trigger] hits(paths@[k], watched@),
        decreases paths@.len() - i,
    {
        let entry = &paths[i];
        let path_hit = chars_equal(&chars_of(entry.path.as_str()), &target);
        let parent_hit = match &entry.parent {
            Some(parent) => chars_equal(&chars_of(parent.as_str()), &target),
            None => false,
        };
        assert(path_hit == (paths@[i as int].path@ == watched@));
        assert(parent_hit == (paths@[i as int].parent matches Some(p) && p@ == watched@));
        if path_hit || parent_hit {
            assert(hits(paths@[i as int], watched@));
            return true;
        }
        assert(!hits(paths@[i as int], watched@));
        i = i + 1;
    }
    false
}

/// One debounced event: its kind, and whether it touches the watched folder.
#[derive(Clone, Copy, Debug, PartialEq, Eq, Structural)]
pub struct DebouncedEvent {
    pub kind: ChangeKind,
    pub touches_watched: bool,
}

/// An event that counts for a refresh.
pub open spec fn relevant(event: DebouncedEvent) -> bool {
    content_change(event.kind) && event.touches_watched
}

/// What a debounced batch calls for.
#[derive(Clone, Debug, PartialEq, Eq)]
pub enum BatchAction {
    /// Nothing relevant happened, or nothing is watched.
    Ignore,
    /// Drop the cached waveforms for the paths of these events, then emit one
    /// refresh for the watched folder.
    Refresh { invalidate: Vec<usize> },
}

/// The positions of the relevant events of a batch that stale the cache.
pub open spec fn stale_positions(events: Seq<DebouncedEvent>) -> Seq<usize>
    decreases events.len(),
{
    if events.len() == 0 {
        Seq::empty()
    } else {
        let rest = stale_positions(events.drop_last());
        let last = events.last();
        if relevant(last) && stales_cache(last.kind) {
            rest.push((events.len() - 1) as usize)
        } else {
            rest
        }
    }
}

/// Decides what a debounced batch calls for: without a watched folder or
/// a relevant event, nothing; otherwise invalidate the cache for the
/// relevant events that can stale it (in order) and refresh once.
pub fn batch_action(watching: bool, events: &Vec<DebouncedEvent>) -> (action: BatchAction)
    ensures
        !watching || !(exists|i: int| 0 <= i < events@.len() && relevant(#[trigger] events@[i])) ==> action
            == BatchAction::Ignore,
        watching && (exists|i: int| 0 <= i < events@.len() && relevant(#[trigger] events@[i])) ==> (action matches BatchAction::Refresh { invalidate }
            && invalidate@ == stale_positions(events@)),
{
    if !watching {
        return BatchAction::Ignore;
    }
    let mut any = false;
    let mut invalidate: Vec<usize> = Vec::new();
    let mut i: usize = 0;
    while i < events.len()
        invariant
            i <= events@.len(),
            any == exists|k: int| 0 <= k < i && relevant(#[trigger] events@[k]),
            invalidate@ == stale_positions(events@.take(i as int)),
        decreases events@.len() - i,
    {
        let event = events[i];
        assert(events@.take(i + 1).drop_last() == events@.take(i as int));
        let counts = is_content_change(event.kind) && event.touches_watched;
        if counts {
            any = true;
            if invalidates_cache(event.kind) {
                invalidate.push(i);
            }
        }
        proof {
            if !counts {
                assert forall|k: int| 0 <= k < i + 1 && relevant(#[trigger] events@[k]) implies k < i by {}
            }
        }
        i = i + 1;
    }
    assert(events@.take(events@.len() as int) == events@);
    if any {
        BatchAction::Refresh { invalidate }
    } else {
        BatchAction::Ignore
    }
}

} // verus!
