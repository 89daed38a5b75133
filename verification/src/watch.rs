//! The change source: which file-system events matter, and which reads of
//! the watched file are a change of state.
//!
//! The directory of the file is watched, so events arrive for its siblings
//! too, and an editor that saves a file raises several events in a row. An
//! event is followed by a fresh read of the file only if it names the file
//! and may have changed its content; a read is published only if it differs
//! from the content published last.

use crate::error::{ErrorData, ErrorLink};
use crate::text::text_eq;
use vstd::prelude::*;

verus! {

/// What an event says happened to data that was modified.
#[derive(Clone, Copy, Debug, PartialEq, Eq, Structural)]
pub enum ModifyKind {
    Any,
    Data,
    Metadata,
    Name,
    Other,
}

/// What an event says happened.
#[derive(Clone, Copy, Debug, PartialEq, Eq, Structural)]
pub enum EventKind {
    Any,
    Access,
    Create,
    Modify(ModifyKind),
    Remove,
    Other,
}

/// A file-system event: what happened, and to which paths. A path is held
/// as the bytes of its name, so that no two paths are taken for one.
#[derive(Debug, PartialEq, Eq)]
pub struct FsEvent {
    pub kind: EventKind,
    pub paths: Vec<Vec<u8>>,
}

/// Whether an event of this kind can have changed what a file holds. Reading
/// a file, and changing only what is recorded about it, cannot.
pub open spec fn may_change_content(kind: EventKind) -> bool {
    kind != EventKind::Access && kind != EventKind::Modify(ModifyKind::Metadata)
}

/// Whether one of `paths` is `target`, byte for byte.
pub open spec fn names(paths: Seq<Vec<u8>>, target: Seq<u8>) -> bool {
    exists|i: int| 0 <= i < paths.len() && (#[trigger] paths[i])@ == target
}

/// Whether two paths are the same, byte for byte.
fn same_path(path: &Vec<u8>, target: &[u8]) -> (same: bool)
    ensures
        same == (path@ == target@),
{
    if path.len() != target.len() {
        return false;
    }
    let mut i: usize = 0;
    while i < path.len()
        invariant
            i <= path.len(),
            path.len() == target.len(),
            forall|j: int| 0 <= j < i ==> path[j] == target[j],
        decreases path.len() - i,
    {
        if path[i] != target[i] {
            return false;
        }
        i += 1;
    }
    assert(path@ =~= target@);
    true
}

/// Whether the watched file has to be read again after `event`.
pub open spec fn is_relevant(event: FsEvent, target: Seq<u8>) -> bool {
    names(event.paths@, target) && may_change_content(event.kind)
}

/// Decides whether a notification is followed by a read of the file at
/// `target`. A notification that only reports a fault of the watcher is not.
pub fn should_reread(notification: &Result<FsEvent, String>, target: &[u8]) -> (r: bool)
    ensures
        r == match notification {
            Ok(event) => is_relevant(*event, target@),
            Err(_) => false,
        },
{
    match notification {
        Err(_) => false,
        Ok(event) => {
            let mut named = false;
            let mut i: usize = 0;
            while i < event.paths.len() && !named
                invariant
                    i <= event.paths.len(),
                    named ==> names(event.paths@, target@),
                    !named ==> forall|j: int|
                        0 <= j < i ==> (#[trigger] event.paths@[j])@ != target@,
                decreases event.paths.len() - i,
            {
                if same_path(&event.paths[i], target) {
                    named = true;
                }
                i += 1;
            }
            if !named {
                return false;
            }
            match event.kind {
                EventKind::Access => false,
                EventKind::Modify(ModifyKind::Metadata) => false,
                _ => true,
            }
        },
    }
}

/// The latest known content of the watched file, or why it could not be read.
#[derive(Debug, PartialEq, Eq)]
pub enum WatchedState {
    Content(String),
    Failed(ErrorData),
}

/// The mathematical value of a [`WatchedState`].
pub ghost enum StateView {
    Content(Seq<char>),
    Failed(Seq<ErrorLink>),
}

impl View for WatchedState {
    type V = StateView;

    open spec fn view(&self) -> StateView {
        match self {
            WatchedState::Content(text) => StateView::Content(text@),
            WatchedState::Failed(error) => StateView::Failed(error@),
        }
    }
}

/// The state that a read of the file stands for.
pub open spec fn state_of(read: Result<String, ErrorData>) -> StateView {
    match read {
        Ok(text) => StateView::Content(text@),
        Err(error) => StateView::Failed(error@),
    }
}

/// Whether a read repeats the content that was published last. A failed read
/// never repeats anything: each failure is published.
pub open spec fn repeats(previous: Option<Seq<char>>, read: StateView) -> bool {
    match read {
        StateView::Content(text) => previous == Some(text),
        StateView::Failed(_) => false,
    }
}

/// The content to compare the next read with, after `read` was published.
pub open spec fn content_of(read: StateView) -> Option<Seq<char>> {
    match read {
        StateView::Content(text) => Some(text),
        StateView::Failed(_) => None,
    }
}

/// The change source between two reads.
pub ghost struct SourceView {
    /// The content published last, unless it was a failure.
    pub previous: Option<Seq<char>>,
    /// Whether the source has given up its watch.
    pub released: bool,
}

/// What is published after a read, if anything.
pub open spec fn update_after(source: SourceView, read: StateView) -> Option<StateView> {
    if source.released || repeats(source.previous, read) {
        None
    } else {
        Some(read)
    }
}

/// The source after a read.
pub open spec fn source_after(source: SourceView, read: StateView) -> SourceView {
    if source.released || repeats(source.previous, read) {
        source
    } else {
        SourceView { previous: content_of(read), released: false }
    }
}

/// Follows one file and tells changes of its content from repeated reads.
pub struct ChangeSource {
    previous: Option<String>,
    released: bool,
}

impl View for ChangeSource {
    type V = SourceView;

    closed spec fn view(&self) -> SourceView {
        SourceView {
            previous: match self.previous {
                Some(text) => Some(text@),
                None => None,
            },
            released: self.released,
        }
    }
}

impl ChangeSource {
    /// Starts from the content read at startup, which is the first state.
    pub fn new(initial: String) -> (started: (ChangeSource, WatchedState))
        ensures
            started.0@ == (SourceView { previous: Some(initial@), released: false }),
            started.1@ == StateView::Content(initial@),
    {
        (ChangeSource { previous: Some(initial.clone()), released: false }, WatchedState::Content(initial))
    }

    /// Takes the result of reading the file again. Returns the new state if
    /// there is one to publish, and nothing if the read repeats the content
    /// published last or the watch was given up.
    pub fn observe(&mut self, read: Result<String, ErrorData>) -> (update: Option<WatchedState>)
        ensures
            final(self)@ == source_after(old(self)@, state_of(read)),
            match update {
                Some(state) => update_after(old(self)@, state_of(read)) == Some(state@),
                None => update_after(old(self)@, state_of(read)) is None,
            },
    {
        if self.released {
            return None;
        }
        match read {
            Ok(text) => {
                let repeat = match &self.previous {
                    Some(previous) => text_eq(previous.as_str(), text.as_str()),
                    None => false,
                };
                if repeat {
                    None
                } else {
                    self.previous = Some(text.clone());
                    Some(WatchedState::Content(text))
                }
            },
            Err(error) => {
                self.previous = None;
                Some(WatchedState::Failed(error))
            },
        }
    }

    /// Takes note of whether a published state reached any reader. With no
    /// reader left the source gives up its watch, for good; the result says
    /// whether to go on watching.
    pub fn published(&mut self, delivered: bool) -> (watching: bool)
        ensures
            final(self)@.previous == old(self)@.previous,
            final(self)@.released == (old(self)@.released || !delivered),
            watching == !final(self)@.released,
    {
        if !delivered {
            self.released = true;
        }
        !self.released
    }

    /// Whether the watch was given up.
    pub fn is_released(&self) -> (released: bool)
        ensures
            released == self@.released,
    {
        self.released
    }
}

/// Reading the same content again publishes nothing and changes nothing,
/// however often it is done and whatever was published before. The content
/// read at startup counts as published.
pub proof fn law_unchanged_read_is_silent(source: SourceView, content: Seq<char>)
    ensures
        update_after(source_after(source, StateView::Content(content)), StateView::Content(content))
            is None,
        source_after(source_after(source, StateView::Content(content)), StateView::Content(content))
            == source_after(source, StateView::Content(content)),
        update_after(
            SourceView { previous: Some(content), released: false },
            StateView::Content(content),
        ) is None,
{
}

/// A failed read is published every time, also when the read before it
/// failed in the same way.
pub proof fn law_failure_is_always_published(source: SourceView, error: Seq<ErrorLink>)
    requires
        !source.released,
    ensures
        update_after(source, StateView::Failed(error)) == Some(StateView::Failed(error)),
        update_after(source_after(source, StateView::Failed(error)), StateView::Failed(error))
            == Some(StateView::Failed(error)),
{
}

} // verus!
