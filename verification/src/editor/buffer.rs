//! A text buffer with its undo history.
//!
//! A buffer remembers up to `MAX_HISTORY` earlier states. Saving a state
//! ends any chance to redo; undoing moves the present state onto the redo
//! stack and brings the latest saved state back; redoing does the reverse.

use vstd::prelude::*;
use std::collections::VecDeque;
use std::path::PathBuf;

verus! {

/// A path on disk. The buffer only carries it.
#[verifier::external_type_specification]
#[verifier::external_body]
pub struct ExPathBuf(PathBuf);

/// How many earlier states a buffer keeps.
pub const MAX_HISTORY: usize = 100;

/// A place in the text.
#[derive(Debug, Clone, Copy)]
pub struct Cursor {
    pub row: usize,
    pub col: usize,
}

/// A stretch of text between two places.
#[derive(Debug, Clone)]
pub struct Selection {
    pub start: Cursor,
    pub end: Cursor,
}

/// What the editor is doing with the keys it gets.
#[derive(Debug)]
pub enum Mode {
    Normal,
    Search,
    Replace,
    Visual,
    Input,
}

/// One place where the search text occurs: the columns from `start` up
/// to, but not including, `end` of one row.
#[derive(Debug, Clone, Copy)]
pub struct SearchMatch {
    pub row: usize,
    pub start: usize,
    pub end: usize,
}

/// A search in progress.
#[derive(Debug, Clone)]
pub struct SearchState {
    pub query: String,
    pub matches: Vec<SearchMatch>,
    pub current_match: Option<usize>,
}

/// A remembered state of a buffer.
#[derive(Clone)]
pub struct BufferState {
    pub content: String,
    pub cursor: Cursor,
}

/// A remembered state, as mathematical values.
pub struct Snapshot {
    pub content: Seq<char>,
    pub cursor: Cursor,
}

impl View for BufferState {
    type V = Snapshot;

    open spec fn view(&self) -> Snapshot {
        Snapshot { content: self.content@, cursor: self.cursor }
    }
}

/// The present state of a buffer together with what can be undone and
/// redone, each stack with its latest entry last.
pub struct History {
    pub present: Snapshot,
    pub undo: Seq<Snapshot>,
    pub redo: Seq<Snapshot>,
}

impl History {
    /// The stacks hold no more than `MAX_HISTORY` states between them.
    pub open spec fn wf(self) -> bool {
        self.undo.len() + self.redo.len() <= MAX_HISTORY
    }

    /// After the present state was saved: it is the latest entry to undo,
    /// the oldest entry is forgotten where the stack was full, and nothing
    /// is left to redo.
    pub open spec fn saved(self) -> History {
        let pushed = self.undo.push(self.present);
        History {
            present: self.present,
            undo: if pushed.len() > MAX_HISTORY {
                pushed.drop_first()
            } else {
                pushed
            },
            redo: Seq::empty(),
        }
    }

    /// After an undo: the latest saved state is the present one and the
    /// state that was present can be redone. Nothing changes where nothing
    /// was saved.
    pub open spec fn undone(self) -> History {
        if self.undo.len() > 0 {
            History {
                present: self.undo.last(),
                undo: self.undo.drop_last(),
                redo: self.redo.push(self.present),
            }
        } else {
            self
        }
    }

    /// After a redo: the state undone last is the present one again and
    /// the state that was present can be undone. Nothing changes where
    /// nothing was undone.
    pub open spec fn redone(self) -> History {
        if self.redo.len() > 0 {
            History {
                present: self.redo.last(),
                undo: self.undo.push(self.present),
                redo: self.redo.drop_last(),
            }
        } else {
            self
        }
    }
}

/// A redo takes back an undo.
pub proof fn lemma_redo_reverts_undo(history: History)
    requires
        history.undo.len() > 0,
    ensures
        history.undone().redone() == history,
{
    let back = history.undone().redone();
    assert(back.undo =~= history.undo);
    assert(back.redo =~= history.redo);
}

/// An undo takes back a redo.
pub proof fn lemma_undo_reverts_redo(history: History)
    requires
        history.redo.len() > 0,
    ensures
        history.redone().undone() == history,
{
    let back = history.redone().undone();
    assert(back.undo =~= history.undo);
    assert(back.redo =~= history.redo);
}

/// An undo right after a save brings back the state that was saved, which
/// is the present one.
pub proof fn lemma_undo_after_save(history: History)
    ensures
        history.saved().undone().present == history.present,
{
}

/// The stacks never outgrow their bound.
pub proof fn lemma_history_stays_bounded(history: History)
    requires
        history.wf(),
    ensures
        history.saved().wf(),
        history.undone().wf(),
        history.redone().wf(),
{
}

/// An open text with its cursor, its marks and its undo history.
#[derive(Clone)]
pub struct Buffer {
    pub file_path: Option<PathBuf>,
    pub content: String,
    pub modified: bool,
    pub cursor: Cursor,
    pub screen_offset: usize,
    pub selection: Option<Selection>,
    pub search_state: Option<SearchState>,
    pub undo_stack: VecDeque<BufferState>,
    pub redo_stack: VecDeque<BufferState>,
}

impl Buffer {
    /// The states that can be undone, latest last.
    pub open spec fn undo_history(&self) -> Seq<Snapshot> {
        self.undo_stack@.map_values(|s: BufferState| s@)
    }

    /// The states that can be redone, latest last.
    pub open spec fn redo_history(&self) -> Seq<Snapshot> {
        self.redo_stack@.map_values(|s: BufferState| s@)
    }

    /// The present text and cursor with both stacks.
    pub open spec fn history(&self) -> History {
        History {
            present: Snapshot { content: self.content@, cursor: self.cursor },
            undo: self.undo_history(),
            redo: self.redo_history(),
        }
    }

    /// Everything but text, cursor, history and the modified mark is the
    /// same in both buffers.
    pub open spec fn same_marks(&self, other: &Buffer) -> bool {
        &&& self.file_path == other.file_path
        &&& self.screen_offset == other.screen_offset
        &&& self.selection == other.selection
        &&& self.search_state == other.search_state
    }

    /// An empty, unnamed, unmodified buffer with the cursor at the start
    /// and no history.
    pub fn new() -> (buffer: Buffer)
        ensures
            buffer.content@.len() == 0,
            buffer.cursor == (Cursor { row: 0, col: 0 }),
            !buffer.modified,
            buffer.file_path.is_none(),
            buffer.screen_offset == 0,
            buffer.selection.is_none(),
            buffer.search_state.is_none(),
            buffer.undo_history().len() == 0,
            buffer.redo_history().len() == 0,
            buffer.history().wf(),
    {
        Buffer {
            file_path: None,
            content: String::new(),
            cursor: Cursor { row: 0, col: 0 },
            modified: false,
            screen_offset: 0,
            selection: None,
            search_state: None,
            undo_stack: VecDeque::with_capacity(MAX_HISTORY),
            redo_stack: VecDeque::new(),
        }
    }

    /// Remembers the present text and cursor as a state to come back to.
    pub fn save_state(&mut self)
        ensures
            final(self).history() == old(self).history().saved(),
            final(self).modified == old(self).modified,
            final(self).same_marks(old(self)),
    {
        let state = BufferState { content: self.content.clone(), cursor: self.cursor };
        self.undo_stack.push_back(state);
        if self.undo_stack.len() > MAX_HISTORY {
            self.undo_stack.pop_front();
        }
        self.redo_stack.clear();
        proof {
            let pushed = old(self).undo_history().push(old(self).history().present);
            assert(old(self).undo_stack@.push(state).map_values(|s: BufferState| s@) =~= pushed);
            if pushed.len() > MAX_HISTORY {
                assert(self.undo_history() =~= pushed.drop_first());
            } else {
                assert(self.undo_history() =~= pushed);
            }
            assert(self.redo_history() =~= Seq::<Snapshot>::empty());
        }
    }

    /// Goes back to the latest saved state. The state left behind can be
    /// redone. Does nothing where no state was saved.
    pub fn undo(&mut self)
        ensures
            final(self).history() == old(self).history().undone(),
            final(self).modified == (old(self).modified || old(self).undo_history().len() > 0),
            final(self).same_marks(old(self)),
    {
        if let Some(state) = self.undo_stack.pop_back() {
            let current_state = BufferState { content: self.content.clone(), cursor: self.cursor };
            self.redo_stack.push_back(current_state);
            self.content = state.content;
            self.cursor = state.cursor;
            self.modified = true;
            proof {
                assert(self.undo_history() =~= old(self).undo_history().drop_last());
                assert(self.redo_history() =~= old(self).redo_history().push(
                    old(self).history().present,
                ));
            }
        } else {
            proof {
                assert(self.undo_history() =~= old(self).undo_history());
            }
        }
    }

    /// Goes forward again to the state undone last. The state left behind
    /// can be undone. Does nothing where nothing was undone.
    pub fn redo(&mut self)
        ensures
            final(self).history() == old(self).history().redone(),
            final(self).modified == (old(self).modified || old(self).redo_history().len() > 0),
            final(self).same_marks(old(self)),
    {
        if let Some(state) = self.redo_stack.pop_back() {
            let current_state = BufferState { content: self.content.clone(), cursor: self.cursor };
            self.undo_stack.push_back(current_state);
            self.content = state.content;
            self.cursor = state.cursor;
            self.modified = true;
            proof {
                assert(self.redo_history() =~= old(self).redo_history().drop_last());
                assert(self.undo_history() =~= old(self).undo_history().push(
                    old(self).history().present,
                ));
            }
        } else {
            proof {
                assert(self.redo_history() =~= old(self).redo_history());
            }
        }
    }

    /// Number of states that can be undone.
    pub fn undo_depth(&self) -> (n: usize)
        ensures
            n == self.undo_history().len(),
    {
        self.undo_stack.len()
    }

    /// Number of states that can be redone.
    pub fn redo_depth(&self) -> (n: usize)
        ensures
            n == self.redo_history().len(),
    {
        self.redo_stack.len()
    }
}

} // verus!
