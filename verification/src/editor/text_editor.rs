//! The open buffers of an editor.

use vstd::prelude::*;
use vstd::string::StringExecFns;
use std::collections::HashMap;
use crate::editor::buffer::Buffer;
use crate::editor::config::Config;

verus! {

/// Why reading or writing a file failed. The editor only carries it.
#[verifier::external_type_specification]
#[verifier::external_body]
pub struct ExIoError(std::io::Error);

/// What can go wrong in the editor.
#[derive(Debug)]
pub enum EditorError {
    Io(std::io::Error),
    NoBufferSelected,
    NoBufferAvailable,
    CannotCloseLastBuffer,
    OperationCancelled,
}

impl EditorError {
    /// `text` is the error in words. An I/O failure reads `IO error: `
    /// followed by what the failure says of itself.
    pub open spec fn reads(&self, text: Seq<char>) -> bool {
        match self {
            EditorError::Io(error) => exists|detail: String|
                vstd::string::to_string_from_display_ensures(error, detail) && text
                    == "IO error: "@ + detail@,
            EditorError::NoBufferSelected => text == "No buffer selected"@,
            EditorError::NoBufferAvailable => text == "No buffer available"@,
            EditorError::CannotCloseLastBuffer => text == "Cannot close last buffer"@,
            EditorError::OperationCancelled => text == "Operation cancelled"@,
        }
    }

    /// The error in words.
    pub fn message(&self) -> (message: String)
        ensures
            self.reads(message@),
    {
        match self {
            EditorError::Io(error) => {
                let detail = error.to_string();
                "IO error: ".to_string().concat(detail.as_str())
            },
            EditorError::NoBufferSelected => "No buffer selected".to_string(),
            EditorError::NoBufferAvailable => "No buffer available".to_string(),
            EditorError::CannotCloseLastBuffer => "Cannot close last buffer".to_string(),
            EditorError::OperationCancelled => "Operation cancelled".to_string(),
        }
    }
}

/// The editor: its buffers by number, the number of the buffer in front,
/// the number the next buffer will get, and the settings.
pub struct TextEditor {
    pub buffers: HashMap<usize, Buffer>,
    pub current_buffer: usize,
    pub next_buffer_id: usize,
    pub config: Config,
}

/// `HashMap::get_mut` on the buffers of an editor: a way to change the
/// buffer stored under `id`, where there is one. The map afterwards is the
/// map before with whatever the caller left in that buffer; without such a
/// buffer the map is left alone.
#[verifier::external_body]
fn buffer_mut<'a>(buffers: &'a mut HashMap<usize, Buffer>, id: usize) -> (found: Option<
    &'a mut Buffer,
>)
    ensures
        match found {
            Some(buffer) => {
                &&& old(buffers)@.contains_key(id)
                &&& *buffer == old(buffers)@[id]
                &&& final(buffers)@ == old(buffers)@.insert(id, *final(buffer))
            },
            None => {
                &&& !old(buffers)@.contains_key(id)
                &&& final(buffers)@ == old(buffers)@
            },
        },
{
    buffers.get_mut(&id)
}

impl TextEditor {
    /// An editor with these settings and one empty buffer, number 0, in
    /// front. Where the settings could not be loaded, the failure is
    /// handed on.
    pub fn new(loaded: Result<Config, std::io::Error>) -> (editor: Result<TextEditor, EditorError>)
        ensures
            match loaded {
                Ok(config) => {
                    &&& editor matches Ok(e)
                    &&& e.config == config
                    &&& e.current_buffer == 0
                    &&& e.next_buffer_id == 1
                    &&& e.buffers@.dom() == set![0usize]
                    &&& e.buffers@[0].content@.len() == 0
                    &&& e.buffers@[0].history().undo.len() == 0
                    &&& e.buffers@[0].history().redo.len() == 0
                    &&& !e.buffers@[0].modified
                },
                Err(error) => editor matches Err(EditorError::Io(e)) && e == error,
            },
    {
        let config = match loaded {
            Ok(config) => config,
            Err(error) => {
                return Err(EditorError::Io(error));
            },
        };
        let mut editor = TextEditor {
            buffers: HashMap::new(),
            current_buffer: 0,
            next_buffer_id: 0,
            config,
        };
        editor.create_buffer();
        assert(editor.buffers@.dom() =~= set![0usize]);
        Ok(editor)
    }

    /// Opens a new empty buffer and returns its number. The buffer in
    /// front stays in front.
    pub fn create_buffer(&mut self) -> (buffer_id: usize)
        requires
            old(self).next_buffer_id < usize::MAX,
        ensures
            buffer_id == old(self).next_buffer_id,
            final(self).next_buffer_id == buffer_id + 1,
            final(self).current_buffer == old(self).current_buffer,
            final(self).config == old(self).config,
            final(self).buffers@.dom() == old(self).buffers@.dom().insert(buffer_id),
            forall|id: usize|
                id != buffer_id && old(self).buffers@.contains_key(id) ==> final(self).buffers@[id]
                    == old(self).buffers@[id],
            final(self).buffers@[buffer_id].content@.len() == 0,
            final(self).buffers@[buffer_id].history().undo.len() == 0,
            final(self).buffers@[buffer_id].history().redo.len() == 0,
            !final(self).buffers@[buffer_id].modified,
    {
        broadcast use vstd::std_specs::hash::group_hash_axioms;

        let buffer_id = self.next_buffer_id;
        self.buffers.insert(buffer_id, Buffer::new());
        self.next_buffer_id += 1;
        buffer_id
    }

    /// The buffer in front, or `NoBufferSelected` where the number in
    /// front names no buffer.
    pub fn current_buffer(&self) -> (buffer: Result<&Buffer, EditorError>)
        ensures
            match buffer {
                Ok(b) => self.buffers@.contains_key(self.current_buffer) && *b
                    == self.buffers@[self.current_buffer],
                Err(error) => !self.buffers@.contains_key(self.current_buffer)
                    && error is NoBufferSelected,
            },
    {
        broadcast use vstd::std_specs::hash::group_hash_axioms;

        match self.buffers.get(&self.current_buffer) {
            Some(buffer) => Ok(buffer),
            None => Err(EditorError::NoBufferSelected),
        }
    }

    /// The buffer in front, to be changed in place, or `NoBufferSelected`
    /// where the number in front names no buffer.
    pub fn current_buffer_mut(&mut self) -> (buffer: Result<&mut Buffer, EditorError>)
        ensures
            final(self).current_buffer == old(self).current_buffer,
            final(self).next_buffer_id == old(self).next_buffer_id,
            final(self).config == old(self).config,
            match buffer {
                Ok(b) => {
                    &&& old(self).buffers@.contains_key(old(self).current_buffer)
                    &&& *b == old(self).buffers@[old(self).current_buffer]
                    &&& final(self).buffers@ == old(self).buffers@.insert(
                        old(self).current_buffer,
                        *final(b),
                    )
                },
                Err(error) => {
                    &&& !old(self).buffers@.contains_key(old(self).current_buffer)
                    &&& error is NoBufferSelected
                    &&& final(self).buffers@ == old(self).buffers@
                },
            },
    {
        match buffer_mut(&mut self.buffers, self.current_buffer) {
            Some(buffer) => Ok(buffer),
            None => Err(EditorError::NoBufferSelected),
        }
    }
}

} // verus!
