//! Pieces of a code snippet manager: the snippet itself, what adding and
//! editing one mean, and how snippets are found by tag.

use vstd::prelude::*;
use vstd::string::StringExecFns;
use crate::text::same_text;

verus! {

/// A piece of code kept for later, with what it is called, the language
/// it is in and the tags it is found by.
#[derive(Debug)]
pub struct Snippet {
    pub title: String,
    pub language: String,
    pub tags: Vec<String>,
    pub content: String,
}

impl Snippet {
    /// One of the snippet's tags is `tag`, letter for letter.
    pub open spec fn tagged(&self, tag: Seq<char>) -> bool {
        exists|i: int| 0 <= i < self.tags@.len() && (#[trigger] self.tags@[i])@ == tag
    }

    /// The snippet carries `tag`, letter for letter.
    pub fn has_tag(&self, tag: &str) -> (found: bool)
        ensures
            found == self.tagged(tag@),
    {
        let mut i: usize = 0;
        while i < self.tags.len()
            invariant
                i <= self.tags.len(),
                forall|j: int| 0 <= j < i ==> (#[trigger] self.tags@[j])@ != tag@,
            decreases self.tags.len() - i,
        {
            if same_text(self.tags[i].as_str(), tag) {
                return true;
            }
            i += 1;
        }
        false
    }

    /// The name of the file the snippet is kept in: its title followed
    /// by `.json`.
    pub fn file_name(&self) -> (name: String)
        ensures
            name@ == self.title@ + ".json"@,
    {
        self.title.clone().concat(".json")
    }
}

/// The snippet that adding one with these properties stores.
pub fn add_snippet(title: &str, language: &str, tags: Vec<String>, content: &str) -> (snippet:
    Snippet)
    ensures
        snippet.title@ == title@,
        snippet.language@ == language@,
        snippet.tags == tags,
        snippet.content@ == content@,
{
    Snippet {
        title: title.to_string(),
        language: language.to_string(),
        tags,
        content: content.to_string(),
    }
}

/// The snippet that editing `snippet` stores: new content and new tags
/// under the old title and language.
pub fn edit_snippet(snippet: Snippet, new_content: &str, new_tags: Vec<String>) -> (edited:
    Snippet)
    ensures
        edited.title == snippet.title,
        edited.language == snippet.language,
        edited.tags == new_tags,
        edited.content@ == new_content@,
{
    let mut snippet = snippet;
    snippet.content = new_content.to_string();
    snippet.tags = new_tags;
    snippet
}

} // verus!
