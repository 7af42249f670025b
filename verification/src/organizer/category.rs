//! Categories of files, told apart by file extension.

use vstd::prelude::*;
use crate::text::same_text;

verus! {

/// A named group of file extensions with the colour it is shown in. The
/// colour is only carried along.
#[derive(Clone, Default)]
pub struct Category<C> {
    pub name: String,
    pub extensions: Vec<String>,
    pub color: C,
}

/// One of `extensions` is `extension`, letter for letter.
pub open spec fn lists_extension(extensions: Seq<String>, extension: Seq<char>) -> bool {
    exists|i: int| 0 <= i < extensions.len() && (#[trigger] extensions[i])@ == extension
}

impl<C> Category<C> {
    /// A category of this name, these extensions and this colour.
    pub fn new(name: String, extensions: Vec<String>, color: C) -> (category: Category<C>)
        ensures
            category.name == name,
            category.extensions == extensions,
            category.color == color,
    {
        Category { name, extensions, color }
    }

    /// The category lists `extension`, letter for letter.
    pub fn matches_extension(&self, extension: &str) -> (found: bool)
        ensures
            found == lists_extension(self.extensions@, extension@),
    {
        let mut i: usize = 0;
        while i < self.extensions.len()
            invariant
                i <= self.extensions.len(),
                forall|j: int| 0 <= j < i ==> (#[trigger] self.extensions@[j])@ != extension@,
            decreases self.extensions.len() - i,
        {
            if same_text(self.extensions[i].as_str(), extension) {
                return true;
            }
            i += 1;
        }
        false
    }
}

/// The built-in categories of the command-line organiser, each with its
/// extensions: code, notes and images.
pub open spec fn builtin_categories() -> Seq<(Seq<char>, Seq<Seq<char>>)> {
    seq![
        ("Code"@, seq!["ts"@, "js"@, "c"@, "cpp"@, "rs"@, "py"@, "java"@, "zig"@]),
        ("Notes"@, seq!["txt"@, "pdf"@, "doc"@, "docx"@, "odt"@]),
        ("Images"@, seq!["jpeg"@, "jpg"@, "png"@, "gif"@, "bmp"@, "tiff"@]),
    ]
}

/// A table of categories as mathematical values: each name with its
/// extensions.
pub open spec fn table_view(table: Seq<(&'static str, Vec<&'static str>)>) -> Seq<
    (Seq<char>, Seq<Seq<char>>),
> {
    Seq::new(
        table.len(),
        |i: int| (table[i].0@, Seq::new(table[i].1@.len(), |j: int| table[i].1@[j]@)),
    )
}

/// The built-in categories.
pub fn get_categories() -> (categories: Vec<(&'static str, Vec<&'static str>)>)
    ensures
        table_view(categories@) == builtin_categories(),
{
    let mut categories: Vec<(&'static str, Vec<&'static str>)> = Vec::new();
    categories.push(("Code", vec!["ts", "js", "c", "cpp", "rs", "py", "java", "zig"]));
    categories.push(("Notes", vec!["txt", "pdf", "doc", "docx", "odt"]));
    categories.push(("Images", vec!["jpeg", "jpg", "png", "gif", "bmp", "tiff"]));
    proof {
        let view = table_view(categories@);
        let builtin = builtin_categories();
        assert(view.len() == 3);
        assert(view[0].1 =~= builtin[0].1);
        assert(view[1].1 =~= builtin[1].1);
        assert(view[2].1 =~= builtin[2].1);
        assert(view =~= builtin);
    }
    categories
}

/// The row lists `extension`, letter for letter.
pub open spec fn row_lists(row: (&'static str, Vec<&'static str>), extension: Seq<char>) -> bool {
    exists|k: int| 0 <= k < row.1@.len() && (#[trigger] row.1@[k])@ == extension
}

/// The place of the first row of the table that lists `extension`, if
/// there is one.
pub open spec fn first_listing(
    table: Seq<(&'static str, Vec<&'static str>)>,
    extension: Seq<char>,
) -> Option<int>
    decreases table.len(),
{
    if table.len() == 0 {
        None
    } else {
        match first_listing(table.drop_last(), extension) {
            Some(i) => Some(i),
            None => if row_lists(table.last(), extension) {
                Some(table.len() - 1)
            } else {
                None
            },
        }
    }
}

/// What `first_listing` finds is a row that lists the extension and has no
/// such row before it; where it finds nothing, no row lists the extension.
pub proof fn lemma_first_listing(
    table: Seq<(&'static str, Vec<&'static str>)>,
    extension: Seq<char>,
)
    ensures
        match first_listing(table, extension) {
            Some(i) => {
                &&& 0 <= i < table.len()
                &&& row_lists(table[i], extension)
                &&& forall|j: int| 0 <= j < i ==> !row_lists(#[trigger] table[j], extension)
            },
            None => forall|j: int| 0 <= j < table.len() ==> !row_lists(
                #[trigger] table[j],
                extension,
            ),
        },
    decreases table.len(),
{
    if table.len() > 0 {
        lemma_first_listing(table.drop_last(), extension);
        assert forall|j: int| 0 <= j < table.len() - 1 implies table.drop_last()[j]
            == table[j] by {}
        match first_listing(table.drop_last(), extension) {
            Some(i) => {
                assert(table.drop_last()[i] == table[i]);
                assert forall|j: int| 0 <= j < i implies !row_lists(
                    #[trigger] table[j],
                    extension,
                ) by {
                    assert(table.drop_last()[j] == table[j]);
                }
            },
            None => {
                assert forall|j: int| 0 <= j < table.len() - 1 implies !row_lists(
                    #[trigger] table[j],
                    extension,
                ) by {
                    assert(table.drop_last()[j] == table[j]);
                }
            },
        }
    }
}

/// The name of the first category of the table that lists `extension`,
/// letter for letter, or `None` where no category does.
#[verifier::loop_isolation(false)]
pub fn category_of(
    extension: &str,
    categories: &Vec<(&'static str, Vec<&'static str>)>,
) -> (name: Option<&'static str>)
    ensures
        name == match first_listing(categories@, extension@) {
            Some(i) => Some(categories@[i].0),
            None => None,
        },
{
    let mut i: usize = 0;
    while i < categories.len()
        invariant
            i <= categories.len(),
            first_listing(categories@.take(i as int), extension@).is_none(),
        decreases categories.len() - i,
    {
        let extensions = &categories[i].1;
        let ghost next = categories@.take(i + 1);
        assert(next.drop_last() =~= categories@.take(i as int));
        assert(next.last() == categories@[i as int]);
        let mut k: usize = 0;
        while k < extensions.len()
            invariant
                k <= extensions.len(),
                i < categories.len(),
                extensions == &categories@[i as int].1,
                forall|m: int| 0 <= m < k ==> (#[trigger] extensions@[m])@ != extension@,
            decreases extensions.len() - k,
        {
            if same_text(extensions[k], extension) {
                proof {
                    assert(row_lists(categories@[i as int], extension@));
                    assert(first_listing(next, extension@) == Some(i as int));
                    lemma_first_listing_extends(categories@, extension@, i + 1);
                }
                return Some(categories[i].0);
            }
            k += 1;
        }
        assert(!row_lists(categories@[i as int], extension@));
        i += 1;
    }
    assert(categories@.take(i as int) =~= categories@);
    None
}

/// A listing found in the front part of a table is the first listing of
/// the whole table.
proof fn lemma_first_listing_extends(
    table: Seq<(&'static str, Vec<&'static str>)>,
    extension: Seq<char>,
    n: int,
)
    requires
        0 <= n <= table.len(),
        first_listing(table.take(n), extension).is_some(),
    ensures
        first_listing(table, extension) == first_listing(table.take(n), extension),
    decreases table.len() - n,
{
    if n < table.len() {
        assert(table.take(n + 1).drop_last() =~= table.take(n));
        lemma_first_listing_extends(table, extension, n + 1);
    } else {
        assert(table.take(n) =~= table);
    }
}

} // verus!
