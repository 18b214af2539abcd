//! The options of one listing and the filter that they define.

use vstd::prelude::*;

verus! {

/// What the entries are ordered by.
#[derive(Clone, Copy, Debug, PartialEq, Eq, Structural)]
pub enum SortingKey {
    /// The size in bytes.
    Size,
    /// The path, byte by byte.
    Name,
}

/// The options of one listing. They are fixed when the listing starts.
#[derive(Clone, Copy, Debug, PartialEq, Eq, Structural)]
pub struct ListingOptions {
    /// Show the entries whose name starts with a dot too.
    pub all: bool,
    /// Show directories only.
    pub dirs_only: bool,
    /// Show only what is not a directory.
    pub files_only: bool,
    /// What to order the entries by.
    pub sort: SortingKey,
    /// Invert the comparison of the order.
    pub reverse: bool,
}

impl Default for SortingKey {
    /// The entries are ordered by name unless the size is asked for.
    fn default() -> (key: SortingKey)
        ensures
            key == SortingKey::Name,
    {
        SortingKey::Name
    }
}

impl Default for ListingOptions {
    /// No flag is set, and the entries are ordered by name.
    fn default() -> (options: ListingOptions)
        ensures
            options == (ListingOptions {
                all: false,
                dirs_only: false,
                files_only: false,
                sort: SortingKey::Name,
                reverse: false,
            }),
    {
        ListingOptions {
            all: false,
            dirs_only: false,
            files_only: false,
            sort: SortingKey::Name,
            reverse: false,
        }
    }
}

/// A name that starts with a dot is hidden.
pub open spec fn is_hidden_name(name: Seq<char>) -> bool {
    name.len() > 0 && name[0] == '.'
}

/// The filter: an entry is shown where the options admit its name and its
/// kind. A hidden name needs the `all` flag; each of the two `only` flags
/// shuts out one kind.
pub open spec fn visible(options: ListingOptions, name: Seq<char>, is_dir: bool) -> bool {
    &&& options.all || !is_hidden_name(name)
    &&& !options.dirs_only || is_dir
    &&& !options.files_only || !is_dir
}

/// Whether `name` starts with a dot.
pub fn is_hidden(name: &str) -> (hidden: bool)
    ensures
        hidden == is_hidden_name(name@),
{
    !name.is_empty() && name.get_char(0) == '.'
}

/// Whether the entry with this name is shown under these options.
pub fn is_visible(options: &ListingOptions, name: &str, is_dir: bool) -> (shown: bool)
    ensures
        shown == visible(*options, name@, is_dir),
{
    (options.all || !is_hidden(name)) && (!options.dirs_only || is_dir) && (!options.files_only
        || !is_dir)
}

/// With both `only` flags set nothing is shown: no entry is a directory and
/// not a directory.
pub proof fn lemma_both_only_flags_show_nothing(
    options: ListingOptions,
    name: Seq<char>,
    is_dir: bool,
)
    requires
        options.dirs_only,
        options.files_only,
    ensures
        !visible(options, name, is_dir),
{
}

/// Without the `all` flag no hidden name is shown, whatever the other flags
/// are.
pub proof fn lemma_hidden_needs_all(options: ListingOptions, name: Seq<char>, is_dir: bool)
    requires
        !options.all,
        is_hidden_name(name),
    ensures
        !visible(options, name, is_dir),
{
}

/// With the `all` flag the name decides nothing: a hidden entry is shown
/// where an entry of the same kind with another name is.
pub proof fn lemma_all_ignores_names(
    options: ListingOptions,
    name: Seq<char>,
    other: Seq<char>,
    is_dir: bool,
)
    requires
        options.all,
    ensures
        visible(options, name, is_dir) == visible(options, other, is_dir),
{
}

/// With the `all` flag and neither of the `only` flags everything is shown.
pub proof fn lemma_all_shows_everything(options: ListingOptions, name: Seq<char>, is_dir: bool)
    requires
        options.all,
        !options.dirs_only,
        !options.files_only,
    ensures
        visible(options, name, is_dir),
{
}

/// The order plays no part in the filter.
pub proof fn lemma_filter_ignores_order(
    options: ListingOptions,
    sort: SortingKey,
    reverse: bool,
    name: Seq<char>,
    is_dir: bool,
)
    ensures
        visible(options, name, is_dir) == visible(
            ListingOptions { sort, reverse, ..options },
            name,
            is_dir,
        ),
{
}

} // verus!
