//! One line of the listing.

use vstd::prelude::*;

use crate::permissions::{mode_short, octal_chars, parse_permissions, permission_chars};
use crate::size::{convert, human_size};
use crate::style::{escape, name_style, paint, style_end, style_of, style_start};
use crate::text::{pad_left, right_aligned};
use crate::timestamp::{format_modified, modified_chars, Timestamp};

verus! {

/// The width of the column that holds the size.
pub const SIZE_WIDTH: usize = 9;

/// What the listing shows of one entry of the directory.
#[derive(Clone, Debug, PartialEq, Eq)]
pub struct DirectoryEntry {
    /// The last component of the entry's path.
    pub name: String,
    /// Whether the entry is a directory.
    pub is_dir: bool,
    /// The size in bytes.
    pub size: u64,
    /// The mode bits: the permissions, and above them the file type.
    pub mode: u32,
    /// The time of the last change.
    pub modified: Timestamp,
    /// The name of the user that owns the entry.
    pub owner: String,
    /// The name of the group that owns the entry.
    pub group: String,
}

/// The separator between the fields of a line.
pub open spec fn gap() -> Seq<char> {
    seq![' ', ' ', ' ']
}

/// The layout of a line: the permissions, their octal digits in brackets,
/// owner and group with a colon between them, the time of the last change,
/// the size right-aligned in nine columns, and the name.
pub open spec fn line_chars(
    permissions: Seq<char>,
    octal: Seq<char>,
    owner: Seq<char>,
    group: Seq<char>,
    modified: Seq<char>,
    size: Seq<char>,
    name: Seq<char>,
) -> Seq<char> {
    permissions + seq![' ', '('] + octal + seq![')'] + gap() + owner + seq![':'] + group + gap()
        + modified + gap() + right_aligned(size, SIZE_WIDTH as nat) + gap() + name
}

/// The line of an entry, given the text of its time of change and its name
/// as the terminal layer has wrapped it.
pub open spec fn entry_chars(entry: DirectoryEntry, modified: Seq<char>, painted: Seq<char>) -> Seq<
    char,
> {
    line_chars(
        permission_chars(entry.mode),
        octal_chars(entry.mode),
        entry.owner@,
        entry.group@,
        modified,
        human_size(entry.size as int),
        painted,
    )
}

/// Lays out one line from its fields.
pub fn compose_line(
    permissions: &str,
    octal: &str,
    owner: &str,
    group: &str,
    modified: &str,
    size: &str,
    name: &str,
) -> (line: String)
    ensures
        line@ == line_chars(permissions@, octal@, owner@, group@, modified@, size@, name@),
{
    proof {
        reveal_strlit(" (");
        reveal_strlit(")");
        reveal_strlit("   ");
        reveal_strlit(":");
    }
    let column = pad_left(size, SIZE_WIDTH);
    let mut line = String::new();
    line.append(permissions);
    line.append(" (");
    line.append(octal);
    line.append(")");
    line.append("   ");
    line.append(owner);
    line.append(":");
    line.append(group);
    line.append("   ");
    line.append(modified);
    line.append("   ");
    line.append(column.as_str());
    line.append("   ");
    line.append(name);
    line
}

/// Renders the line of an entry from what the entry holds, the text of its
/// time of change and the name as it is to appear.
pub fn entry_line_with(entry: &DirectoryEntry, modified: &str, painted: &str) -> (line: String)
    ensures
        line@ == entry_chars(*entry, modified@, painted@),
{
    let permissions = parse_permissions(entry.mode);
    let octal = mode_short(entry.mode);
    let size = convert(entry.size as i128);
    compose_line(
        permissions.as_str(),
        octal.as_str(),
        entry.owner.as_str(),
        entry.group.as_str(),
        modified,
        size.as_str(),
        painted,
    )
}

/// `text` is a line of `entry`: the entry's fields in the layout of the
/// listing, with the name at the end as the terminal layer has wrapped it.
/// For a name without an escape character that is the name between the
/// codes of its style, or the name alone.
pub open spec fn is_entry_line(text: Seq<char>, entry: DirectoryEntry) -> bool {
    &&& modified_chars(entry.modified) matches Some(modified)
    &&& exists|painted: Seq<char>| text == #[trigger] entry_chars(entry, modified, painted)
    &&& !entry.name@.contains(escape()) ==> {
        let style = style_of(entry.name@, entry.is_dir);
        ||| text == entry_chars(entry, modified, entry.name@)
        ||| text == entry_chars(entry, modified, style_start(style) + entry.name@ + style_end())
    }
}

/// Renders the line of an entry. There is a line for every entry whose time
/// of change has a text. The name stands at its end in the style of the
/// entry, between escape codes or without them, as the terminal layer
/// decides.
pub fn entry_line(entry: &DirectoryEntry) -> (line: Option<String>)
    ensures
        match line {
            Some(text) => is_entry_line(text@, *entry),
            None => modified_chars(entry.modified) is None,
        },
{
    match format_modified(&entry.modified) {
        Some(modified) => {
            let style = name_style(entry.name.as_str(), entry.is_dir);
            let painted = paint(entry.name.as_str(), style);
            let line = entry_line_with(entry, modified.as_str(), painted.as_str());
            proof {
                let shown = modified_chars(entry.modified)->0;
                assert(line@ == entry_chars(*entry, shown, painted@));
                if !entry.name@.contains(escape()) && painted@ != entry.name@ {
                    assert(painted@ == style_start(style) + entry.name@ + style_end());
                }
            }
            Some(line)
        },
        None => None,
    }
}

} // verus!
