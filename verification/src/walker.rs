//! What a walk through a directory does with each entry that it meets.

use crate::text::chars_of;
use vstd::prelude::*;

verus! {

/// What to do with an entry of a directory.
#[derive(Clone, Copy, Debug, PartialEq, Eq)]
pub enum EntryAction {
    /// Walk through it: it is a directory.
    Descend,
    /// Pass it by: it is a symbolic link, or a file that is no document.
    Skip,
    /// Stop: it is a document that cannot be written.
    Refuse,
    /// Read it, and write it anew if it is to change.
    Process,
}

/// The file name extension of the documents that a walk looks for.
pub open spec fn markdown_extension() -> Seq<char> {
    seq!['m', 'd']
}

/// What to do with an entry, by its file name extension and by what the file
/// system tells of the entry itself. A symbolic link is passed by, wherever
/// it leads; a directory is walked through; a file with another extension is
/// passed by; a document has to be writable.
pub open spec fn action_for(
    extension: Seq<char>,
    directory: bool,
    symlink: bool,
    read_only: bool,
) -> EntryAction {
    if symlink {
        EntryAction::Skip
    } else if directory {
        EntryAction::Descend
    } else if extension != markdown_extension() {
        EntryAction::Skip
    } else if read_only {
        EntryAction::Refuse
    } else {
        EntryAction::Process
    }
}

/// Whether `extension` is the file name extension of a document.
pub fn is_markdown(extension: &str) -> (wanted: bool)
    ensures
        wanted == (extension@ == markdown_extension()),
{
    let chars = chars_of(extension);
    let wanted = chars.len() == 2 && chars[0] == 'm' && chars[1] == 'd';
    assert(wanted ==> chars@ =~= markdown_extension());
    wanted
}

/// What to do with an entry whose file name has the extension `extension`
/// (the empty text where it has none). `directory`, `symlink` and
/// `read_only` are what the file system tells of the entry itself, not of
/// what a link leads to.
pub fn entry_decision(extension: &str, directory: bool, symlink: bool, read_only: bool) -> (action:
    EntryAction)
    ensures
        action == action_for(extension@, directory, symlink, read_only),
{
    if symlink {
        EntryAction::Skip
    } else if directory {
        EntryAction::Descend
    } else if !is_markdown(extension) {
        EntryAction::Skip
    } else if read_only {
        EntryAction::Refuse
    } else {
        EntryAction::Process
    }
}

} // verus!
