//! What the archive helpers do with each entry they meet.
use vstd::prelude::*;

use crate::text::{chars_of, has_suffix};

verus! {

/// What is done with one entry.
#[derive(Debug, Clone, Copy, PartialEq, Eq, Structural)]
pub enum ArchiveEntry {
    Skip,
    Directory,
    File,
}

/// ZIP archives.
pub struct Zip;

impl Zip {
    /// What extracting does with an entry: it is skipped when its name does
    /// not stay inside the destination, made a directory when its name ends
    /// with `/`, and written as a file otherwise.
    pub fn extract_action(name: &str, enclosed: bool) -> (r: ArchiveEntry)
        ensures
            r == if !enclosed {
                ArchiveEntry::Skip
            } else if has_suffix(name@, "/"@) {
                ArchiveEntry::Directory
            } else {
                ArchiveEntry::File
            },
    {
        if !enclosed {
            return ArchiveEntry::Skip;
        }
        let c = chars_of(name);
        proof {
            reveal_strlit("/");
            assert("/"@ =~= seq!['/']);
        }
        if c.len() > 0 && c[c.len() - 1] == '/' {
            assert(c@.skip(c@.len() - 1) =~= seq!['/']);
            ArchiveEntry::Directory
        } else {
            proof {
                if has_suffix(name@, "/"@) {
                    assert(c@.len() >= 1);
                    assert(c@.skip(c@.len() - 1) == seq!['/']);
                    assert(c@.skip(c@.len() - 1)[0] == c@[c@.len() - 1]);
                }
            }
            ArchiveEntry::File
        }
    }

    /// What archiving a directory does with an entry found under it: a
    /// file is added as a file; anything else is added as a directory,
    /// except the directory itself (the empty relative name).
    pub fn archive_action(is_file: bool, relative_name: &str) -> (r: ArchiveEntry)
        ensures
            r == if is_file {
                ArchiveEntry::File
            } else if relative_name@.len() > 0 {
                ArchiveEntry::Directory
            } else {
                ArchiveEntry::Skip
            },
    {
        if is_file {
            return ArchiveEntry::File;
        }
        let c = chars_of(relative_name);
        if c.len() > 0 {
            ArchiveEntry::Directory
        } else {
            ArchiveEntry::Skip
        }
    }
}

} // verus!
