use crate::headers::managed::file_entry::FileEntry;
use vstd::prelude::*;

verus! {

/// A native (packed) file entry that converts to and from the managed [`FileEntry`].
pub trait NativeFileEntry {
    /// Fills this entry from a managed entry.
    fn copy_from(&mut self, entry: &FileEntry);

    /// Fills a managed entry from this entry.
    fn copy_to(&self, entry: &mut FileEntry);
}

} // verus!
